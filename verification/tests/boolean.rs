use category::boolean::{always_false, always_true, id_bool, negate};

#[test]
fn the_four_functions_on_both_values() {
    assert_eq!((id_bool(false), id_bool(true)), (false, true));
    assert_eq!((negate(false), negate(true)), (true, false));
    assert_eq!((always_true(false), always_true(true)), (true, true));
    assert_eq!((always_false(false), always_false(true)), (false, false));
}
