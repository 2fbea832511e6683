use category::kleisli::optional::{compose, identity_morphism};

fn half(x: u32) -> Option<u32> {
    if x % 2 == 0 {
        Some(x / 2)
    } else {
        None
    }
}

#[test]
fn identity_morphism_always_succeeds() {
    assert_eq!(identity_morphism(7u32), Some(7));
}

#[test]
fn compose_gives_nothing_as_soon_as_one_function_does() {
    let quarter = compose(half, half);
    assert_eq!(quarter(8), Some(2));
    assert_eq!(quarter(6), None);
    assert_eq!(quarter(5), None);
}

#[test]
fn identity_morphism_is_a_unit_of_optional_compose() {
    let left = compose(identity_morphism, half);
    let right = compose(half, identity_morphism);
    for x in 0u32..6 {
        assert_eq!(left(x), half(x));
        assert_eq!(right(x), half(x));
    }
}
