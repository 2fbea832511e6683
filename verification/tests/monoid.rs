use category::monoid::{AddM, Monoid};

#[test]
fn addition_has_zero_as_its_neutral_value() {
    assert_eq!(AddM::<u32>::mempty(17), 0);
    assert_eq!(AddM::<u32>::mappend(AddM::<u32>::mempty(1), 9), 9);
    assert_eq!(AddM::<u32>::mappend(9, AddM::<u32>::mempty(1)), 9);
}

#[test]
fn addition_is_associative() {
    let left = AddM::<u32>::mappend(AddM::<u32>::mappend(1, 2), 3);
    let right = AddM::<u32>::mappend(1, AddM::<u32>::mappend(2, 3));
    assert_eq!(left, 6);
    assert_eq!(right, 6);
}

#[test]
fn addition_reaches_the_largest_value() {
    assert_eq!(AddM::<u32>::mappend(u32::MAX - 1, 1), u32::MAX);
}
