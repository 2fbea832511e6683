use category::either::Either;

#[test]
fn test_either() {
    let _a: Either<u32, String> = Either::Left(5);
    let _b: Either<f64, &str> = Either::Right("b");
    let nested: Either<Either<bool, u32>, bool> = Either::Left(Either::Right(42u32));

    let extracted = match nested {
        Either::Left(Either::Right(v)) => v,
        _ => 0,
    };

    assert_eq!(42u32, extracted);
}

#[test]
fn either_values_compare_by_case_and_value() {
    assert_eq!(Either::<u32, u32>::Left(1), Either::Left(1));
    assert_ne!(Either::<u32, u32>::Left(1), Either::Right(1));
    assert_ne!(Either::<u32, u32>::Right(1), Either::Right(2));
}
