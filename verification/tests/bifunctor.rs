use category::bifunctor::{Bifunctor, MapFirst, MapSecond};
use category::composition::id;
use category::either::Either;
use std::num::ParseIntError;

#[test]
fn test_either_bifunctor() {
    let len = |s: &str| s.len();
    let count_ones = |x: usize| x.count_ones();

    let left = Either::Left("42");
    let left_up = left.bimap(len, count_ones);
    assert_eq!(left_up, Either::Left(2));

    let incr_to_u32 = |x: u8| (x - 1) as u32;
    let incr_to_u64 = |x: u32| (x + 1) as u64;

    let right = Either::Right(42u32);
    let right_up = right.bimap(incr_to_u32, incr_to_u64);
    assert_eq!(right_up, Either::Right(43u64));
}

#[test]
fn test_pair_bifunctor() {
    let split = |s: &str| {
        s.split_ascii_whitespace()
            .map(|s| s.to_string())
            .collect::<Vec<String>>()
    };
    let incr_pair = |(a, b): (u32, u32)| ((a + 1) as u64, (b + 1) as u64);
    let v = vec![
        "First".to_string(),
        "second".to_string(),
        "third".to_string(),
    ];

    let pair = ("First second third", (0, 1));
    let uplifted = pair.bimap(split, incr_pair);
    assert_eq!(uplifted, (v, (1u64, 2u64)));
}

#[test]
fn test_result_bifunctor() {
    let make_pair = |n: u32| (n, n + 1);
    let log = |e: ParseIntError| e.to_string() + " - with uplift";

    let ok: Result<u32, _> = "42".parse();
    let err = "Hello, World!".parse::<u32>();

    let ok = ok.bimap(make_pair, log);
    let err = err.bimap(make_pair, log);

    assert_eq!(ok, Ok((42u32, 43u32)));
    assert_eq!(
        err,
        Err("invalid digit found in string - with uplift".to_string())
    );
}

fn either_cases() -> [Either<u32, String>; 2] {
    [Either::Left(7), Either::Right("seven".to_string())]
}

fn either_case(i: usize) -> Either<u32, String> {
    let [left, right] = either_cases();
    if i == 0 {
        left
    } else {
        right
    }
}

fn outcome_case(i: usize) -> Result<u32, String> {
    if i == 0 {
        Ok(7)
    } else {
        Err("seven".to_string())
    }
}

#[test]
fn bimap_is_first_then_second_and_second_then_first() {
    let f = |x: u32| x as u64 + 1;
    let g = |s: String| s.len();
    for i in 0..2 {
        let joint = either_case(i).bimap(f, g);
        assert_eq!(joint, either_case(i).first(f).second(g));
        assert_eq!(joint, either_case(i).second(g).first(f));

        let joint = outcome_case(i).bimap(f, g);
        assert_eq!(joint, outcome_case(i).first(f).second(g));
        assert_eq!(joint, outcome_case(i).second(g).first(f));
    }
    let pair = (7u32, "seven".to_string());
    let joint = pair.clone().bimap(f, g);
    assert_eq!(joint, (8u64, 5usize));
    assert_eq!(joint, pair.clone().first(f).second(g));
    assert_eq!(joint, pair.second(g).first(f));
}

#[test]
fn mapping_with_the_identity_changes_nothing() {
    for i in 0..2 {
        assert_eq!(either_case(i).first(id), either_case(i));
        assert_eq!(either_case(i).second(id), either_case(i));
        assert_eq!(either_case(i).bimap(id, id), either_case(i));
        assert_eq!(outcome_case(i).first(id), outcome_case(i));
        assert_eq!(outcome_case(i).second(id), outcome_case(i));
        assert_eq!(outcome_case(i).bimap(id, id), outcome_case(i));
    }
    let pair = (7u32, "seven".to_string());
    assert_eq!(pair.clone().first(id), pair);
    assert_eq!(pair.clone().second(id), pair);
    assert_eq!(pair.clone().bimap(id, id), pair);
}

#[test]
fn either_maps_the_case_it_holds_and_no_other() {
    let f = |x: u32| x * 2;
    let g = |s: String| s.len();
    let left: Either<u32, String> = Either::Left(21);
    assert_eq!(left.second(g), Either::Left(21));
    let left: Either<u32, String> = Either::Left(21);
    assert_eq!(left.first(f), Either::Left(42));
    let right: Either<u32, String> = Either::Right("abc".to_string());
    assert_eq!(right.first(f), Either::Right("abc".to_string()));
    let right: Either<u32, String> = Either::Right("abc".to_string());
    assert_eq!(right.second(g), Either::Right(3));
}

#[test]
fn pair_maps_each_component_alone() {
    let f = |a: u32| a + 1;
    let g = |b: &str| b.len();
    assert_eq!((1u32, "two").first(f), (2u32, "two"));
    assert_eq!((1u32, "two").second(g), (1u32, 3usize));
}

#[test]
fn outcome_passes_the_other_case_through() {
    let f = |n: u32| n + 1;
    let g = |e: String| e.len();
    let ok: Result<u32, String> = Ok(1);
    assert_eq!(ok.second(g), Ok(1));
    let ok: Result<u32, String> = Ok(1);
    assert_eq!(ok.first(f), Ok(2));
    let err: Result<u32, String> = Err("bad".to_string());
    assert_eq!(err.first(f), Err("bad".to_string()));
    let err: Result<u32, String> = Err("bad".to_string());
    assert_eq!(err.second(g), Err(3));
}
