use category::memo::{memoized, Memoizer};
use std::cell::Cell;
use std::collections::HashMap;
use std::rc::Rc;

fn gen_fib_nums_to_ten() -> HashMap<u32, u32> {
    HashMap::from([
        (0, 0),
        (1, 1),
        (2, 1),
        (3, 2),
        (4, 3),
        (5, 5),
        (6, 8),
        (7, 13),
        (8, 21),
        (9, 34),
        (10, 55),
    ])
}

fn fib(n: u32) -> u32 {
    match n {
        0 | 1 => n,
        _ => fib(n - 1) + fib(n - 2),
    }
}

#[test]
fn ch2_test_fibonacci_correctness() {
    let mut fib_memoized = Memoizer::new(fib);
    assert_eq!(8, fib_memoized.call(6));
}

#[test]
fn test_memoized_fibonacci_store() {
    let mut fib_memoized = Memoizer::new(fib);

    for i in 0..=10 {
        fib_memoized.call(i);
    }

    assert_eq!(fib_memoized.store, gen_fib_nums_to_ten());
}

#[test]
fn memoize_alt_test_fibonacci_correctness() {
    let mut fib_memoized = memoized(fib);
    assert_eq!(8, fib_memoized.call(6));
}

#[test]
fn memoizer_starts_with_an_empty_store() {
    let m = Memoizer::new(fib);
    assert!(m.store.is_empty());
}

#[test]
fn memoizer_returns_the_stored_value_on_a_second_call() {
    let calls = Rc::new(Cell::new(0u32));
    let seen = calls.clone();
    let mut m = Memoizer::new(move |x: u32| {
        seen.set(seen.get() + 1);
        x + seen.get()
    });
    assert_eq!(m.call(10), 11);
    assert_eq!(m.call(10), 11);
    assert_eq!(m.store.len(), 1);
    assert_eq!(m.store.get(&10), Some(&11));
    assert_eq!(calls.get(), 2);
}

#[test]
fn memoized_calls_the_function_once_for_each_argument() {
    let calls = Rc::new(Cell::new(0u32));
    let seen = calls.clone();
    let mut m = memoized(move |x: u32| {
        seen.set(seen.get() + 1);
        x * 2
    });
    assert_eq!(m.call(4), 8);
    assert_eq!(m.call(4), 8);
    assert_eq!(m.call(5), 10);
    assert_eq!(m.call(4), 8);
    assert_eq!(calls.get(), 2);
}

#[test]
fn memoized_keeps_the_first_result() {
    let calls = Rc::new(Cell::new(0u32));
    let seen = calls.clone();
    let mut m = memoized(move |x: u32| {
        seen.set(seen.get() + 1);
        x + seen.get()
    });
    assert_eq!(m.call(1), 2);
    assert_eq!(m.call(2), 4);
    assert_eq!(m.call(1), 2);
}

#[test]
fn memoized_works_with_string_keys() {
    let mut m = memoized(|s: String| s.len());
    assert_eq!(m.call("hello".to_string()), 5);
    assert_eq!(m.call("hello".to_string()), 5);
    assert_eq!(m.call(String::new()), 0);
}
