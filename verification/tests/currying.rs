use category::currying::{curry, curry_once, uncurry, uncurry_once};

fn count_char(s: &str, c: char) -> usize {
    s.chars().filter(|ch| ch == &c).count()
}

#[test]
fn ch9_test_curry() {
    let add = |x: u32, y: u32| x + y;
    let curried_add = curry(add, 1);
    assert_eq!(curried_add(2), add(1, 2));

    let add = |x: &str, y: &str| x.to_string() + y;
    let curried_add = curry(add, "Hello");
    assert_eq!(curried_add(", World!"), add("Hello", ", World!"));

    let curried_count_char = curry(count_char, "element");
    assert_eq!(curried_count_char('e'), count_char("element", 'e'));
}

#[test]
fn ch9_test_uncurry() {
    let add = |x: u32, y: u32| x + y;
    let uncurried_add = uncurry(add);
    assert_eq!(uncurried_add((1, 2)), add(1, 2));

    let add = |x: &str, y: &str| x.to_string() + y;
    let uncurried_add = uncurry(add);
    assert_eq!(
        uncurried_add(("Hello", ", World!")),
        "Hello, World!".to_string()
    );

    let uncurried_count_char = uncurry(count_char);
    assert_eq!(
        uncurried_count_char(("element", 'e')),
        count_char("element", 'e')
    );
}

#[test]
fn currying_alt_test_curry() {
    let add = |x: u32, y: u32| x + y;
    let curried_add = curry(add, 1);
    assert_eq!(curried_add(2), add(1, 2));

    let add = |x: &str, y: &str| x.to_string() + y;
    let curried_add = curry(add, "Hello");
    assert_eq!(curried_add(", World!"), add("Hello", ", World!"));

    let curried_count_char = curry(count_char, "element");
    assert_eq!(curried_count_char('e'), count_char("element", 'e'));
}

#[test]
fn test_curry_once() {
    let add = |x: u32, y: u32| x + y;
    let curried_add = curry_once(add, 1);
    assert_eq!(curried_add(2), add(1, 2));

    let add = |x: &str, y: &str| x.to_string() + y;
    let curried_add = curry_once(add, "Hello");
    assert_eq!(curried_add(", World!"), add("Hello", ", World!"));

    let curried_count_char = curry_once(count_char, "element");
    assert_eq!(curried_count_char('e'), count_char("element", 'e'));
}

#[test]
fn currying_alt_test_uncurry() {
    let add = |x: u32, y: u32| x + y;
    let uncurried_add = uncurry(add);
    assert_eq!(uncurried_add((1, 2)), add(1, 2));

    let add = |x: &str, y: &str| x.to_string() + y;
    let uncurried_add = uncurry(add);
    assert_eq!(
        uncurried_add(("Hello", ", World!")),
        "Hello, World!".to_string()
    );

    let uncurried_count_char = uncurry(count_char);
    assert_eq!(
        uncurried_count_char(("element", 'e')),
        count_char("element", 'e')
    );
}

#[test]
fn test_uncurry_once() {
    let add = |x: u32, y: u32| x + y;
    let uncurried_add = uncurry_once(add);
    assert_eq!(uncurried_add((1, 2)), add(1, 2));

    let add = |x: &str, y: &str| x.to_string() + y;
    let uncurried_add = uncurry_once(add);
    assert_eq!(
        uncurried_add(("Hello", ", World!")),
        "Hello, World!".to_string()
    );

    let uncurried_count_char = uncurry_once(count_char);
    assert_eq!(
        uncurried_count_char(("element", 'e')),
        count_char("element", 'e')
    );
}

#[test]
fn curry_can_be_called_more_than_once() {
    let join = |x: String, y: u32| format!("{x}{y}");
    let numbered = curry(join, "n".to_string());
    assert_eq!(numbered(1), "n1");
    assert_eq!(numbered(2), "n2");
}

#[test]
fn curry_once_moves_its_argument() {
    let join = |x: String, y: String| x + &y;
    let greet = curry_once(join, "Hello".to_string());
    assert_eq!(greet(", World!".to_string()), "Hello, World!");
}

#[test]
fn uncurry_undoes_curry() {
    let sub = |x: u32, y: u32| x - y;
    let pairwise = uncurry(sub);
    for (x, y) in [(5u32, 3u32), (9, 9), (7, 0)] {
        assert_eq!(curry(sub, x)(y), pairwise((x, y)));
    }
}
