//! Currying: a function of a pair is as good as a function that takes the
//! first part and returns a function of the second.
use vstd::prelude::*;

verus! {

/// `f` accepts `u` together with every clone of `t`.
pub open spec fn curried_accepts<T: Clone, U, V, F: Fn(T, U) -> V>(f: F, t: T, u: U) -> bool {
    forall|c: T| cloned(t, c) ==> call_requires(f, (c, u))
}

/// `v` is what `f` may return for `u` together with some clone of `t`.
pub open spec fn curried_returns<T: Clone, U, V, F: Fn(T, U) -> V>(
    f: F,
    t: T,
    u: U,
    v: V,
) -> bool {
    exists|c: T| cloned(t, c) && call_ensures(f, (c, u), v)
}

/// Fixes the first argument of `f` to `t`. At each call the result hands `f`
/// a clone of `t` and its own argument. The function `f` is moved into the
/// result as it is.
pub fn curry<T: Clone, U, V, F: Fn(T, U) -> V>(f: F, t: T) -> (h: impl Fn(U) -> V)
    ensures
        forall|u: U| curried_accepts(f, t, u) ==> #[trigger] call_requires(h, (u,)),
        forall|u: U, v: V| #[trigger] call_ensures(h, (u,), v) ==> curried_returns(f, t, u, v),
{
    move |u: U| -> (v: V)
        requires
            curried_accepts(f, t, u),
        ensures
            curried_returns(f, t, u, v),
        {
            let c = t.clone();
            assert(cloned(t, c));
            f(c, u)
        }
}

/// Fixes the first argument of `f` to `t`, for one call: the result hands `f`
/// the value `t` itself and its own argument.
pub fn curry_once<T, U, V, F: FnOnce(T, U) -> V>(f: F, t: T) -> (h: impl FnOnce(U) -> V)
    ensures
        forall|u: U| call_requires(f, (t, u)) ==> #[trigger] call_requires(h, (u,)),
        forall|u: U, v: V| #[trigger] call_ensures(h, (u,), v) ==> call_ensures(f, (t, u), v),
{
    move |u: U| -> (v: V)
        requires
            call_requires(f, (t, u)),
        ensures
            call_ensures(f, (t, u), v),
        { f(t, u) }
}

/// Turns `f` into a function of one pair: the result hands `f` the two parts
/// of its argument.
pub fn uncurry<T, U, V, F: Fn(T, U) -> V>(f: F) -> (h: impl Fn((T, U)) -> V)
    ensures
        forall|p: (T, U)| call_requires(f, (p.0, p.1)) ==> #[trigger] call_requires(h, (p,)),
        forall|p: (T, U), v: V| #[trigger]
            call_ensures(h, (p,), v) ==> call_ensures(f, (p.0, p.1), v),
{
    move |p: (T, U)| -> (v: V)
        requires
            call_requires(f, (p.0, p.1)),
        ensures
            call_ensures(f, (p.0, p.1), v),
        { f(p.0, p.1) }
}

/// Turns `f` into a function of one pair, for one call.
pub fn uncurry_once<T, U, V, F: FnOnce(T, U) -> V>(f: F) -> (h: impl FnOnce((T, U)) -> V)
    ensures
        forall|p: (T, U)| call_requires(f, (p.0, p.1)) ==> #[trigger] call_requires(h, (p,)),
        forall|p: (T, U), v: V| #[trigger]
            call_ensures(h, (p,), v) ==> call_ensures(f, (p.0, p.1), v),
{
    move |p: (T, U)| -> (v: V)
        requires
            call_requires(f, (p.0, p.1)),
        ensures
            call_ensures(f, (p.0, p.1), v),
        { f(p.0, p.1) }
}

} // verus!
