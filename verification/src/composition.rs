//! The two ingredients of a category of functions: identity and composition.
use vstd::prelude::*;

verus! {

/// `g` can follow `f` on `x`: `f` accepts `x`, and `g` accepts every value
/// that `f` may return for it.
pub open spec fn composable_at<F, G, T, U, V>(f: F, g: G, x: T) -> bool where
    F: Fn(T) -> U,
    G: Fn(U) -> V,
 {
    &&& call_requires(f, (x,))
    &&& forall|y: U| call_ensures(f, (x,), y) ==> call_requires(g, (y,))
}

/// `z` is what `g` may return for some value that `f` may return for `x`.
pub open spec fn composed<F, G, T, U, V>(f: F, g: G, x: T, z: V) -> bool where
    F: Fn(T) -> U,
    G: Fn(U) -> V,
 {
    exists|y: U| call_ensures(f, (x,), y) && call_ensures(g, (y,), z)
}

/// The identity function.
pub fn id<T>(x: T) -> (r: T)
    ensures
        r == x,
{
    x
}

/// `g` after `f`: the function that hands its argument to `f` and the result
/// of that to `g`.
pub fn compose<F, G, T, U, V>(f: F, g: G) -> (h: impl Fn(T) -> V) where
    F: Fn(T) -> U,
    G: Fn(U) -> V,

    ensures
        forall|x: T| composable_at(f, g, x) ==> #[trigger] call_requires(h, (x,)),
        forall|x: T, z: V| #[trigger] call_ensures(h, (x,), z) ==> composed(f, g, x, z),
{
    move |arg: T| -> (z: V)
        requires
            composable_at(f, g, arg),
        ensures
            composed(f, g, arg, z),
        { g(f(arg)) }
}

/// Identity is a left unit of composition: `compose(id, f)` can be called
/// wherever `f` can, and returns only what `f` returns.
pub proof fn lemma_compose_id_left<F, T, V>(f: F, x: T, z: V) where F: Fn(T) -> V
    ensures
        call_requires(f, (x,)) ==> composable_at(id::<T>, f, x),
        composed(id::<T>, f, x, z) ==> call_ensures(f, (x,), z),
{
}

/// Identity is a right unit of composition: `compose(f, id)` can be called
/// wherever `f` can, and returns only what `f` returns.
pub proof fn lemma_compose_id_right<F, T, V>(f: F, x: T, z: V) where F: Fn(T) -> V
    ensures
        call_requires(f, (x,)) ==> composable_at(f, id::<V>, x),
        composed(f, id::<V>, x, z) ==> call_ensures(f, (x,), z),
{
}

/// Composition is associative: going through `f`, then `g`, then `h` gives
/// the same results whichever pair is composed first.
pub proof fn lemma_compose_associative<F, G, H, A, B, C, D>(f: F, g: G, h: H, x: A, z: D) where
    F: Fn(A) -> B,
    G: Fn(B) -> C,
    H: Fn(C) -> D,

    ensures
        (exists|c: C| composed(f, g, x, c) && call_ensures(h, (c,), z)) <==> (exists|b: B|
            call_ensures(f, (x,), b) && composed(g, h, b, z)),
{
    if exists|c: C| composed(f, g, x, c) && call_ensures(h, (c,), z) {
        let c = choose|c: C| composed(f, g, x, c) && call_ensures(h, (c,), z);
        let b = choose|b: B| call_ensures(f, (x,), b) && call_ensures(g, (b,), c);
        assert(call_ensures(f, (x,), b) && composed(g, h, b, z));
    }
    if exists|b: B| call_ensures(f, (x,), b) && composed(g, h, b, z) {
        let b = choose|b: B| call_ensures(f, (x,), b) && composed(g, h, b, z);
        let c = choose|c: C| call_ensures(g, (b,), c) && call_ensures(h, (c,), z);
        assert(composed(f, g, x, c) && call_ensures(h, (c,), z));
    }
}

} // verus!
