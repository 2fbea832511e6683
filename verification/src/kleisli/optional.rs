//! Composition of partial functions, whose result may be absent.
use vstd::prelude::*;

verus! {

/// `g` can follow `f` on `x`: `f` accepts `x`, and `g` accepts every value
/// that `f` may produce for it.
pub open spec fn composable_at<F, G, T, U>(f: F, g: G, x: T) -> bool where
    F: Fn(T) -> Option<U>,
    G: Fn(U) -> Option<U>,
 {
    &&& call_requires(f, (x,))
    &&& forall|y: U| call_ensures(f, (x,), Some(y)) ==> call_requires(g, (y,))
}

/// `r` is a result of `f` followed by `g` on `x`: nothing where `f` may give
/// nothing, and otherwise what `g` may return for a value that `f` may give.
pub open spec fn composed<F, G, T, U>(f: F, g: G, x: T, r: Option<U>) -> bool where
    F: Fn(T) -> Option<U>,
    G: Fn(U) -> Option<U>,
 {
    exists|o: Option<U>|
        call_ensures(f, (x,), o) && match o {
            Some(y) => call_ensures(g, (y,), r),
            None => r is None,
        }
}

/// The identity of the category: the total function that always succeeds
/// with its argument.
pub fn identity_morphism<T>(v: T) -> (r: Option<T>)
    ensures
        r == Some(v),
{
    Some(v)
}

/// `g` after `f`, where either may give nothing: the composite gives nothing
/// as soon as one of them does.
pub fn compose<T, U>(f: impl Fn(T) -> Option<U>, g: impl Fn(U) -> Option<U>) -> (h: impl Fn(
    T,
) -> Option<U>)
    ensures
        forall|x: T| composable_at(f, g, x) ==> #[trigger] call_requires(h, (x,)),
        forall|x: T, r: Option<U>| #[trigger] call_ensures(h, (x,), r) ==> composed(f, g, x, r),
{
    move |x: T| -> (r: Option<U>)
        requires
            composable_at(f, g, x),
        ensures
            composed(f, g, x, r),
        {
            match f(x) {
                Some(y) => g(y),
                None => None,
            }
        }
}

/// The identity morphism is a unit of composition on both sides: composed
/// with `f` it can be called wherever `f` can, and returns only what `f`
/// returns.
pub proof fn lemma_identity_morphism_is_unit<F, T>(f: F, x: T, r: Option<T>) where
    F: Fn(T) -> Option<T>,

    ensures
        call_requires(f, (x,)) ==> composable_at(identity_morphism::<T>, f, x),
        call_requires(f, (x,)) ==> composable_at(f, identity_morphism::<T>, x),
        composed(identity_morphism::<T>, f, x, r) ==> call_ensures(f, (x,), r),
        composed(f, identity_morphism::<T>, x, r) ==> call_ensures(f, (x,), r),
{
}

} // verus!
