//! Functors: containers whose values can be mapped while the container keeps
//! its shape.
use crate::composition::{composable_at, composed};
use vstd::prelude::*;

verus! {

/// The reader functor maps a function `g` that reads a `V` by composing it
/// with `f`: the result reads a `V` with `g` and hands what it got to `f`.
pub fn reader_functor<T, U, V>(f: impl Fn(T) -> U, g: impl Fn(V) -> T) -> (h: impl FnMut(V) -> U)
    ensures
        forall|v: V| composable_at(g, f, v) ==> #[trigger] call_requires(h, (v,)),
        forall|v: V, u: U| #[trigger] call_ensures(h, (v,), u) ==> composed(g, f, v, u),
{
    move |v: V| -> (u: U)
        requires
            composable_at(g, f, v),
        ensures
            composed(g, f, v, u),
        { f(g(v)) }
}

/// A container of values of one type.
pub trait Container: Sized {
    /// The type of the values in the container.
    type InnerSource;

    /// The values in the container, in order.
    spec fn items(self) -> Seq<Self::InnerSource>;
}

/// `f` accepts every value in `c`.
pub open spec fn all_accepted<C, U, F>(c: C, f: F) -> bool where
    C: Container,
    F: Fn(C::InnerSource) -> U,
 {
    forall|i: int| 0 <= i < c.items().len() ==> call_requires(f, (#[trigger] c.items()[i],))
}

/// `r` holds as many values as `c`, each a value that `f` may return for the
/// value at its place in `c`.
pub open spec fn all_mapped<C, R, F>(c: C, f: F, r: R) -> bool where
    C: Container,
    R: Container,
    F: Fn(C::InnerSource) -> R::InnerSource,
 {
    &&& r.items().len() == c.items().len()
    &&& forall|i: int|
        0 <= i < c.items().len() ==> call_ensures(f, (c.items()[i],), #[trigger] r.items()[i])
}

/// A container whose values can be mapped to values of type `U`.
pub trait Functor<U>: Container {
    /// The same shape of container with values of type `U`.
    type OuterTarget: Container<InnerSource = U>;

    /// Applies `f` to every value in the container.
    fn fmap<F: Fn(Self::InnerSource) -> U>(self, f: F) -> (r: Self::OuterTarget)
        requires
            all_accepted(self, f),
        ensures
            all_mapped(self, f, r),
    ;
}

/// An optional value holds one value or none.
impl<T> Container for Option<T> {
    type InnerSource = T;

    open spec fn items(self) -> Seq<T> {
        match self {
            Some(t) => seq![t],
            None => Seq::empty(),
        }
    }
}

impl<T, U> Functor<U> for Option<T> {
    type OuterTarget = Option<U>;

    /// A present value is replaced by what `f` returns for it; an absent one
    /// stays absent.
    fn fmap<F: Fn(T) -> U>(self, f: F) -> (r: Option<U>)
        ensures
            match self {
                Some(t) => r matches Some(u) && call_ensures(f, (t,), u),
                None => r is None,
            },
    {
        assert(self is Some ==> self.items()[0] == self->0);
        self.map(f)
    }
}

/// Mapping keeps identities: where `f` returns its argument, the mapped
/// container holds the values of the first.
pub proof fn lemma_fmap_identity<C, F>(c: C, f: F, r: C) where
    C: Container,
    F: Fn(C::InnerSource) -> C::InnerSource,

    requires
        all_mapped(c, f, r),
        forall|a: C::InnerSource, b: C::InnerSource| call_ensures(f, (a,), b) ==> b == a,
    ensures
        r.items() == c.items(),
{
}

/// Mapping keeps composition: mapping with `f` and then with `g` gives, at
/// each place, a value of `g` after `f` for the value that was there.
pub proof fn lemma_fmap_composition<C, M, R, F, G>(c: C, f: F, g: G, m: M, r: R) where
    C: Container,
    M: Container,
    R: Container,
    F: Fn(C::InnerSource) -> M::InnerSource,
    G: Fn(M::InnerSource) -> R::InnerSource,

    requires
        all_mapped(c, f, m),
        all_mapped(m, g, r),
    ensures
        r.items().len() == c.items().len(),
        forall|i: int|
            0 <= i < c.items().len() ==> composed(f, g, c.items()[i], #[trigger] r.items()[i]),
{
    assert forall|i: int| 0 <= i < c.items().len() implies composed(
        f,
        g,
        c.items()[i],
        #[trigger] r.items()[i],
    ) by {
        assert(call_ensures(f, (c.items()[i],), m.items()[i]));
    }
}

} // verus!
