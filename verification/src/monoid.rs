//! Monoids: a neutral value and an associative way to combine two values.
use vstd::prelude::*;

verus! {

/// A monoid on the values of `T`. The executable operations work on machine
/// values, so `combinable` says which pairs can be combined at all.
pub trait Monoid<T> {
    /// The neutral value.
    spec fn unit() -> T;

    /// The combination of two values.
    spec fn combine(a: T, b: T) -> T;

    /// The combination of `a` and `b` is a value of `T`.
    spec fn combinable(a: T, b: T) -> bool;

    /// The neutral value can be combined with every value, on either side,
    /// and changes nothing.
    proof fn lemma_unit(a: T)
        ensures
            Self::combinable(Self::unit(), a),
            Self::combinable(a, Self::unit()),
            Self::combine(Self::unit(), a) == a,
            Self::combine(a, Self::unit()) == a,
    ;

    /// Combination is associative wherever both groupings can be formed.
    proof fn lemma_associative(a: T, b: T, c: T)
        requires
            Self::combinable(a, b),
            Self::combinable(Self::combine(a, b), c),
            Self::combinable(b, c),
            Self::combinable(a, Self::combine(b, c)),
        ensures
            Self::combine(Self::combine(a, b), c) == Self::combine(a, Self::combine(b, c)),
    ;

    /// The neutral value, whatever `v` is.
    fn mempty(v: T) -> (r: T)
        ensures
            r == Self::unit(),
    ;

    /// The combination of `v1` and `v2`.
    fn mappend(v1: T, v2: T) -> (r: T)
        requires
            Self::combinable(v1, v2),
        ensures
            r == Self::combine(v1, v2),
    ;
}

/// The monoid of addition.
pub struct AddM<T>(pub T, pub T);

/// Unsigned 32-bit integers under addition, with 0 as the neutral value. Two
/// numbers can be combined where their sum is a 32-bit integer.
impl Monoid<u32> for AddM<u32> {
    open spec fn unit() -> u32 {
        0
    }

    open spec fn combine(a: u32, b: u32) -> u32 {
        (a + b) as u32
    }

    open spec fn combinable(a: u32, b: u32) -> bool {
        a + b <= u32::MAX
    }

    proof fn lemma_unit(a: u32) {
    }

    proof fn lemma_associative(a: u32, b: u32, c: u32) {
    }

    fn mempty(v: u32) -> (r: u32) {
        0
    }

    fn mappend(v1: u32, v2: u32) -> (r: u32)
        ensures
            r == v1 + v2,
    {
        v1 + v2
    }
}

} // verus!
