//! A natural transformation from lists to optional values.
use crate::bifunctor::slot_image;
use vstd::prelude::*;

verus! {

/// The first value of a list, if it has one.
pub open spec fn head<T>(s: Seq<T>) -> Option<T> {
    if s.len() > 0 {
        Some(s[0])
    } else {
        None
    }
}

/// A clone of the first value of `xs`, or nothing where `xs` is empty.
pub fn safe_head<T: Clone>(xs: &[T]) -> (r: Option<T>)
    ensures
        match head(xs@) {
            Some(x) => r matches Some(y) && cloned(x, y),
            None => r is None,
        },
{
    xs.first().cloned()
}

/// Taking the head is natural: it makes no difference whether a function is
/// applied to every value of the list before the head is taken, or to the
/// head after.
pub proof fn lemma_head_is_natural<T, U>(s: Seq<T>, f: spec_fn(T) -> U)
    ensures
        head(s.map_values(f)) == slot_image(head(s), f),
{
}

} // verus!
