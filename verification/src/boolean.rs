//! The functions from `bool` to `bool`.
use vstd::prelude::*;

verus! {

/// Returns its argument.
pub fn id_bool(b: bool) -> (r: bool)
    ensures
        r == b,
{
    b
}

/// Returns the opposite of its argument.
pub fn negate(b: bool) -> (r: bool)
    ensures
        r == !b,
{
    !b
}

/// Returns `true`, whatever the argument.
pub fn always_true(_b: bool) -> (r: bool)
    ensures
        r,
{
    true
}

/// Returns `false`, whatever the argument.
pub fn always_false(_b: bool) -> (r: bool)
    ensures
        !r,
{
    false
}

/// There are no other total functions from `bool` to `bool`: each one is the
/// identity, the negation, constantly true or constantly false.
pub proof fn lemma_four_functions(f: spec_fn(bool) -> bool)
    ensures
        (forall|b: bool| #[trigger] f(b) == b) || (forall|b: bool| #[trigger] f(b) == !b) || (
        forall|b: bool| #[trigger] f(b)) || (forall|b: bool| !#[trigger] f(b)),
{
    assert forall|b: bool| #[trigger] f(b) == (if b {
        f(true)
    } else {
        f(false)
    }) by {}
}

} // verus!
