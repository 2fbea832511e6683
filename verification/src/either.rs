//! The coproduct of two types.
use vstd::prelude::*;

verus! {

/// A value of one of two types: either a left value or a right value.
#[derive(Debug, PartialEq)]
pub enum Either<T, U> {
    Left(T),
    Right(U),
}

} // verus!
