//! Small verified building blocks of category theory for programmers:
//! identity and composition, memoization, monoids, Kleisli composition,
//! sums and products, functors, bifunctors, currying and a natural
//! transformation.
//!
//! Executable functions are described by the two relations that Verus keeps
//! for every function value: `call_requires(f, args)` (the call is allowed)
//! and `call_ensures(f, args, out)` (`out` is a value the call may return).
//! A higher-order function of this crate says what its result accepts and
//! returns in terms of what its arguments accept and return.
pub mod bifunctor;
pub mod boolean;
pub mod composition;
pub mod currying;
pub mod either;
pub mod functor;
pub mod kleisli;
pub mod memo;
pub mod monoid;
pub mod natural;
