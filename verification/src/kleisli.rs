//! Kleisli categories: composition of functions that return an embellished
//! result, either a value that may be absent or a value with a log.
pub mod optional;
pub mod writer;
