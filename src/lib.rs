//! Failure values, their cause chains, and the ways of combining the
//! outcomes of a fallible parse over a sequence of strings.

pub mod aggregate;
pub mod boxed_error;
pub mod double;
pub mod early_return;
pub mod failure;
pub mod marker_error;
pub mod parse;
pub mod wrapped_error;
