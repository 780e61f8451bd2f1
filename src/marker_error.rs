//! Doubling the first element, where every failure is one marker that carries nothing.
use vstd::prelude::*;
use vstd::string::*;
use crate::double::{doubling_fits, first_outcome, lemma_sample_outcomes};
use crate::failure::{DynamicError, Failure};
use crate::parse::{parse_i32, texts};

verus! {

/// The one failure of this strategy: something was wrong with the first item.
#[derive(Clone, Copy, Debug, PartialEq, Eq, Structural)]
pub struct DoubleError;

impl Failure for DoubleError {
    open spec fn text(&self) -> Seq<char> {
        "invalid first item to double"@
    }

    open spec fn causes(&self) -> Seq<Seq<char>> {
        Seq::empty()
    }

    fn message(&self) -> (r: String) {
        String::from_str("invalid first item to double")
    }

    fn source(&self) -> (r: Option<DynamicError>) {
        None
    }
}

/// Twice the first string of `vec` read as an `i32`; any failure becomes the marker.
pub fn double_first(vec: Vec<&str>) -> (r: Result<i32, DoubleError>)
    requires
        doubling_fits(texts(vec@)),
    ensures
        r == match first_outcome(texts(vec@)) {
            Some(Ok(n)) => Ok((2 * n) as i32),
            _ => Err(DoubleError),
        },
{
    match vec.first() {
        None => Err(DoubleError),
        Some(s) => match parse_i32(s) {
            Ok(i) => Ok(i * 2),
            Err(_) => Err(DoubleError),
        },
    }
}

/// Runs the strategy on a list of numbers, on an empty list, and on a list
/// whose first string is no number.
pub fn test() -> (r: (Result<i32, DoubleError>, Result<i32, DoubleError>, Result<i32, DoubleError>))
    ensures
        r.0 == Result::<i32, DoubleError>::Ok(84),
        r.1 == Result::<i32, DoubleError>::Err(DoubleError),
        r.2 == Result::<i32, DoubleError>::Err(DoubleError),
{
    let numbers = vec!["42", "93", "18"];
    let empty: Vec<&str> = vec![];
    let strings = vec!["tofu", "93", "18"];
    proof {
        lemma_sample_outcomes();
    }
    (double_first(numbers), double_first(empty), double_first(strings))
}

} // verus!
