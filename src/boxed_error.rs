//! Doubling the first element, where every failure is erased into a `DynamicError`
//! and each failure is handled where it is met, branch by branch.
use vstd::prelude::*;
use vstd::string::*;
use crate::double::{doubling_fits, first_outcome, lemma_sample_outcomes};
use crate::failure::{DynamicError, Failure};
use crate::parse::{parse_i32, texts, IntErrorKind, ParseIntError};

verus! {

/// The failure of a list that has no first item.
#[derive(Clone, Copy, Debug, PartialEq, Eq, Structural)]
pub struct EmptyVec;

impl Failure for EmptyVec {
    open spec fn text(&self) -> Seq<char> {
        "invalid first item to double"@
    }

    open spec fn causes(&self) -> Seq<Seq<char>> {
        Seq::empty()
    }

    fn message(&self) -> (r: String) {
        String::from_str("invalid first item to double")
    }

    fn source(&self) -> (r: Option<DynamicError>) {
        None
    }
}

/// What doubling the first string of `v` gives where failures are erased: twice
/// its value, or a failure that carries the message of the empty list or that of
/// the parse failure, with no cause below it.
pub open spec fn erased_doubling(v: Seq<Seq<char>>, r: Result<i32, DynamicError>) -> bool {
    match first_outcome(v) {
        None => r matches Err(d) && d@ == seq![EmptyVec.text()],
        Some(Err(e)) => r matches Err(d) && d@ == seq![e.text()],
        Some(Ok(n)) => r matches Ok(m) && m == 2 * n,
    }
}

/// Twice the first string of `vec` read as an `i32`; a failure keeps its message.
pub fn double_first(vec: Vec<&str>) -> (r: Result<i32, DynamicError>)
    requires
        doubling_fits(texts(vec@)),
    ensures
        erased_doubling(texts(vec@), r),
{
    match vec.first() {
        None => Err(DynamicError::wrap(EmptyVec)),
        Some(s) => match parse_i32(s) {
            Ok(i) => Ok(i * 2),
            Err(e) => Err(DynamicError::wrap(e)),
        },
    }
}

/// Runs the strategy on a list of numbers, on an empty list, and on a list
/// whose first string is no number.
pub fn test() -> (r: (Result<i32, DynamicError>, Result<i32, DynamicError>, Result<i32, DynamicError>))
    ensures
        r.0 matches Ok(n) && n == 84,
        r.1 matches Err(d) && d@ == seq![EmptyVec.text()],
        r.2 matches Err(d) && d@ == seq![ParseIntError { kind: IntErrorKind::InvalidDigit }.text()],
{
    let numbers = vec!["42", "93", "18"];
    let empty: Vec<&str> = vec![];
    let strings = vec!["tofu", "93", "18"];
    proof {
        lemma_sample_outcomes();
    }
    (double_first(numbers), double_first(empty), double_first(strings))
}

} // verus!
