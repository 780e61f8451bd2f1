//! Doubling the first element with failures erased, written with early returns
//! that convert each failure where it leaves the function.
use vstd::prelude::*;
use crate::boxed_error::{erased_doubling, EmptyVec};
use crate::double::{doubling_fits, lemma_sample_outcomes};
use crate::failure::{DynamicError, Failure};
use crate::parse::{parse_i32, texts, IntErrorKind, ParseIntError};

verus! {

/// Twice the first string of `vec` read as an `i32`; the first failure met is
/// converted and returned at once.
pub fn double_first(vec: Vec<&str>) -> (r: Result<i32, DynamicError>)
    requires
        doubling_fits(texts(vec@)),
    ensures
        erased_doubling(texts(vec@), r),
{
    let first = match vec.first() {
        Some(s) => s,
        None => return Err(DynamicError::wrap(EmptyVec)),
    };
    let parsed = match parse_i32(first) {
        Ok(n) => n,
        Err(e) => return Err(DynamicError::wrap(e)),
    };
    Ok(parsed * 2)
}

/// Early returns and explicit branching give the same outcome: whatever both ways of
/// doubling the first element return on the same strings carries the same value
/// or the same chain of messages.
pub proof fn lemma_same_as_branching(
    v: Seq<Seq<char>>,
    r1: Result<i32, DynamicError>,
    r2: Result<i32, DynamicError>,
)
    requires
        erased_doubling(v, r1),
        erased_doubling(v, r2),
    ensures
        r1 is Ok <==> r2 is Ok,
        r1 matches Ok(a) ==> r2 matches Ok(b) && a == b,
        r1 matches Err(a) ==> r2 matches Err(b) && a@ == b@,
{
}

/// Runs the strategy on a list of numbers, on an empty list, and on a list
/// whose first string is no number.
pub fn test() -> (r: (Result<i32, DynamicError>, Result<i32, DynamicError>, Result<i32, DynamicError>))
    ensures
        r.0 matches Ok(n) && n == 84,
        r.1 matches Err(d) && d@ == seq![EmptyVec.text()],
        r.2 matches Err(d) && d@ == seq![ParseIntError { kind: IntErrorKind::InvalidDigit }.text()],
{
    let numbers = vec!["42", "93", "18"];
    let empty: Vec<&str> = vec![];
    let strings = vec!["tofu", "93", "18"];
    proof {
        lemma_sample_outcomes();
    }
    (double_first(numbers), double_first(empty), double_first(strings))
}

} // verus!
