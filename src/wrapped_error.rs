//! Doubling the first element, where failures are the variants of a closed enum,
//! one of which wraps the parse failure that caused it.
use vstd::prelude::*;
use vstd::string::*;
use crate::double::{doubling_fits, first_outcome, lemma_sample_outcomes};
use crate::failure::{DynamicError, Failure};
use crate::parse::{parse_i32, texts, IntErrorKind, ParseIntError};

verus! {

/// What went wrong while doubling the first element.
#[derive(Clone, Copy, Debug, PartialEq, Eq, Structural)]
pub enum DoubleError {
    /// The list has no first item.
    EmptyVec,
    /// The first item is no integer; the parse failure says why.
    Parse(ParseIntError),
}

impl Failure for DoubleError {
    open spec fn text(&self) -> Seq<char> {
        match self {
            DoubleError::EmptyVec => "please use a vector with at least one element"@,
            DoubleError::Parse(_) => "the provided string could not be parsed as int"@,
        }
    }

    open spec fn causes(&self) -> Seq<Seq<char>> {
        match self {
            DoubleError::EmptyVec => Seq::empty(),
            DoubleError::Parse(e) => seq![e.text()],
        }
    }

    fn message(&self) -> (r: String) {
        match self {
            DoubleError::EmptyVec => String::from_str("please use a vector with at least one element"),
            DoubleError::Parse(_) => String::from_str("the provided string could not be parsed as int"),
        }
    }

    fn source(&self) -> (r: Option<DynamicError>) {
        match self {
            DoubleError::EmptyVec => None,
            DoubleError::Parse(e) => Some(DynamicError::wrap(*e)),
        }
    }
}

impl From<ParseIntError> for DoubleError {
    fn from(value: ParseIntError) -> (r: DoubleError)
        ensures
            r == DoubleError::Parse(value),
    {
        DoubleError::Parse(value)
    }
}

impl vstd::std_specs::convert::FromSpecImpl<ParseIntError> for DoubleError {
    open spec fn obeys_from_spec() -> bool {
        true
    }

    open spec fn from_spec(v: ParseIntError) -> DoubleError {
        DoubleError::Parse(v)
    }
}

/// Twice the first string of `vec` read as an `i32`; a parse failure is converted
/// into the variant that wraps it.
pub fn double_first(vec: Vec<&str>) -> (r: Result<i32, DoubleError>)
    requires
        doubling_fits(texts(vec@)),
    ensures
        r == match first_outcome(texts(vec@)) {
            None => Err(DoubleError::EmptyVec),
            Some(Err(e)) => Err(DoubleError::Parse(e)),
            Some(Ok(n)) => Ok((2 * n) as i32),
        },
{
    let first = match vec.first() {
        Some(s) => s,
        None => return Err(DoubleError::EmptyVec),
    };
    let parsed = match parse_i32(first) {
        Ok(n) => n,
        Err(e) => return Err(DoubleError::from(e)),
    };
    Ok(parsed * 2)
}

/// Walking the causes of a `DoubleError` ends within one step: it has at most one
/// cause, and the cause that `source` hands out (`d`) has none of its own, so
/// `cause` on it returns `None`.
pub proof fn lemma_cause_chain_ends(e: DoubleError, d: DynamicError)
    requires
        d@ == e.causes(),
    ensures
        e.causes().len() <= 1,
        d@.len() == 1,
{
    d.lemma_chain_not_empty();
}

/// Runs the strategy on a list of numbers, on an empty list, and on a list
/// whose first string is no number.
pub fn test() -> (r: (Result<i32, DoubleError>, Result<i32, DoubleError>, Result<i32, DoubleError>))
    ensures
        r.0 == Result::<i32, DoubleError>::Ok(84),
        r.1 == Result::<i32, DoubleError>::Err(DoubleError::EmptyVec),
        r.2 == Result::<i32, DoubleError>::Err(
            DoubleError::Parse(ParseIntError { kind: IntErrorKind::InvalidDigit }),
        ),
{
    let numbers = vec!["42", "93", "18"];
    let empty: Vec<&str> = vec![];
    let strings = vec!["tofu", "93", "18"];
    proof {
        lemma_sample_outcomes();
    }
    (double_first(numbers), double_first(empty), double_first(strings))
}

} // verus!
