//! Ways of combining the outcomes of reading each string of a sequence as an integer.
use vstd::prelude::*;
use crate::parse::{i32_outcome, parse_i32, parse_u8, texts, u8_outcome, ParseIntError};

verus! {

/// Each string read as an `i32`, in order.
pub open spec fn i32_outcomes(v: Seq<Seq<char>>) -> Seq<Result<i32, ParseIntError>> {
    v.map_values(|s: Seq<char>| i32_outcome(s))
}

/// Each string read as a `u8`, in order.
pub open spec fn u8_outcomes(v: Seq<Seq<char>>) -> Seq<Result<u8, ParseIntError>> {
    v.map_values(|s: Seq<char>| u8_outcome(s))
}

/// The values of the successful outcomes, in their order.
pub open spec fn successes<T, E>(rs: Seq<Result<T, E>>) -> Seq<T>
    decreases rs.len(),
{
    if rs.len() == 0 {
        Seq::empty()
    } else {
        match rs.last() {
            Ok(v) => successes(rs.drop_last()).push(v),
            Err(_) => successes(rs.drop_last()),
        }
    }
}

/// The failures of the failed outcomes, in their order.
pub open spec fn failures<T, E>(rs: Seq<Result<T, E>>) -> Seq<E>
    decreases rs.len(),
{
    if rs.len() == 0 {
        Seq::empty()
    } else {
        match rs.last() {
            Ok(_) => failures(rs.drop_last()),
            Err(e) => failures(rs.drop_last()).push(e),
        }
    }
}

/// The successful outcomes themselves, in their order.
pub open spec fn ok_outcomes<T, E>(rs: Seq<Result<T, E>>) -> Seq<Result<T, E>> {
    rs.filter(|r: Result<T, E>| r is Ok)
}

/// The failed outcomes themselves, in their order.
pub open spec fn err_outcomes<T, E>(rs: Seq<Result<T, E>>) -> Seq<Result<T, E>> {
    rs.filter(|r: Result<T, E>| r is Err)
}

/// The failure of the earliest failed outcome, if one failed.
pub open spec fn first_failure<T, E>(rs: Seq<Result<T, E>>) -> Option<E>
    decreases rs.len(),
{
    if rs.len() == 0 {
        None
    } else {
        match rs[0] {
            Err(e) => Some(e),
            Ok(_) => first_failure(rs.drop_first()),
        }
    }
}

/// All the values where every outcome succeeded; otherwise the earliest failure alone.
pub open spec fn fail_fast<T, E>(rs: Seq<Result<T, E>>) -> Result<Seq<T>, E> {
    match first_failure(rs) {
        None => Ok(successes(rs)),
        Some(e) => Err(e),
    }
}

/// Every outcome lands on exactly one side: the successes and the failures
/// together are as many as the outcomes, whether unwrapped or kept whole.
pub proof fn lemma_counts_add_up<T, E>(rs: Seq<Result<T, E>>)
    ensures
        successes(rs).len() + failures(rs).len() == rs.len(),
        ok_outcomes(rs).len() + err_outcomes(rs).len() == rs.len(),
    decreases rs.len(),
{
    reveal(Seq::filter);
    if rs.len() > 0 {
        lemma_counts_add_up(rs.drop_last());
    }
}

/// Re-running an aggregation on the same strings gives identical structures:
/// each aggregation's result is fixed by the strings' contents alone, with no
/// order or state of its own.
pub proof fn lemma_rerun_identical(first: Seq<&str>, second: Seq<&str>)
    requires
        texts(first) == texts(second),
    ensures
        i32_outcomes(texts(first)) == i32_outcomes(texts(second)),
        successes(i32_outcomes(texts(first))) == successes(i32_outcomes(texts(second))),
        successes(u8_outcomes(texts(first))) == successes(u8_outcomes(texts(second))),
        failures(u8_outcomes(texts(first))) == failures(u8_outcomes(texts(second))),
        fail_fast(i32_outcomes(texts(first))) == fail_fast(i32_outcomes(texts(second))),
        ok_outcomes(i32_outcomes(texts(first))) == ok_outcomes(i32_outcomes(texts(second))),
        err_outcomes(i32_outcomes(texts(first))) == err_outcomes(i32_outcomes(texts(second))),
{
}

/// Reads every string as an `i32` and keeps every outcome, in order.
pub fn parse_all(strings: &[&str]) -> (r: Vec<Result<i32, ParseIntError>>)
    ensures
        r@ == i32_outcomes(texts(strings@)),
{
    let ghost outs = i32_outcomes(texts(strings@));
    let mut r: Vec<Result<i32, ParseIntError>> = Vec::new();
    let mut i: usize = 0;
    while i < strings.len()
        invariant
            i <= strings@.len(),
            outs == i32_outcomes(texts(strings@)),
            r@ == outs.take(i as int),
        decreases strings@.len() - i,
    {
        r.push(parse_i32(strings[i]));
        proof {
            assert(outs.take(i + 1) == outs.take(i as int).push(outs[i as int]));
        }
        i = i + 1;
    }
    proof {
        assert(outs.take(i as int) == outs);
    }
    r
}

/// Reads every string as an `i32` and keeps the values that were read, in
/// order; the strings that are no `i32` are passed over.
pub fn parse_successes(strings: &[&str]) -> (r: Vec<i32>)
    ensures
        r@ == successes(i32_outcomes(texts(strings@))),
{
    let ghost outs = i32_outcomes(texts(strings@));
    let mut r: Vec<i32> = Vec::new();
    let mut i: usize = 0;
    while i < strings.len()
        invariant
            i <= strings@.len(),
            outs == i32_outcomes(texts(strings@)),
            r@ == successes(outs.take(i as int)),
        decreases strings@.len() - i,
    {
        let outcome = parse_i32(strings[i]);
        proof {
            assert(outs.take(i + 1).drop_last() == outs.take(i as int));
        }
        if let Ok(v) = outcome {
            r.push(v);
        }
        i = i + 1;
    }
    proof {
        assert(outs.take(i as int) == outs);
    }
    r
}

/// Reads every string as a `u8`, returns the values that were read, in order,
/// and appends each failure to `errors` in the order met.
pub fn parse_u8_collecting_errors(strings: &[&str], errors: &mut Vec<ParseIntError>) -> (r: Vec<u8>)
    ensures
        r@ == successes(u8_outcomes(texts(strings@))),
        final(errors)@ == old(errors)@ + failures(u8_outcomes(texts(strings@))),
        r@.len() + final(errors)@.len() == old(errors)@.len() + strings@.len(),
{
    let ghost outs = u8_outcomes(texts(strings@));
    let mut r: Vec<u8> = Vec::new();
    let mut i: usize = 0;
    while i < strings.len()
        invariant
            i <= strings@.len(),
            outs == u8_outcomes(texts(strings@)),
            r@ == successes(outs.take(i as int)),
            errors@ == old(errors)@ + failures(outs.take(i as int)),
        decreases strings@.len() - i,
    {
        let outcome = parse_u8(strings[i]);
        proof {
            assert(outs.take(i + 1).drop_last() == outs.take(i as int));
        }
        match outcome {
            Ok(v) => r.push(v),
            Err(e) => {
                proof {
                    assert(old(errors)@ + failures(outs.take(i as int)).push(e) =~= (old(errors)@
                        + failures(outs.take(i as int))).push(e));
                }
                errors.push(e);
            },
        }
        i = i + 1;
    }
    proof {
        assert(outs.take(i as int) == outs);
        lemma_counts_add_up(outs);
    }
    r
}

/// Reads every string as an `i32`: all the values if every string is one,
/// otherwise the failure of the first string that is not, and nothing else.
pub fn parse_all_or_first_error(strings: &[&str]) -> (r: Result<Vec<i32>, ParseIntError>)
    ensures
        match r {
            Ok(v) => fail_fast(i32_outcomes(texts(strings@))) == Result::<Seq<i32>, ParseIntError>::Ok(v@),
            Err(e) => fail_fast(i32_outcomes(texts(strings@))) == Result::<Seq<i32>, ParseIntError>::Err(e),
        },
{
    let ghost outs = i32_outcomes(texts(strings@));
    let mut r: Vec<i32> = Vec::new();
    let mut i: usize = 0;
    proof {
        assert(outs.skip(0) == outs);
    }
    while i < strings.len()
        invariant
            i <= strings@.len(),
            outs == i32_outcomes(texts(strings@)),
            r@ == successes(outs.take(i as int)),
            first_failure(outs) == first_failure(outs.skip(i as int)),
            forall|j: int| 0 <= j < i ==> outs[j] is Ok,
        decreases strings@.len() - i,
    {
        let outcome = parse_i32(strings[i]);
        proof {
            assert(outs.take(i + 1).drop_last() == outs.take(i as int));
            assert(outs.skip(i as int)[0] == outs[i as int]);
            assert(outs.skip(i as int).drop_first() == outs.skip(i + 1));
        }
        match outcome {
            Ok(v) => r.push(v),
            Err(e) => return Err(e),
        }
        i = i + 1;
    }
    proof {
        assert(outs.take(i as int) == outs);
        assert(outs.skip(i as int).len() == 0);
    }
    Ok(r)
}

/// Reads every string as an `i32` and sorts the outcomes, kept whole, into the
/// successes and the failures, each in input order.
pub fn partition_outcomes(strings: &[&str]) -> (r: (
    Vec<Result<i32, ParseIntError>>,
    Vec<Result<i32, ParseIntError>>,
))
    ensures
        r.0@ == ok_outcomes(i32_outcomes(texts(strings@))),
        r.1@ == err_outcomes(i32_outcomes(texts(strings@))),
        r.0@.len() + r.1@.len() == strings@.len(),
{
    let ghost outs = i32_outcomes(texts(strings@));
    let mut oks: Vec<Result<i32, ParseIntError>> = Vec::new();
    let mut errs: Vec<Result<i32, ParseIntError>> = Vec::new();
    let mut i: usize = 0;
    while i < strings.len()
        invariant
            i <= strings@.len(),
            outs == i32_outcomes(texts(strings@)),
            oks@ == ok_outcomes(outs.take(i as int)),
            errs@ == err_outcomes(outs.take(i as int)),
        decreases strings@.len() - i,
    {
        let outcome = parse_i32(strings[i]);
        proof {
            reveal(Seq::filter);
            assert(outs.take(i + 1).drop_last() == outs.take(i as int));
        }
        if outcome.is_ok() {
            oks.push(outcome);
        } else {
            errs.push(outcome);
        }
        i = i + 1;
    }
    proof {
        assert(outs.take(i as int) == outs);
        lemma_counts_add_up(outs);
    }
    (oks, errs)
}

} // verus!
