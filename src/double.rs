//! What every strategy of doubling the first element agrees on.
use vstd::prelude::*;
use crate::parse::{i32_outcome, parse_int, read_digits, IntErrorKind, ParseIntError};

verus! {

/// The first string of `v` read as an `i32`, where `v` has a first string.
pub open spec fn first_outcome(v: Seq<Seq<char>>) -> Option<Result<i32, ParseIntError>> {
    if v.len() == 0 {
        None
    } else {
        Some(i32_outcome(v[0]))
    }
}

/// Where the first string reads as an `i32`, twice its value is an `i32` too.
pub open spec fn doubling_fits(v: Seq<Seq<char>>) -> bool {
    first_outcome(v) matches Some(Ok(n)) ==> i32::MIN <= 2 * n <= i32::MAX
}

/// How the strings that the demonstrations start from read as `i32`.
pub(crate) proof fn lemma_sample_outcomes()
    ensures
        i32_outcome("42"@) == Result::<i32, ParseIntError>::Ok(42),
        i32_outcome("tofu"@) == Result::<i32, ParseIntError>::Err(
            ParseIntError { kind: IntErrorKind::InvalidDigit },
        ),
{
    reveal_strlit("42");
    reveal_strlit("tofu");
    let lo = i32::MIN as int;
    let hi = i32::MAX as int;
    let n = "42"@;
    assert(n.drop_last() =~= seq!['4']);
    assert(n.drop_last().drop_last() =~= Seq::<char>::empty());
    assert(read_digits(Seq::<char>::empty(), false, lo, hi) == Result::<int, IntErrorKind>::Ok(0));
    assert(seq!['4'].drop_last() =~= Seq::<char>::empty());
    assert(read_digits(seq!['4'], false, lo, hi) == Result::<int, IntErrorKind>::Ok(4));
    assert(parse_int(n, lo, hi) == Result::<int, IntErrorKind>::Ok(42));
    let t = "tofu"@;
    assert(t.drop_last() =~= seq!['t', 'o', 'f']);
    assert(t.drop_last().drop_last() =~= seq!['t', 'o']);
    assert(t.drop_last().drop_last().drop_last() =~= seq!['t']);
    assert(seq!['t'].drop_last() =~= Seq::<char>::empty());
    assert(read_digits(seq!['t'], false, lo, hi) is Err);
    assert(read_digits(seq!['t', 'o'], false, lo, hi) is Err);
    assert(read_digits(seq!['t', 'o', 'f'], false, lo, hi) is Err);
}

} // verus!
