//! Decimal integer parsing, with a failure value that says what went wrong.
use vstd::prelude::*;
use vstd::string::*;
use crate::failure::{DynamicError, Failure};

verus! {

/// What kept a string from being read as an integer.
#[derive(Clone, Copy, Debug, PartialEq, Eq, Structural)]
pub enum IntErrorKind {
    /// The string has no characters.
    Empty,
    /// A character is not a decimal digit where one is needed; a lone sign counts as this.
    InvalidDigit,
    /// The value is above the largest value of the target type.
    PosOverflow,
    /// The value is below the smallest value of the target type.
    NegOverflow,
}

/// The failure of reading a string as an integer.
#[derive(Clone, Copy, Debug, PartialEq, Eq, Structural)]
pub struct ParseIntError {
    pub kind: IntErrorKind,
}

pub open spec fn is_digit(c: char) -> bool {
    '0' <= c <= '9'
}

pub open spec fn digit_value(c: char) -> int {
    c as int - '0' as int
}

/// Reads the characters `ds` left to right as decimal digits, each one moving the
/// value one place up and adding its digit (subtracting it when `neg`). The first
/// character that is no digit, or the first step that leaves `lo..=hi`, ends the
/// reading with that failure.
pub open spec fn read_digits(ds: Seq<char>, neg: bool, lo: int, hi: int) -> Result<int, IntErrorKind>
    decreases ds.len(),
{
    if ds.len() == 0 {
        Ok(0)
    } else {
        match read_digits(ds.drop_last(), neg, lo, hi) {
            Err(k) => Err(k),
            Ok(v) => {
                let c = ds.last();
                if !is_digit(c) {
                    Err(IntErrorKind::InvalidDigit)
                } else {
                    let w = if neg {
                        v * 10 - digit_value(c)
                    } else {
                        v * 10 + digit_value(c)
                    };
                    if w > hi {
                        Err(IntErrorKind::PosOverflow)
                    } else if w < lo {
                        Err(IntErrorKind::NegOverflow)
                    } else {
                        Ok(w)
                    }
                }
            },
        }
    }
}

/// The integer that `s` denotes in a type whose values are `lo..=hi`: an optional
/// `+` (or `-`, where the type has negative values) followed by decimal digits.
pub open spec fn parse_int(s: Seq<char>, lo: int, hi: int) -> Result<int, IntErrorKind> {
    if s.len() == 0 {
        Err(IntErrorKind::Empty)
    } else if (s[0] == '+' || s[0] == '-') && s.len() == 1 {
        Err(IntErrorKind::InvalidDigit)
    } else if s[0] == '+' {
        read_digits(s.drop_first(), false, lo, hi)
    } else if s[0] == '-' && lo < 0 {
        read_digits(s.drop_first(), true, lo, hi)
    } else {
        read_digits(s, false, lo, hi)
    }
}

/// What reading `s` as an `i32` gives.
pub open spec fn i32_outcome(s: Seq<char>) -> Result<i32, ParseIntError> {
    match parse_int(s, i32::MIN as int, i32::MAX as int) {
        Ok(v) => Ok(v as i32),
        Err(k) => Err(ParseIntError { kind: k }),
    }
}

/// What reading `s` as a `u8` gives.
pub open spec fn u8_outcome(s: Seq<char>) -> Result<u8, ParseIntError> {
    match parse_int(s, u8::MIN as int, u8::MAX as int) {
        Ok(v) => Ok(v as u8),
        Err(k) => Err(ParseIntError { kind: k }),
    }
}

/// The views of a sequence of string slices.
pub open spec fn texts(v: Seq<&str>) -> Seq<Seq<char>> {
    v.map_values(|s: &str| s@)
}

/// Once a prefix of the digits has failed, every longer reading fails the same way.
proof fn lemma_failure_persists(ds: Seq<char>, j: int, neg: bool, lo: int, hi: int)
    requires
        0 <= j <= ds.len(),
        read_digits(ds.subrange(0, j), neg, lo, hi) is Err,
    ensures
        read_digits(ds, neg, lo, hi) == read_digits(ds.subrange(0, j), neg, lo, hi),
    decreases ds.len(),
{
    if j < ds.len() {
        assert(ds.drop_last().subrange(0, j) == ds.subrange(0, j));
        lemma_failure_persists(ds.drop_last(), j, neg, lo, hi);
    } else {
        assert(ds.subrange(0, j) == ds);
    }
}

/// Reads `s` as an integer of a type whose values are `lo..=hi`.
///
/// Each character is looked up once, and the scan stops at the first character
/// that is no digit or once the value has left the bounds, so at most a dozen
/// characters are looked at.
fn parse_in_range(s: &str, lo: i64, hi: i64) -> (r: Result<i64, ParseIntError>)
    requires
        i32::MIN <= lo <= 0 <= hi <= u32::MAX,
    ensures
        match r {
            Ok(v) => parse_int(s@, lo as int, hi as int) == Result::<int, IntErrorKind>::Ok(v as int),
            Err(e) => parse_int(s@, lo as int, hi as int) == Result::<int, IntErrorKind>::Err(e.kind),
        },
{
    let n = s.unicode_len();
    if n == 0 {
        return Err(ParseIntError { kind: IntErrorKind::Empty });
    }
    let c0 = s.get_char(0);
    if (c0 == '+' || c0 == '-') && n == 1 {
        return Err(ParseIntError { kind: IntErrorKind::InvalidDigit });
    }
    let neg: bool = c0 == '-' && lo < 0;
    let start: usize = if c0 == '+' || neg {
        1
    } else {
        0
    };
    let ghost ds = s@.subrange(start as int, n as int);
    proof {
        if start == 1 {
            assert(ds == s@.drop_first());
        } else {
            assert(ds == s@);
        }
        assert(ds.subrange(0, 0) =~= Seq::<char>::empty());
    }
    let mut acc: i64 = 0;
    let mut i: usize = start;
    while i < n
        invariant
            start <= i <= n,
            n == s@.len(),
            ds == s@.subrange(start as int, n as int),
            parse_int(s@, lo as int, hi as int) == read_digits(ds, neg, lo as int, hi as int),
            read_digits(ds.subrange(0, i - start), neg, lo as int, hi as int) == Result::<int, IntErrorKind>::Ok(acc as int),
            i32::MIN <= lo <= 0 <= hi <= u32::MAX,
            lo <= acc <= hi,
        decreases n - i,
    {
        let c = s.get_char(i);
        let ghost next = ds.subrange(0, i + 1 - start);
        proof {
            assert(next.drop_last() == ds.subrange(0, i - start));
            assert(next.last() == c);
        }
        if !('0' <= c && c <= '9') {
            proof {
                lemma_failure_persists(ds, i + 1 - start, neg, lo as int, hi as int);
            }
            return Err(ParseIntError { kind: IntErrorKind::InvalidDigit });
        }
        let d: i64 = (c as u32 - '0' as u32) as i64;
        let w: i64 = if neg {
            acc * 10 - d
        } else {
            acc * 10 + d
        };
        if w > hi {
            proof {
                lemma_failure_persists(ds, i + 1 - start, neg, lo as int, hi as int);
            }
            return Err(ParseIntError { kind: IntErrorKind::PosOverflow });
        }
        if w < lo {
            proof {
                lemma_failure_persists(ds, i + 1 - start, neg, lo as int, hi as int);
            }
            return Err(ParseIntError { kind: IntErrorKind::NegOverflow });
        }
        acc = w;
        i = i + 1;
    }
    proof {
        assert(ds.subrange(0, n - start) == ds);
    }
    Ok(acc)
}

/// Reads `s` as an `i32`: an optional sign followed by decimal digits.
pub fn parse_i32(s: &str) -> (r: Result<i32, ParseIntError>)
    ensures
        r == i32_outcome(s@),
{
    match parse_in_range(s, i32::MIN as i64, i32::MAX as i64) {
        Ok(v) => Ok(v as i32),
        Err(e) => Err(e),
    }
}

/// Reads `s` as a `u8`: an optional `+` followed by decimal digits.
pub fn parse_u8(s: &str) -> (r: Result<u8, ParseIntError>)
    ensures
        r == u8_outcome(s@),
{
    match parse_in_range(s, 0, u8::MAX as i64) {
        Ok(v) => Ok(v as u8),
        Err(e) => Err(e),
    }
}

} // verus!

verus! {

impl Failure for ParseIntError {
    open spec fn text(&self) -> Seq<char> {
        match self.kind {
            IntErrorKind::Empty => "cannot parse integer from empty string"@,
            IntErrorKind::InvalidDigit => "invalid digit found in string"@,
            IntErrorKind::PosOverflow => "number too large to fit in target type"@,
            IntErrorKind::NegOverflow => "number too small to fit in target type"@,
        }
    }

    open spec fn causes(&self) -> Seq<Seq<char>> {
        Seq::empty()
    }

    fn message(&self) -> (r: String) {
        match self.kind {
            IntErrorKind::Empty => String::from_str("cannot parse integer from empty string"),
            IntErrorKind::InvalidDigit => String::from_str("invalid digit found in string"),
            IntErrorKind::PosOverflow => String::from_str("number too large to fit in target type"),
            IntErrorKind::NegOverflow => String::from_str("number too small to fit in target type"),
        }
    }

    fn source(&self) -> (r: Option<DynamicError>) {
        None
    }
}

} // verus!
