//! Decimal integer parsing with the behaviour of `str::parse` for unsigned
//! integer types.

use vstd::prelude::*;

verus! {

/// Why a text is not an unsigned integer; the kinds that `str::parse` reports.
#[derive(Debug, Clone, Copy, PartialEq, Eq, Structural)]
pub enum IntParseError {
    /// The text is empty.
    Empty,
    /// The text holds a character that is not a decimal digit.
    InvalidDigit,
    /// The value is larger than the target type holds.
    PosOverflow,
}

/// `c` is one of the ASCII digits `0` to `9`.
pub open spec fn is_digit(c: char) -> bool {
    '0' as u32 <= c as u32 <= '9' as u32
}

/// The value of the digit `c`.
pub open spec fn digit_value(c: char) -> int {
    c as u32 - '0' as u32
}

/// Reads the digits of `s` from left to right, stopping at the first
/// character that is not a digit or at the first digit that takes the value
/// above `max`.
pub open spec fn scan_digits(s: Seq<char>, max: int) -> Result<int, IntParseError>
    decreases s.len(),
{
    if s.len() == 0 {
        Ok(0)
    } else {
        match scan_digits(s.drop_last(), max) {
            Err(e) => Err(e),
            Ok(v) => if !is_digit(s.last()) {
                Err(IntParseError::InvalidDigit)
            } else if v * 10 + digit_value(s.last()) > max {
                Err(IntParseError::PosOverflow)
            } else {
                Ok(v * 10 + digit_value(s.last()))
            },
        }
    }
}

/// The result of parsing `s` as an unsigned integer of at most `max`: an
/// optional `+`, then decimal digits.
pub open spec fn parse_uint(s: Seq<char>, max: int) -> Result<int, IntParseError> {
    if s.len() == 0 {
        Err(IntParseError::Empty)
    } else if s.len() == 1 && (s[0] == '+' || s[0] == '-') {
        Err(IntParseError::InvalidDigit)
    } else if s[0] == '+' {
        scan_digits(s.drop_first(), max)
    } else {
        scan_digits(s, max)
    }
}

/// A successful scan never exceeds the bound and never goes below zero.
pub proof fn lemma_scan_digits_bounds(s: Seq<char>, max: int)
    requires
        0 <= max,
    ensures
        scan_digits(s, max) matches Ok(v) ==> 0 <= v <= max,
    decreases s.len(),
{
    if s.len() > 0 {
        lemma_scan_digits_bounds(s.drop_last(), max);
    }
}

fn scan_digits_exec(s: &[char], from: usize, max: u64) -> (r: Result<u64, IntParseError>)
    requires
        from <= s@.len(),
    ensures
        match (r, scan_digits(s@.skip(from as int), max as int)) {
            (Ok(a), Ok(b)) => a == b,
            (Err(a), Err(b)) => a == b,
            _ => false,
        },
{
    let ghost t = s@.skip(from as int);
    let mut acc: u64 = 0;
    let mut i: usize = from;
    assert(t.take(0) =~= Seq::<char>::empty());
    while i < s.len()
        invariant
            from <= i <= s@.len(),
            t == s@.skip(from as int),
            scan_digits(t.take(i - from), max as int) == Ok::<int, IntParseError>(acc as int),
        decreases s@.len() - i,
    {
        let c = s[i];
        let ghost k = i - from;
        assert(t.take(k + 1).drop_last() =~= t.take(k));
        assert(t.take(k + 1).last() == c);
        let u = c as u32;
        if !('0' as u32 <= u && u <= '9' as u32) {
            assert(scan_digits(t.take(k + 1), max as int) == Err::<int, IntParseError>(
                IntParseError::InvalidDigit,
            ));
            proof {
                lemma_scan_err_sticks(t, k + 1, max as int);
            }
            return Err(IntParseError::InvalidDigit);
        }
        let d = (u - '0' as u32) as u64;
        let next = match acc.checked_mul(10) {
            Some(m) => m.checked_add(d),
            None => None,
        };
        match next {
            Some(n) if n <= max => {
                acc = n;
            },
            _ => {
                assert(scan_digits(t.take(k + 1), max as int) == Err::<int, IntParseError>(
                    IntParseError::PosOverflow,
                ));
                proof {
                    lemma_scan_err_sticks(t, k + 1, max as int);
                }
                return Err(IntParseError::PosOverflow);
            },
        }
        i = i + 1;
    }
    assert(t.take(i - from) =~= t);
    Ok(acc)
}

/// Once the scan of a prefix fails, the scan of the whole text fails the same way.
proof fn lemma_scan_err_sticks(t: Seq<char>, n: int, max: int)
    requires
        0 <= n <= t.len(),
        scan_digits(t.take(n), max) is Err,
    ensures
        scan_digits(t, max) == scan_digits(t.take(n), max),
    decreases t.len() - n,
{
    if n < t.len() {
        assert(t.take(n + 1).drop_last() =~= t.take(n));
        lemma_scan_err_sticks(t, n + 1, max);
    } else {
        assert(t.take(n) =~= t);
    }
}

/// Parses `s` as an unsigned decimal integer of at most `max`, as `str::parse`
/// does for an unsigned integer type whose largest value is `max`.
pub fn parse_uint_exec(s: &[char], max: u64) -> (r: Result<u64, IntParseError>)
    ensures
        match (r, parse_uint(s@, max as int)) {
            (Ok(a), Ok(b)) => a == b,
            (Err(a), Err(b)) => a == b,
            _ => false,
        },
{
    if s.len() == 0 {
        return Err(IntParseError::Empty);
    }
    if s.len() == 1 && (s[0] == '+' || s[0] == '-') {
        return Err(IntParseError::InvalidDigit);
    }
    if s[0] == '+' {
        assert(s@.skip(1) =~= s@.drop_first());
        scan_digits_exec(s, 1, max)
    } else {
        assert(s@.skip(0) =~= s@);
        scan_digits_exec(s, 0, max)
    }
}

} // verus!
