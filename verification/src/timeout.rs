//! Parsing of the `--timeout` value of the HMDS server: a decimal number of
//! seconds followed by the unit `s`.

use vstd::prelude::*;

verus! {

/// Why a timeout value was refused.
#[derive(Debug, Clone, Copy, PartialEq, Eq, Structural)]
pub enum TimeoutParseError {
    /// The value does not end with a known unit.
    MissingUnit,
    /// The text before the unit is not a decimal `i64`.
    InvalidNumber,
}

pub open spec fn is_ascii_digit(c: char) -> bool {
    '0' <= c && c <= '9'
}

pub open spec fn digit_value(c: char) -> int {
    c as int - '0' as int
}

pub open spec fn all_ascii_digits(s: Seq<char>) -> bool {
    forall|i: int| 0 <= i < s.len() ==> #[trigger] is_ascii_digit(s[i])
}

/// The number that a string of decimal digits denotes.
pub open spec fn decimal_value(s: Seq<char>) -> int
    decreases s.len(),
{
    if s.len() == 0 {
        0
    } else {
        decimal_value(s.drop_last()) * 10 + digit_value(s.last())
    }
}

pub open spec fn has_sign(s: Seq<char>) -> bool {
    s.len() > 0 && (s[0] == '+' || s[0] == '-')
}

/// The digits of a decimal integer, without its optional sign.
pub open spec fn unsigned_part(s: Seq<char>) -> Seq<char> {
    if has_sign(s) {
        s.drop_first()
    } else {
        s
    }
}

pub open spec fn in_i64_range(v: int) -> bool {
    i64::MIN <= v <= i64::MAX
}

/// What `i64::from_str` gives for `s`: an optional `+` or `-`, then one or
/// more ASCII digits, denoting a value that fits in an `i64`.
pub open spec fn parse_i64_spec(s: Seq<char>) -> Option<i64> {
    let digits = unsigned_part(s);
    let magnitude = decimal_value(digits);
    let value = if s.len() > 0 && s[0] == '-' {
        -magnitude
    } else {
        magnitude
    };
    if digits.len() > 0 && all_ascii_digits(digits) && in_i64_range(value) {
        Some(value as i64)
    } else {
        None
    }
}

/// A prefix of a digit string never denotes more than a longer prefix.
pub proof fn lemma_decimal_prefix_monotone(s: Seq<char>, j: int, k: int)
    requires
        all_ascii_digits(s),
        0 <= j <= k <= s.len(),
    ensures
        0 <= decimal_value(s.take(j)) <= decimal_value(s.take(k)),
    decreases k,
{
    if k == j {
        lemma_decimal_nonnegative(s.take(j));
    } else {
        lemma_decimal_prefix_monotone(s, j, k - 1);
        assert(s.take(k).drop_last() =~= s.take(k - 1));
        assert(is_ascii_digit(s[k - 1]));
    }
}

pub proof fn lemma_decimal_nonnegative(s: Seq<char>)
    requires
        all_ascii_digits(s),
    ensures
        0 <= decimal_value(s),
    decreases s.len(),
{
    if s.len() > 0 {
        assert(all_ascii_digits(s.drop_last())) by {
            assert forall|i: int| 0 <= i < s.drop_last().len() implies #[trigger] is_ascii_digit(
                s.drop_last()[i],
            ) by {
                assert(s.drop_last()[i] == s[i]);
            }
        }
        lemma_decimal_nonnegative(s.drop_last());
        assert(is_ascii_digit(s[s.len() - 1]));
    }
}

/// Parses a decimal `i64` the way `str::parse::<i64>` does.
pub fn parse_decimal_i64(s: &str) -> (r: Option<i64>)
    ensures
        r == parse_i64_spec(s@),
{
    let n = s.unicode_len();
    if n == 0 {
        return None;
    }
    let first = s.get_char(0);
    let negative = first == '-';
    let start: usize = if first == '+' || first == '-' {
        1
    } else {
        0
    };
    if start == n {
        return None;
    }
    let ghost digits = unsigned_part(s@);
    assert(digits =~= s@.subrange(start as int, n as int));
    let mut acc: i128 = 0;
    let mut i: usize = start;
    while i < n
        invariant
            n == s@.len(),
            start <= i <= n,
            start == 0 || start == 1,
            start == 1 <==> has_sign(s@),
            negative <==> (s@.len() > 0 && s@[0] == '-'),
            digits == s@.subrange(start as int, n as int),
            digits == unsigned_part(s@),
            all_ascii_digits(digits.take(i - start)),
            in_i64_range(acc as int),
            acc == (if negative {
                -decimal_value(digits.take(i - start))
            } else {
                decimal_value(digits.take(i - start))
            }),
        decreases n - i,
    {
        let c = s.get_char(i);
        let ghost k: int = i - start;
        assert(digits[k] == c);
        assert(digits.take(k + 1).drop_last() =~= digits.take(k));
        if !('0' <= c && c <= '9') {
            assert(!is_ascii_digit(digits[k]));
            return None;
        }
        let d = (c as u32 - '0' as u32) as i128;
        assert(d == digit_value(c));
        let next: i128 = if negative {
            acc * 10 - d
        } else {
            acc * 10 + d
        };
        assert(all_ascii_digits(digits.take(k + 1))) by {
            assert forall|t: int| 0 <= t < digits.take(k + 1).len() implies #[trigger] is_ascii_digit(
                digits.take(k + 1)[t],
            ) by {
                if t < k {
                    assert(digits.take(k + 1)[t] == digits.take(k)[t]);
                }
            }
        }
        assert(digits.take(k + 1).last() == c);
        assert(decimal_value(digits.take(k + 1)) == decimal_value(digits.take(k)) * 10 + d);
        if next < i64::MIN as i128 || next > i64::MAX as i128 {
            proof {
                if all_ascii_digits(digits) {
                    lemma_decimal_prefix_monotone(digits, k + 1, digits.len() as int);
                    assert(digits.take(digits.len() as int) =~= digits);
                    assert(!in_i64_range(if negative {
                        -decimal_value(digits)
                    } else {
                        decimal_value(digits)
                    }));
                }
            }
            return None;
        }
        acc = next;
        i = i + 1;
    }
    assert(digits.take(n - start) =~= digits);
    Some(acc as i64)
}

/// Whether `s` ends with the character `c`.
pub open spec fn ends_with_char(s: Seq<char>, c: char) -> bool {
    s.len() > 0 && s.last() == c
}

/// Whether `s` ends with `ns`.
pub open spec fn ends_with_ns(s: Seq<char>) -> bool {
    s.len() >= 2 && s[s.len() - 2] == 'n' && s.last() == 's'
}

/// The number of seconds that a timeout value gives, or why it is refused.
/// A value ending in `s` is read as seconds; since `ns` ends in `s` too, a
/// value in nanoseconds is read as seconds and refused for its `n`.
pub open spec fn timeout_seconds_spec(s: Seq<char>) -> Result<i64, TimeoutParseError> {
    if ends_with_char(s, 's') {
        match parse_i64_spec(s.drop_last()) {
            Some(v) => Ok(v),
            None => Err(TimeoutParseError::InvalidNumber),
        }
    } else {
        Err(TimeoutParseError::MissingUnit)
    }
}

/// The range of whole seconds that `chrono::TimeDelta::seconds` accepts.
pub open spec fn seconds_in_duration_range(secs: i64) -> bool {
    -(i64::MAX / 1000) <= secs <= i64::MAX / 1000
}

/// Whether `chrono::TimeDelta::seconds` accepts `secs`.
pub fn seconds_in_range(secs: i64) -> (b: bool)
    ensures
        b == seconds_in_duration_range(secs),
{
    -(i64::MAX / 1000) <= secs && secs <= i64::MAX / 1000
}

/// The seconds part of a timeout value, or why it is refused.
pub fn timeout_seconds(given: &str) -> (r: Result<i64, TimeoutParseError>)
    ensures
        r == timeout_seconds_spec(given@),
{
    let n = given.unicode_len();
    if n > 0 && given.get_char(n - 1) == 's' {
        let number = given.substring_char(0, n - 1);
        assert(number@ =~= given@.drop_last());
        match parse_decimal_i64(number) {
            Some(v) => Ok(v),
            None => Err(TimeoutParseError::InvalidNumber),
        }
    } else {
        Err(TimeoutParseError::MissingUnit)
    }
}

/// chrono's signed duration, carried as an opaque value.
#[verifier::external_type_specification]
#[verifier::external_body]
pub struct ExTimeDelta(chrono::TimeDelta);

/// What `chrono::TimeDelta::seconds` returns for a number of seconds.
pub uninterp spec fn duration_from_seconds(secs: i64) -> chrono::TimeDelta;

/// Calls `chrono::TimeDelta::seconds`. Claimed: it returns (does not panic)
/// for every number of seconds within ±`i64::MAX / 1000`, and what it
/// returns depends on that number alone (the name `duration_from_seconds`).
#[verifier::external_body]
fn seconds_duration(secs: i64) -> (d: chrono::TimeDelta)
    requires
        seconds_in_duration_range(secs),
    ensures
        d == duration_from_seconds(secs),
{
    chrono::TimeDelta::seconds(secs)
}

/// Parses the `--timeout` value of the HMDS server into a duration.
pub fn parse_timeout_duration(given_duration: &str) -> (r: Result<chrono::TimeDelta, TimeoutParseError>)
    requires
        timeout_seconds_spec(given_duration@) matches Ok(v) ==> seconds_in_duration_range(v),
    ensures
        match timeout_seconds_spec(given_duration@) {
            Ok(v) => r == Ok::<chrono::TimeDelta, TimeoutParseError>(duration_from_seconds(v)),
            Err(e) => r == Err::<chrono::TimeDelta, TimeoutParseError>(e),
        },
{
    // A value written in nanoseconds also ends in `s`, so it is always read
    // as seconds (and refused for its `n`): the seconds are all there is.
    match timeout_seconds(given_duration) {
        Ok(time) => Ok(seconds_duration(time)),
        Err(e) => Err(e),
    }
}

/// A timeout written in nanoseconds is never accepted: it ends in `s`, so it
/// is read as seconds, and its `n` is no digit.
pub proof fn lemma_nanosecond_timeouts_refused(s: Seq<char>)
    requires
        ends_with_ns(s),
    ensures
        timeout_seconds_spec(s) == Err::<i64, TimeoutParseError>(TimeoutParseError::InvalidNumber),
{
    let body = s.drop_last();
    assert(body.last() == 'n');
    let digits = unsigned_part(body);
    if digits.len() > 0 {
        assert(digits.last() == 'n');
        assert(!is_ascii_digit(digits[digits.len() - 1]));
    }
}

} // verus!
