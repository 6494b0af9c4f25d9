//! The once-a-day limit on checks, from the time of the last check.
use vstd::prelude::*;

use crate::text::is_digit;

verus! {

/// Seconds in a day.
pub const DAY_SECONDS: i64 = 86400;

/// The value of a run of ASCII digits.
pub open spec fn digits_value(d: Seq<char>) -> int
    decreases d.len(),
{
    if d.len() == 0 {
        0
    } else {
        digits_value(d.drop_last()) * 10 + (d.last() as int - '0' as int)
    }
}

/// The integer that `s` writes in decimal: an optional `+` or `-`, then one
/// or more ASCII digits and nothing else, with a value that fits in `i64`.
pub open spec fn parse_i64(s: Seq<char>) -> Option<int> {
    let neg = s.len() > 0 && s[0] == '-';
    let d = if s.len() > 0 && (s[0] == '+' || s[0] == '-') {
        s.drop_first()
    } else {
        s
    };
    let v = if neg {
        -digits_value(d)
    } else {
        digits_value(d)
    };
    if d.len() > 0 && (forall|k: int| 0 <= k < d.len() ==> is_digit(#[trigger] d[k])) && i64::MIN
        <= v <= i64::MAX {
        Some(v)
    } else {
        None
    }
}

/// Relies on `<i64 as FromStr>::from_str`: an optional sign followed by
/// decimal digits, in range; anything else is an error.
#[verifier::external_body]
fn parse_i64_exec(s: &str) -> (r: Option<i64>)
    ensures
        match parse_i64(s@) {
            Some(v) => r == Some(v as i64),
            None => r is None,
        },
{
    s.parse::<i64>().ok()
}

/// The time of the last check, from the stored mark: 0 when none is stored
/// or it does not hold an integer.
pub fn get_check_timestamp(stored: Option<&str>) -> (r: i64)
    ensures
        r == match stored {
            Some(s) => match parse_i64(s@) {
                Some(v) => v,
                None => 0,
            },
            None => 0,
        },
{
    match stored {
        Some(s) => match parse_i64_exec(s) {
            Some(v) => v,
            None => 0,
        },
        None => 0,
    }
}

/// Whether more than a day has passed from `last_check` to `now` (Unix seconds).
pub fn day_passed_since_last_check(now: i64, last_check: i64) -> (r: bool)
    ensures
        r == (now as int - last_check as int > DAY_SECONDS as int),
{
    (now as i128) - (last_check as i128) > DAY_SECONDS as i128
}

/// Whether a check may run: when forced, or when a day has passed.
pub fn check_allowed(force: bool, now: i64, last_check: i64) -> (r: bool)
    ensures
        r == (force || now as int - last_check as int > DAY_SECONDS as int),
{
    force || day_passed_since_last_check(now, last_check)
}

} // verus!
