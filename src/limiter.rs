//! The consecutive-failure counter kept per user, and how it changes.
//!
//! The counter lives outside the process as text holding one decimal integer;
//! an absent record counts as 0. Text that does not parse counts as 0 too.
use vstd::prelude::*;

verus! {

/// Failures in a row after which the next attempt is refused.
pub const MAX_ATTEMPTS: i32 = 3;

/// A character with the Unicode property White_Space.
pub open spec fn is_white_space(c: char) -> bool {
    let u = c as u32;
    (0x09 <= u <= 0x0d) || u == 0x20 || u == 0x85 || u == 0xa0 || u == 0x1680 || (0x2000 <= u
        <= 0x200a) || u == 0x2028 || u == 0x2029 || u == 0x202f || u == 0x205f || u == 0x3000
}

/// The text without its leading white space.
pub open spec fn trim_start(s: Seq<char>) -> Seq<char>
    decreases s.len(),
{
    if s.len() > 0 && is_white_space(s[0]) {
        trim_start(s.drop_first())
    } else {
        s
    }
}

/// The text without its trailing white space.
pub open spec fn trim_end(s: Seq<char>) -> Seq<char>
    decreases s.len(),
{
    if s.len() > 0 && is_white_space(s.last()) {
        trim_end(s.drop_last())
    } else {
        s
    }
}

/// The text with leading and trailing white space removed.
pub open spec fn trimmed(s: Seq<char>) -> Seq<char> {
    trim_end(trim_start(s))
}

/// Value of a run of decimal digits, most significant first.
pub open spec fn digits_value(d: Seq<char>) -> int
    decreases d.len(),
{
    if d.len() == 0 {
        0
    } else {
        10 * digits_value(d.drop_last()) + (d.last() as u32 - '0' as u32)
    }
}

/// One or more ASCII decimal digits.
pub open spec fn all_digits(d: Seq<char>) -> bool {
    d.len() > 0 && forall|i: int| 0 <= i < d.len() ==> '0' <= #[trigger] d[i] <= '9'
}

/// The value of the text as a decimal `i32`: an optional `+` or `-`, then one
/// or more digits, within the range of `i32`.
pub open spec fn parsed_i32(s: Seq<char>) -> Option<i32> {
    let signed = s.len() > 0 && (s[0] == '-' || s[0] == '+');
    let d = if signed {
        s.drop_first()
    } else {
        s
    };
    let v = if s.len() > 0 && s[0] == '-' {
        -digits_value(d)
    } else {
        digits_value(d)
    };
    if all_digits(d) && i32::MIN <= v <= i32::MAX {
        Some(v as i32)
    } else {
        None
    }
}

/// Relies on `str::trim`, which removes leading and trailing characters that
/// have the Unicode property White_Space.
#[verifier::external_body]
fn trim_text(s: &str) -> (r: &str)
    ensures
        r@ == trimmed(s@),
{
    s.trim()
}

/// Relies on `str::parse::<i32>` (`FromStr for i32`): an optional sign, then
/// decimal digits, rejected when out of range.
#[verifier::external_body]
fn parse_i32(s: &str) -> (r: Option<i32>)
    ensures
        r == parsed_i32(s@),
{
    s.parse::<i32>().ok()
}

/// Where a user stands with respect to the failure limit.
#[derive(Debug, PartialEq, Eq, Structural)]
pub enum LimiterState {
    /// No failure on record.
    Clear,
    /// Some failures, fewer than the limit.
    Warned,
    /// The limit is reached: the next attempt is refused.
    Blocked,
}

/// The counter value that a stored text stands for.
pub open spec fn attempts_in_text(text: Seq<char>) -> i32 {
    match parsed_i32(trimmed(text)) {
        Some(n) => n,
        None => 0,
    }
}

/// The counter value of a record; an absent record counts as 0.
pub open spec fn attempts_of(record: Option<i32>) -> i32 {
    match record {
        Some(n) => n,
        None => 0,
    }
}

pub open spec fn state_of(attempts: i32) -> LimiterState {
    if attempts >= MAX_ATTEMPTS {
        LimiterState::Blocked
    } else if attempts >= 1 {
        LimiterState::Warned
    } else {
        LimiterState::Clear
    }
}

/// Reads a stored counter text; anything that is not a decimal integer counts as 0.
pub fn parse_attempts(text: &str) -> (r: i32)
    ensures
        r == attempts_in_text(text@),
{
    match parse_i32(trim_text(text)) {
        Some(n) => n,
        None => 0,
    }
}

/// The limiter state for a counter value.
pub fn limiter_state(attempts: i32) -> (r: LimiterState)
    ensures
        r == state_of(attempts),
{
    if attempts >= MAX_ATTEMPTS {
        LimiterState::Blocked
    } else if attempts >= 1 {
        LimiterState::Warned
    } else {
        LimiterState::Clear
    }
}

/// What to do with the stored counter at the end of an attempt.
#[derive(Debug, PartialEq, Eq, Structural)]
pub enum CounterUpdate {
    /// Leave the record as it is.
    Keep,
    /// Delete the record.
    Remove,
    /// Write this value.
    Store(i32),
}

pub open spec fn updated(record: Option<i32>, u: CounterUpdate) -> Option<i32> {
    match u {
        CounterUpdate::Keep => record,
        CounterUpdate::Remove => None,
        CounterUpdate::Store(n) => Some(n),
    }
}

/// The record after an update; `None` stands for an absent record.
pub fn apply_update(record: Option<i32>, u: &CounterUpdate) -> (r: Option<i32>)
    ensures
        r == updated(record, *u),
{
    match u {
        CounterUpdate::Keep => record,
        CounterUpdate::Remove => None,
        CounterUpdate::Store(n) => Some(*n),
    }
}

} // verus!
