//! Settings of the service read from its environment, and the clock.

use std::time::{Duration, SystemTime, UNIX_EPOCH};

use vstd::prelude::*;

use crate::text::{chars_of, lower_eq, lowers_to_seq};

verus! {

broadcast use vstd::string::group_string_axioms;

/// Why a setting is refused.
#[derive(Debug, Clone, Copy, PartialEq, Eq, Structural)]
pub enum ConfigError {
    /// A yes/no setting is none of the accepted words.
    InvalidBoolean,
    /// The session lifetime is not an integer.
    InvalidSessionDays,
    /// The session lifetime is not between 1 and 365 days.
    SessionDaysOutOfRange,
}

/// The value of a yes/no setting: `1`, `true`, `yes`, `on` and `0`, `false`, `no`,
/// `off`, in any ASCII case.
pub open spec fn bool_word(value: Seq<char>) -> Option<bool> {
    if lowers_to_seq(value, "1"@) || lowers_to_seq(value, "true"@) || lowers_to_seq(value, "yes"@)
        || lowers_to_seq(value, "on"@) {
        Some(true)
    } else if lowers_to_seq(value, "0"@) || lowers_to_seq(value, "false"@) || lowers_to_seq(
        value,
        "no"@,
    ) || lowers_to_seq(value, "off"@) {
        Some(false)
    } else {
        None
    }
}

/// Reads a yes/no setting.
pub fn parse_bool(value: &str) -> (res: Result<bool, ConfigError>)
    ensures
        bool_word(value@) matches Some(b) ==> res == Ok::<bool, ConfigError>(b),
        bool_word(value@) is None ==> res == Err::<bool, ConfigError>(ConfigError::InvalidBoolean),
{
    if lower_eq(value, "1") || lower_eq(value, "true") || lower_eq(value, "yes") || lower_eq(
        value,
        "on",
    ) {
        Ok(true)
    } else if lower_eq(value, "0") || lower_eq(value, "false") || lower_eq(value, "no") || lower_eq(
        value,
        "off",
    ) {
        Ok(false)
    } else {
        Err(ConfigError::InvalidBoolean)
    }
}

/// Whether the string is one or more ASCII digits.
pub open spec fn all_digits(s: Seq<char>) -> bool {
    s.len() > 0 && forall|i: int| 0 <= i < s.len() ==> '0' <= #[trigger] s[i] <= '9'
}

/// The value of a string of ASCII digits.
pub open spec fn digits_value(s: Seq<char>) -> int
    decreases s.len(),
{
    if s.len() == 0 {
        0
    } else {
        digits_value(s.drop_last()) * 10 + (s.last() as int - 48)
    }
}

/// The integer that `str::parse::<i64>` reads: an optional `+` or `-`, then one or
/// more ASCII digits, within the range of `i64`.
pub open spec fn parse_i64_spec(s: Seq<char>) -> Option<int> {
    if s.len() > 0 && s[0] == '-' {
        if all_digits(s.skip(1)) && -digits_value(s.skip(1)) >= i64::MIN {
            Some(-digits_value(s.skip(1)))
        } else {
            None
        }
    } else if s.len() > 0 && s[0] == '+' {
        if all_digits(s.skip(1)) && digits_value(s.skip(1)) <= i64::MAX {
            Some(digits_value(s.skip(1)))
        } else {
            None
        }
    } else if all_digits(s) && digits_value(s) <= i64::MAX {
        Some(digits_value(s))
    } else {
        None
    }
}

proof fn lemma_digits_value_nonneg(s: Seq<char>)
    requires
        forall|i: int| 0 <= i < s.len() ==> '0' <= #[trigger] s[i] <= '9',
    ensures
        digits_value(s) >= 0,
    decreases s.len(),
{
    if s.len() > 0 {
        lemma_digits_value_nonneg(s.drop_last());
    }
}

/// The value of `v[from..]` read as digits, capped at `cap`; `None` where a
/// character is not a digit or there is none.
fn capped_digits(v: &Vec<char>, from: usize, cap: u64) -> (res: Option<u64>)
    requires
        from <= v@.len(),
        cap <= 9223372036854775809u64,
    ensures
        res is Some <==> all_digits(v@.skip(from as int)),
        res is Some ==> (res->0 == if digits_value(v@.skip(from as int)) < cap {
            digits_value(v@.skip(from as int))
        } else {
            cap as int
        }),
{
    if from >= v.len() {
        return None;
    }
    let mut acc: u64 = 0;
    let mut i: usize = from;
    while i < v.len()
        invariant
            from <= i <= v@.len(),
            cap <= 9223372036854775809u64,
            forall|k: int| from <= k < i ==> '0' <= #[trigger] v@[k] <= '9',
            acc == if digits_value(v@.subrange(from as int, i as int)) < cap {
                digits_value(v@.subrange(from as int, i as int))
            } else {
                cap as int
            },
        decreases v@.len() - i,
    {
        let c = v[i];
        if !('0' <= c && c <= '9') {
            assert(v@.skip(from as int)[i - from] == c);
            return None;
        }
        let d = (c as u32 - 48) as u64;
        let ghost prev = v@.subrange(from as int, i as int);
        let ghost next = v@.subrange(from as int, i + 1);
        proof {
            assert(next.drop_last() =~= prev);
            assert(next.last() == c);
            assert forall|k: int| 0 <= k < prev.len() implies '0' <= #[trigger] prev[k] <= '9' by {
                assert(prev[k] == v@[from + k]);
            }
            lemma_digits_value_nonneg(prev);
        }
        if acc >= cap {
            assert(digits_value(next) >= cap) by (nonlinear_arith)
                requires
                    digits_value(next) == digits_value(prev) * 10 + d,
                    digits_value(prev) >= cap,
                    cap >= 0,
                    d >= 0,
            ;
        } else {
            let candidate: u128 = acc as u128 * 10 + d as u128;
            if candidate >= cap as u128 {
                acc = cap;
            } else {
                acc = candidate as u64;
            }
        }
        i = i + 1;
    }
    assert(v@.subrange(from as int, v@.len() as int) =~= v@.skip(from as int));
    Some(acc)
}

/// `str::parse::<i64>`: the integer that the text denotes, if it is one.
pub fn parse_i64(text: &str) -> (res: Option<i64>)
    ensures
        res is Some <==> parse_i64_spec(text@) is Some,
        res is Some ==> res->0 == parse_i64_spec(text@)->0,
{
    let v = chars_of(text);
    if v.len() > 0 && v[0] == '-' {
        match capped_digits(&v, 1, 9223372036854775809u64) {
            None => None,
            Some(m) => {
                if m == 9223372036854775808u64 {
                    Some(i64::MIN)
                } else if m < 9223372036854775808u64 {
                    Some(-(m as i64))
                } else {
                    None
                }
            },
        }
    } else if v.len() > 0 && v[0] == '+' {
        match capped_digits(&v, 1, 9223372036854775808u64) {
            None => None,
            Some(m) => if m < 9223372036854775808u64 {
                Some(m as i64)
            } else {
                None
            },
        }
    } else {
        assert(v@.skip(0) =~= v@);
        match capped_digits(&v, 0, 9223372036854775808u64) {
            None => None,
            Some(m) => if m < 9223372036854775808u64 {
                Some(m as i64)
            } else {
                None
            },
        }
    }
}

/// The session lifetime in seconds for a setting in days: an integer from 1 to 365.
pub fn session_lifetime_seconds(days_text: &str) -> (res: Result<i64, ConfigError>)
    ensures
        parse_i64_spec(days_text@) is None ==> res == Err::<i64, ConfigError>(
            ConfigError::InvalidSessionDays,
        ),
        parse_i64_spec(days_text@) matches Some(d) ==> (!(1 <= d <= 365) ==> res == Err::<
            i64,
            ConfigError,
        >(ConfigError::SessionDaysOutOfRange)),
        parse_i64_spec(days_text@) matches Some(d) ==> (1 <= d <= 365 ==> (res matches Ok(s) && s
            == d * 86400)),
{
    let days = match parse_i64(days_text) {
        Some(days) => days,
        None => return Err(ConfigError::InvalidSessionDays),
    };
    if !(1 <= days && days <= 365) {
        return Err(ConfigError::SessionDaysOutOfRange);
    }
    Ok(days * 24 * 60 * 60)
}

#[verifier::external_type_specification]
#[verifier::external_body]
pub struct ExSystemTime(SystemTime);

/// `SystemTime::now`: the system clock. Nothing is said of its reading.
#[verifier::external_body]
fn system_now() -> SystemTime {
    SystemTime::now()
}

/// `SystemTime::duration_since(UNIX_EPOCH)`: how long after the epoch the time is;
/// `None` for a time before it.
#[verifier::external_body]
fn since_unix_epoch(time: &SystemTime) -> Option<Duration> {
    time.duration_since(UNIX_EPOCH).ok()
}

/// `Duration::as_secs`: the whole seconds of a duration.
#[verifier::external_body]
fn whole_seconds(duration: &Duration) -> u64 {
    duration.as_secs()
}

/// Unix time from the whole seconds since the epoch of a clock reading (`None` for
/// a clock set before the epoch, which reads 0), cast to `i64` as `as` casts.
pub fn unix_seconds(since_epoch: Option<u64>) -> (res: i64)
    ensures
        since_epoch is None ==> res == 0,
        since_epoch matches Some(s) ==> res == s as i64,
        since_epoch matches Some(s) ==> (s <= i64::MAX ==> res == s),
{
    match since_epoch {
        Some(secs) => {
            #[verifier::truncate]
            (secs as i64)
        },
        None => 0,
    }
}

/// The current Unix time in seconds: the system clock's whole seconds since the
/// epoch, 0 for a clock set before it. Which reading the clock gives is not stated.
pub fn unix_time() -> i64 {
    let now = system_now();
    let since_epoch = match since_unix_epoch(&now) {
        Some(duration) => Some(whole_seconds(&duration)),
        None => None,
    };
    unix_seconds(since_epoch)
}

} // verus!
