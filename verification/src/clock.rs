//! Time: the clock, RFC 3339 arrival times and how long to wait for an arrival. Instants are
//! milliseconds since the Unix epoch.
use vstd::prelude::*;

verus! {

/// The last millisecond chrono can represent: the end of 31 December 262142, in milliseconds
/// since the Unix epoch.
pub open spec fn latest_clock_millis() -> int {
    8_210_266_876_799_999
}

/// The current time, from `chrono::Utc::now()`, in milliseconds since the Unix epoch.
/// `Utc::now` stops the program for a system clock before the epoch and for one past chrono's
/// range (it unwraps `DateTime::from_timestamp`), so what it returns lies between the epoch and
/// [`latest_clock_millis`]; which instant it is within that range is the clock's.
#[verifier::external_body]
pub fn now_millis() -> (r: i64)
    ensures
        0 <= r <= latest_clock_millis(),
{
    chrono::Utc::now().timestamp_millis()
}

/// What `chrono::DateTime::parse_from_rfc3339` makes of a text, as milliseconds since the Unix
/// epoch (`None` when the text is not RFC 3339).
pub uninterp spec fn rfc3339_millis(s: Seq<char>) -> Option<i64>;

/// What `str::parse::<chrono::DateTime<chrono::Utc>>` (relaxed RFC 3339) makes of a text, as
/// milliseconds since the Unix epoch (`None` when the text does not parse).
pub uninterp spec fn utc_datetime_millis(s: Seq<char>) -> Option<i64>;

/// Calls `chrono::DateTime::parse_from_rfc3339` on `s`; the instant is converted to milliseconds.
/// The contract names the result, which depends on `s` alone.
#[verifier::external_body]
pub fn parse_rfc3339_millis(s: &str) -> (r: Option<i64>)
    ensures
        r == rfc3339_millis(s@),
{
    match chrono::DateTime::parse_from_rfc3339(s) {
        Ok(t) => Some(t.timestamp_millis()),
        Err(_) => None,
    }
}

/// Calls `str::parse::<chrono::DateTime<chrono::Utc>>` on `s`; the instant is converted to
/// milliseconds. The contract names the result, which depends on `s` alone.
#[verifier::external_body]
pub fn parse_utc_datetime_millis(s: &str) -> (r: Option<i64>)
    ensures
        r == utc_datetime_millis(s@),
{
    match s.parse::<chrono::DateTime<chrono::Utc>>() {
        Ok(t) => Some(t.timestamp_millis()),
        Err(_) => None,
    }
}

/// Whole seconds from `now_ms` to `arrival_ms`, rounded toward zero (chrono's
/// `TimeDelta::num_seconds`).
pub open spec fn whole_seconds_between(now_ms: int, arrival_ms: int) -> int {
    let d = arrival_ms - now_ms;
    if d >= 0 {
        d / 1000
    } else {
        -((-d) / 1000)
    }
}

/// Seconds to wait for an arrival: the whole seconds left until `arrival` (none when it has
/// passed) plus `buffer`, or 30 seconds when the arrival time is unknown.
pub open spec fn arrival_wait(arrival_ms: Option<i64>, now_ms: i64, buffer: u64) -> int {
    match arrival_ms {
        Some(a) => {
            let s = whole_seconds_between(now_ms as int, a as int);
            (if s > 0 { s } else { 0 }) + buffer
        },
        None => 30,
    }
}

/// Seconds to wait for a ship that arrives at `arrival_ms` (see [`arrival_wait`]).
pub fn wait_for_arrival_seconds(arrival_ms: Option<i64>, now_ms: i64, buffer: u64) -> (r: u64)
    requires
        buffer <= u64::MAX - 18_446_744_073_709_551,
    ensures
        r as int == arrival_wait(arrival_ms, now_ms, buffer),
{
    match arrival_ms {
        Some(a) => {
            let d: i128 = a as i128 - now_ms as i128;
            let s: i128 = if d >= 0 { d / 1000 } else { -((-d) / 1000) };
            assert(d <= 18_446_744_073_709_551_615);
            assert(s <= 18_446_744_073_709_551) by (nonlinear_arith)
                requires
                    d <= 18_446_744_073_709_551_615,
                    s == if d >= 0 { d / 1000 } else { -((-d) / 1000) },
            ;
            let left: u64 = if s > 0 { s as u64 } else { 0 };
            left + buffer
        },
        None => 30,
    }
}

/// The current arrival wait, reading the clock: whole seconds until the relaxed-RFC 3339
/// `arrival` plus `buffer`, or 30 when `arrival` does not parse.
pub fn arrival_wait_now(arrival: &str, buffer: u64) -> (r: u64)
    requires
        buffer <= u64::MAX - 18_446_744_073_709_551,
    ensures
        exists|now: i64| r as int == arrival_wait(utc_datetime_millis(arrival@), now, buffer),
{
    let a = parse_utc_datetime_millis(arrival);
    let now = now_millis();
    wait_for_arrival_seconds(a, now, buffer)
}

/// Whole seconds since the epoch of a millisecond instant, rounded down (chrono's `timestamp`).
pub open spec fn epoch_seconds(ms: int) -> int {
    ms / 1000
}

/// Whole seconds since the epoch of a millisecond instant, rounded down.
pub fn to_epoch_seconds(ms: i64) -> (r: i64)
    ensures
        r as int == epoch_seconds(ms as int),
{
    let q = ms / 1000;
    let rem = ms % 1000;
    if rem < 0 {
        q - 1
    } else {
        q
    }
}

/// Seconds until an RFC 3339 arrival, as a ship in transit counts them: the difference of the
/// whole epoch seconds of arrival and now, at least 0; `None` when the arrival does not parse.
pub open spec fn transit_seconds_left(arrival_ms: Option<i64>, now_ms: i64) -> Option<int> {
    match arrival_ms {
        Some(a) => {
            let d = epoch_seconds(a as int) - epoch_seconds(now_ms as int);
            Some(if d > 0 { d } else { 0 })
        },
        None => None,
    }
}

/// Seconds until `arrival_ms` in whole epoch seconds (see [`transit_seconds_left`]).
pub fn seconds_left_in_transit(arrival_ms: Option<i64>, now_ms: i64) -> (r: Option<i64>)
    ensures
        match r {
            Some(v) => transit_seconds_left(arrival_ms, now_ms) == Some(v as int),
            None => transit_seconds_left(arrival_ms, now_ms) is None,
        },
{
    match arrival_ms {
        Some(a) => {
            let d = to_epoch_seconds(a) - to_epoch_seconds(now_ms);
            Some(if d > 0 { d } else { 0 })
        },
        None => None,
    }
}

/// Seconds until the RFC 3339 `arrival`, reading the clock.
pub fn transit_seconds_now(arrival: &str) -> (r: Option<i64>)
    ensures
        exists|now: i64| match r {
            Some(v) => transit_seconds_left(rfc3339_millis(arrival@), now) == Some(v as int),
            None => transit_seconds_left(rfc3339_millis(arrival@), now) is None,
        },
{
    let a = parse_rfc3339_millis(arrival);
    let now = now_millis();
    seconds_left_in_transit(a, now)
}

} // verus!
