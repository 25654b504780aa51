//! Time handling: reading the clock, parsing provider timestamps, and
//! flooring an instant to the start of its hour.
//!
//! Instants are carried as whole seconds since the Unix epoch.

use vstd::prelude::*;

verus! {

/// The number of seconds since the Unix epoch that the RFC 3339 text denotes,
/// or `None` where the text is not a valid RFC 3339 date-time.
pub uninterp spec fn rfc3339_secs_of(s: Seq<char>) -> Option<i64>;

/// Relies on `chrono::DateTime::parse_from_rfc3339` and
/// `chrono::DateTime::timestamp`: the parse result depends on the text alone,
/// and `timestamp` returns the represented instant as whole seconds since the
/// Unix epoch.
#[verifier::external_body]
pub(crate) fn parse_rfc3339_secs(s: &str) -> (r: Option<i64>)
    ensures
        r == rfc3339_secs_of(s@),
{
    match chrono::DateTime::parse_from_rfc3339(s) {
        Ok(dt) => Some(dt.timestamp()),
        Err(_) => None,
    }
}

/// Relies on `chrono::Utc::now` and `chrono::DateTime::timestamp`: reads the
/// system clock. Nothing is promised of the value.
#[verifier::external_body]
pub(crate) fn now_epoch_seconds() -> i64 {
    chrono::Utc::now().timestamp()
}

/// Relies on `chrono::DateTime::from_timestamp` (documented to return `Some`
/// for any number of seconds within roughly 262,000 years of the common era,
/// which covers the admitted range), `DateTime::with_timezone` with the
/// machine's local time zone, and `Timelike::hour` (documented to return a
/// number from 0 to 23). The local hour depends on the machine's time zone,
/// so only the range is promised.
#[verifier::external_body]
pub(crate) fn local_hour_of(ts: i64) -> (r: u8)
    requires
        0 <= ts < 100_000_000_000,
    ensures
        r < 24,
{
    let dt = chrono::DateTime::from_timestamp(ts, 0).unwrap();
    chrono::Timelike::hour(&dt.with_timezone(&chrono::Local)) as u8
}

/// The start of the hour that `ts` lies in: minutes and seconds zeroed.
pub fn hour_floor(ts: i64) -> (r: i64)
    requires
        ts >= 0,
    ensures
        r == ts - (ts % 3600),
        r % 3600 == 0,
        r <= ts < r + 3600,
{
    let m = ts % 3600;
    proof {
        vstd::arithmetic::div_mod::lemma_fundamental_div_mod(ts as int, 3600);
        vstd::arithmetic::div_mod::lemma_mod_multiples_basic(ts / 3600, 3600);
    }
    ts - m
}

/// The start of the current hour in UTC, as seconds since the Unix epoch.
/// A clock that reads before the epoch is treated as reading the epoch.
pub fn current_hour_start() -> (r: i64)
    ensures
        r >= 0,
        r % 3600 == 0,
{
    let n = now_epoch_seconds();
    let n = if n < 0 { 0 } else { n };
    hour_floor(n)
}

} // verus!
