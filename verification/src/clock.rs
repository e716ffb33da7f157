//! Time: the clock, which nothing here can predict (these items say
//! nothing of the instants and dates they give), and the parsing of
//! written dates.

use vstd::prelude::*;
use std::time::{Duration, Instant};

verus! {

/// `std::time::Instant`, carried through as an opaque value.
#[verifier::external_type_specification]
#[verifier::external_body]
pub struct ExInstant(std::time::Instant);

/// `Instant::now`: the current instant.
#[verifier::external_body]
pub(crate) fn now() -> (r: Instant) {
    Instant::now()
}

/// `Instant::checked_add`: the instant `d` after `t`, or `None` when the
/// clock cannot represent it.
#[verifier::external_body]
pub(crate) fn instant_after(t: Instant, d: Duration) -> (r: Option<Instant>) {
    t.checked_add(d)
}

/// `Instant < Instant`: whether `a` comes before `b`.
#[verifier::external_body]
pub(crate) fn instant_before(a: &Instant, b: &Instant) -> (r: bool) {
    a < b
}

/// `Instant::elapsed` in whole milliseconds: the time since `t`.
#[verifier::external_body]
pub(crate) fn millis_since(t: &Instant) -> (r: u64) {
    t.elapsed().as_millis() as u64
}

/// `Instant::elapsed` in whole seconds: the time since `t`.
#[verifier::external_body]
pub(crate) fn secs_since(t: &Instant) -> (r: u64) {
    t.elapsed().as_secs()
}


/// `chrono::Utc::now`, written as RFC 3339 with milliseconds and `Z`: the
/// current time.
#[verifier::external_body]
pub(crate) fn now_rfc3339() -> (r: String) {
    chrono::Utc::now().to_rfc3339_opts(chrono::SecondsFormat::Millis, true)
}

/// `chrono::Utc::now`, written as `YYYY-MM-DD`: today's date in UTC.
#[verifier::external_body]
pub(crate) fn today_utc() -> (r: String) {
    chrono::Utc::now().format("%Y-%m-%d").to_string()
}


/// What `chrono::DateTime::parse_from_rfc3339` followed by
/// `timestamp_millis` gives for a text: milliseconds since the epoch, or
/// `None` when the text is no RFC 3339 date and time.
pub uninterp spec fn rfc3339_millis_of(s: Seq<char>) -> Option<i64>;

/// `chrono::DateTime::parse_from_rfc3339`, as milliseconds since the epoch.
#[verifier::external_body]
pub(crate) fn parse_rfc3339_millis(s: &str) -> (r: Option<i64>)
    ensures
        r == rfc3339_millis_of(s@),
{
    chrono::DateTime::parse_from_rfc3339(s).ok().map(|d| d.timestamp_millis())
}

/// What `chrono::NaiveDate::parse_from_str` with format `fmt` gives for a
/// text, taken at midnight UTC, in milliseconds since the epoch; `None`
/// when the text is no such date.
pub uninterp spec fn date_start_millis_of(s: Seq<char>, fmt: Seq<char>) -> Option<i64>;

/// `chrono::NaiveDate::parse_from_str`, at midnight UTC, as milliseconds
/// since the epoch.
#[verifier::external_body]
pub(crate) fn parse_date_start_millis(s: &str, fmt: &str) -> (r: Option<i64>)
    ensures
        r == date_start_millis_of(s@, fmt@),
{
    chrono::NaiveDate::parse_from_str(s, fmt)
        .ok()
        .and_then(|d| d.and_hms_opt(0, 0, 0))
        .map(|t| t.and_utc().timestamp_millis())
}

} // verus!
