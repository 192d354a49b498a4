//! Instants, and the calendar work that chrono does on them.

use std::fmt::Write;
use vstd::prelude::*;

verus! {

/// An instant on the UTC time line: whole seconds since 1970-01-01T00:00:00Z,
/// and the nanoseconds into that second.
#[derive(Clone, Copy, Debug, PartialEq, Eq, Structural)]
pub struct Timestamp {
    pub secs: i64,
    pub nanos: u32,
}

/// The RFC 3339 text of an instant, as chrono writes it for a UTC date and
/// time: `None` for an instant outside chrono's range.
pub uninterp spec fn rfc3339_text(secs: i64, nanos: u32) -> Option<Seq<char>>;

/// The instant that chrono reads from `text` under the strftime `format`,
/// taking the date and time as UTC: `None` where the text does not parse.
pub uninterp spec fn naive_utc_instant(text: Seq<char>, format: Seq<char>) -> Option<Timestamp>;

/// The instant that chrono reads from an RFC 3339 date and time: `None` where
/// the text does not parse.
pub uninterp spec fn rfc3339_instant(text: Seq<char>) -> Option<Timestamp>;

/// Calls `chrono::DateTime::from_timestamp` and then
/// `DateTime::to_rfc3339_opts(SecondsFormat::AutoSi, true)`, the form in which
/// chrono serialises a `DateTime<Utc>`. Claimed: the text depends on the
/// instant alone, and there is none exactly when `from_timestamp` refuses
/// the instant.
#[verifier::external_body]
pub(crate) fn instant_text(at: Timestamp) -> (text: Option<String>)
    ensures
        match text {
            Some(t) => rfc3339_text(at.secs, at.nanos) == Some(t@),
            None => rfc3339_text(at.secs, at.nanos) is None,
        },
{
    match chrono::DateTime::from_timestamp(at.secs, at.nanos) {
        Some(moment) => Some(moment.to_rfc3339_opts(chrono::SecondsFormat::AutoSi, true)),
        None => None,
    }
}

/// Calls `chrono::NaiveDateTime::parse_from_str` and reads the result as UTC.
/// Claimed: the instant depends on the text and the format alone, and there
/// is none exactly when chrono returns an error.
#[verifier::external_body]
pub(crate) fn parse_naive_utc(text: &str, format: &str) -> (at: Option<Timestamp>)
    ensures
        at == naive_utc_instant(text@, format@),
{
    match chrono::NaiveDateTime::parse_from_str(text, format) {
        Ok(naive) => {
            let moment = naive.and_utc();
            Some(Timestamp { secs: moment.timestamp(), nanos: moment.timestamp_subsec_nanos() })
        },
        Err(_) => None,
    }
}

/// Calls `chrono::DateTime::parse_from_rfc3339`. Claimed: the instant depends
/// on the text alone, and there is none exactly when chrono returns an error.
#[verifier::external_body]
pub(crate) fn parse_rfc3339(text: &str) -> (at: Option<Timestamp>)
    ensures
        at == rfc3339_instant(text@),
{
    match chrono::DateTime::parse_from_rfc3339(text) {
        Ok(moment) => Some(
            Timestamp { secs: moment.timestamp(), nanos: moment.timestamp_subsec_nanos() },
        ),
        Err(_) => None,
    }
}

/// The text that chrono writes for an instant under the strftime `format`:
/// `None` for an instant outside chrono's range, and for a format that
/// chrono cannot write.
pub uninterp spec fn formatted_instant(secs: i64, nanos: u32, format: Seq<char>) -> Option<
    Seq<char>,
>;

/// The text that chrono writes for a UTC date and time with `Display`, as
/// in `2026-04-16 00:00:00 UTC`: `None` for an instant outside chrono's
/// range.
pub uninterp spec fn displayed_instant(secs: i64, nanos: u32) -> Option<Seq<char>>;

/// The start of the day of an instant, as chrono truncates a date and time
/// to whole days: `None` for an instant outside the range in which chrono
/// truncates.
pub uninterp spec fn day_start(secs: i64, nanos: u32) -> Option<Timestamp>;

/// The words that chrono_humanize finds for the span from `now` to `at`,
/// as in `in 2 months` or `3 days ago`: `None` where one of the two is
/// outside chrono's range.
pub uninterp spec fn human_span(at: Timestamp, now: Timestamp) -> Option<Seq<char>>;

/// Calls `chrono::DateTime::from_timestamp`, then `DateTime::format`, and
/// writes the result. Claimed: the text depends on the instant and the
/// format alone.
#[verifier::external_body]
pub(crate) fn format_instant(at: Timestamp, format: &str) -> (text: Option<String>)
    ensures
        match text {
            Some(t) => formatted_instant(at.secs, at.nanos, format@) == Some(t@),
            None => formatted_instant(at.secs, at.nanos, format@) is None,
        },
{
    let moment = chrono::DateTime::from_timestamp(at.secs, at.nanos)?;
    let mut out = String::new();
    match write!(out, "{}", moment.format(format)) {
        Ok(()) => Some(out),
        Err(_) => None,
    }
}

/// Calls `chrono::DateTime::from_timestamp` and writes the result with
/// `to_string`. Claimed: the text depends on the instant alone.
#[verifier::external_body]
pub(crate) fn display_instant(at: Timestamp) -> (text: Option<String>)
    ensures
        match text {
            Some(t) => displayed_instant(at.secs, at.nanos) == Some(t@),
            None => displayed_instant(at.secs, at.nanos) is None,
        },
{
    let moment = chrono::DateTime::from_timestamp(at.secs, at.nanos)?;
    Some(moment.to_string())
}

/// Calls `chrono::DateTime::from_timestamp`, then
/// `DurationRound::duration_trunc` with `TimeDelta::days(1)`. Claimed: the
/// result depends on the instant alone, and there is none exactly when
/// chrono refuses the instant or returns an error.
#[verifier::external_body]
pub(crate) fn truncate_to_day(at: Timestamp) -> (day: Option<Timestamp>)
    ensures
        day == day_start(at.secs, at.nanos),
{
    let moment = chrono::DateTime::from_timestamp(at.secs, at.nanos)?;
    let start = chrono::DurationRound::duration_trunc(moment, chrono::TimeDelta::days(1)).ok()?;
    Some(Timestamp { secs: start.timestamp(), nanos: start.timestamp_subsec_nanos() })
}

/// Calls `chrono::DateTime::from_timestamp` on both instants, takes their
/// difference, and writes `chrono_humanize::HumanTime::from` of it with
/// `to_string`. Claimed: the words depend on the two instants alone.
#[verifier::external_body]
pub(crate) fn humanize_span(at: Timestamp, now: Timestamp) -> (text: Option<String>)
    ensures
        match text {
            Some(t) => human_span(at, now) == Some(t@),
            None => human_span(at, now) is None,
        },
{
    let then = chrono::DateTime::from_timestamp(at.secs, at.nanos)?;
    let current = chrono::DateTime::from_timestamp(now.secs, now.nanos)?;
    Some(chrono_humanize::HumanTime::from(then - current).to_string())
}

/// The instant that a date of a provider names, in either of the two forms
/// in which providers write dates: year, month, day, hour, minute and
/// second, taken as UTC, or else RFC 3339. A date in neither form names
/// none.
pub open spec fn wire_instant(text: Seq<char>) -> Option<Timestamp> {
    match naive_utc_instant(text, "%Y-%m-%d %H:%M:%S"@) {
        Some(at) => Some(at),
        None => rfc3339_instant(text),
    }
}

/// The instant that a date of a provider names.
pub fn read_instant(text: &str) -> (at: Option<Timestamp>)
    ensures
        at == wire_instant(text@),
{
    match parse_naive_utc(text, "%Y-%m-%d %H:%M:%S") {
        Some(at) => Some(at),
        None => parse_rfc3339(text),
    }
}

} // verus!
