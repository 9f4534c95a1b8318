//! The wall clock, as milliseconds since the Unix epoch, and the text
//! forms of an instant that the protocol uses.

use chrono::{DateTime, SecondsFormat, Utc};
use vstd::prelude::*;

verus! {

/// The calendar has an instant that lies `millis` milliseconds after the
/// Unix epoch.
pub uninterp spec fn utc_instant(millis: int) -> bool;

/// The instant `millis` as `YYYY-MM-DDTHH:MM:SS.mmmZ`, the form of a
/// WS-Security `Created` element.
pub uninterp spec fn created_text(millis: int) -> Seq<char>;

/// The instant `millis` in RFC 3339 form with milliseconds and `Z`.
pub uninterp spec fn rfc3339_millis_text(millis: int) -> Seq<char>;

/// The instant `millis` in RFC 3339 form with whole seconds and `Z`.
pub uninterp spec fn rfc3339_seconds_text(millis: int) -> Seq<char>;

/// The current time.
///
/// Trusted: `chrono::Utc::now` and `DateTime::timestamp_millis`. The
/// contract claims only that the calendar has the instant returned, which
/// chrono documents as the round trip between `timestamp_millis` and
/// `from_timestamp_millis`.
#[verifier::external_body]
pub(crate) fn now_millis() -> (millis: i64)
    ensures
        utc_instant(millis as int),
{
    Utc::now().timestamp_millis()
}

/// The `Created` text of an instant.
///
/// Trusted: `chrono::DateTime::from_timestamp_millis`, which has no
/// instant for a number out of range, and `DateTime::format` with
/// `%Y-%m-%dT%H:%M:%S%.3fZ`. The contract names the text.
#[verifier::external_body]
pub(crate) fn created_stamp(millis: i64) -> (text: Option<String>)
    ensures
        text is Some <==> utc_instant(millis as int),
        text matches Some(t) ==> t@ == created_text(millis as int),
{
    DateTime::from_timestamp_millis(millis).map(|t| t.format("%Y-%m-%dT%H:%M:%S%.3fZ").to_string())
}

/// The RFC 3339 text of an instant, with milliseconds.
///
/// Trusted: `chrono::DateTime::from_timestamp_millis` and
/// `DateTime::to_rfc3339_opts` with `SecondsFormat::Millis` and `Z`. The
/// contract names the text.
#[verifier::external_body]
pub(crate) fn rfc3339_millis(millis: i64) -> (text: Option<String>)
    ensures
        text is Some <==> utc_instant(millis as int),
        text matches Some(t) ==> t@ == rfc3339_millis_text(millis as int),
{
    DateTime::from_timestamp_millis(millis).map(|t| t.to_rfc3339_opts(SecondsFormat::Millis, true))
}

/// The RFC 3339 text of an instant, with whole seconds.
///
/// Trusted: `chrono::DateTime::from_timestamp_millis` and
/// `DateTime::to_rfc3339_opts` with `SecondsFormat::Secs` and `Z`. The
/// contract names the text.
#[verifier::external_body]
pub(crate) fn rfc3339_seconds(millis: i64) -> (text: Option<String>)
    ensures
        text is Some <==> utc_instant(millis as int),
        text matches Some(t) ==> t@ == rfc3339_seconds_text(millis as int),
{
    DateTime::from_timestamp_millis(millis).map(|t| t.to_rfc3339_opts(SecondsFormat::Secs, true))
}

} // verus!
