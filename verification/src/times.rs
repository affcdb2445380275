//! Times as text.

use vstd::prelude::*;

verus! {

/// The text of RFC 3339 that `chrono` writes for a time in milliseconds of
/// Unix time, or nothing where the time is out of its range.
pub uninterp spec fn rfc3339_of(millis: i64) -> Option<Seq<char>>;

/// `chrono::DateTime::from_timestamp_millis`, then `to_rfc3339` of the time in
/// UTC: whether there is such a time, and its text, depend on the number alone.
#[verifier::external_body]
pub(crate) fn write_time(millis: i64) -> (r: Option<String>)
    ensures
        r.deep_view() == rfc3339_of(millis),
{
    match chrono::DateTime::<chrono::Utc>::from_timestamp_millis(millis) {
        Some(t) => Some(t.to_rfc3339()),
        None => None,
    }
}

/// The text of RFC 3339, with `Z` for UTC, that `chrono` writes for a time in
/// milliseconds of Unix time, or nothing where the time is out of its range.
pub uninterp spec fn rfc3339_z_of(millis: i64) -> Option<Seq<char>>;

/// `chrono::DateTime::from_timestamp_millis`, then `to_rfc3339_opts` of the
/// time in UTC with as many digits as it needs and `Z`: whether there is such a
/// time, and its text, depend on the number alone.
#[verifier::external_body]
pub(crate) fn write_time_z(millis: i64) -> (r: Option<String>)
    ensures
        r.deep_view() == rfc3339_z_of(millis),
{
    match chrono::DateTime::<chrono::Utc>::from_timestamp_millis(millis) {
        Some(t) => Some(t.to_rfc3339_opts(chrono::SecondsFormat::AutoSi, true)),
        None => None,
    }
}

/// The day of a time in milliseconds of Unix time, as `chrono` writes it.
pub uninterp spec fn date_of(millis: i64) -> Option<Seq<char>>;

/// `chrono::DateTime::from_timestamp_millis`, then `format` of the time in UTC
/// by `%Y-%m-%d`: whether there is such a time, and its day, depend on the
/// number alone.
#[verifier::external_body]
pub(crate) fn write_date(millis: i64) -> (r: Option<String>)
    ensures
        r.deep_view() == date_of(millis),
{
    chrono::DateTime::from_timestamp_millis(millis).map(|t| t.format("%Y-%m-%d").to_string())
}

} // verus!
