//! Calls into chrono and uuid, with what the library relies on of each.

use vstd::prelude::*;

verus! {

/// The RFC 3339 text of a UTC instant given in whole seconds since the Unix epoch.
pub uninterp spec fn rfc3339_of(secs: i64) -> Seq<char>;

/// Relies on `chrono::DateTime::<Utc>::from_timestamp`, which returns `None` only
/// when the day count leaves chrono's date range (far wider than years 0 to 9999),
/// and on `DateTime::to_rfc3339` for the text.
#[verifier::external_body]
pub(crate) fn format_timestamp(secs: i64) -> (r: Option<String>)
    ensures
        0 <= secs <= crate::store::MAX_TIMESTAMP ==> r is Some,
        r matches Some(text) ==> text@ == rfc3339_of(secs),
{
    chrono::DateTime::<chrono::Utc>::from_timestamp(secs, 0).map(|d| d.to_rfc3339())
}

/// Relies on `uuid::Uuid::new_v4` and its hyphenated `to_string`: a fresh random
/// identifier. Nothing is known of its value.
#[verifier::external_body]
pub(crate) fn fresh_id() -> (r: String) {
    uuid::Uuid::new_v4().to_string()
}

} // verus!
