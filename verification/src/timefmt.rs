//! Calendar rendering of event timestamps (seconds since the Unix epoch,
//! UTC). The calendar arithmetic itself is chrono's; the two results are
//! named, deterministic functions of the timestamp alone.

use vstd::prelude::*;

verus! {

/// Earliest supported event timestamp: 0001-01-01T00:00:00Z.
pub const MIN_EVENT_TS: i64 = -62135596800;

/// Latest supported event timestamp: 9999-12-31T23:59:59Z.
pub const MAX_EVENT_TS: i64 = 253402300799;

/// The UTC calendar date of a timestamp, as `YYYY-MM-DD`.
pub uninterp spec fn date_of(ts: int) -> Seq<char>;

/// The full UTC rendering of a timestamp, e.g. `2015-05-15 00:00:00 UTC`.
pub uninterp spec fn utc_display_of(ts: int) -> Seq<char>;

/// Relies on chrono's `DateTime::<Utc>::from_timestamp` and `format`: for a
/// timestamp within the supported year range the conversion succeeds, and
/// `%Y-%m-%d` renders its UTC calendar date, a function of the timestamp
/// alone.
#[verifier::external_body]
pub fn format_date(ts: i64) -> (r: String)
    requires
        MIN_EVENT_TS <= ts <= MAX_EVENT_TS,
    ensures
        r@ == date_of(ts as int),
{
    match chrono::DateTime::from_timestamp(ts, 0) {
        Some(dt) => dt.format("%Y-%m-%d").to_string(),
        None => String::new(),
    }
}

/// Relies on chrono's `DateTime::<Utc>::from_timestamp` and the `Display` of
/// `DateTime<Utc>`: within the supported range the conversion succeeds and
/// the rendering is a function of the timestamp alone.
#[verifier::external_body]
pub fn format_utc(ts: i64) -> (r: String)
    requires
        MIN_EVENT_TS <= ts <= MAX_EVENT_TS,
    ensures
        r@ == utc_display_of(ts as int),
{
    match chrono::DateTime::from_timestamp(ts, 0) {
        Some(dt) => dt.to_string(),
        None => String::new(),
    }
}

} // verus!
