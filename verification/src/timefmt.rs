//! Wall-clock readings and RFC 3339 timestamp text, through chrono.
//!
//! Instants are carried through the library as milliseconds since the
//! Unix epoch; only the rendering to and from RFC 3339 text is done by
//! chrono, behind the trusted wrappers below.

use vstd::prelude::*;

verus! {

/// The RFC 3339 rendering of the UTC instant `millis` milliseconds after
/// the Unix epoch, or nothing when the instant lies outside chrono's
/// representable range.
pub uninterp spec fn rfc3339_of(millis: i64) -> Option<Seq<char>>;

/// The instant a timestamp denotes, in milliseconds since the Unix
/// epoch, or nothing when the text is not one. The reading is chrono's,
/// which accepts RFC 3339 with slight relaxations (a space separator,
/// a colon-free offset).
pub uninterp spec fn rfc3339_millis_of(s: Seq<char>) -> Option<i64>;

/// Reads the wall clock. Relies on std's SystemTime: `now` followed by
/// `duration_since(UNIX_EPOCH)`, whose error carries the magnitude when
/// the clock stands before the epoch, so the reading is handed back as
/// a signed offset in milliseconds and no clock state panics. Nothing
/// is promised of the value; callers state what holds of any reading.
#[verifier::external_body]
pub(crate) fn now_unix_millis() -> i64 {
    match std::time::SystemTime::now().duration_since(std::time::UNIX_EPOCH) {
        Ok(ahead) => ahead.as_millis() as i64,
        Err(behind) => -(behind.duration().as_millis() as i64),
    }
}

/// Relies on chrono's DateTime::from_timestamp_millis, which returns
/// None exactly on out-of-range input, and DateTime::to_rfc3339; both
/// depend on their arguments alone.
#[verifier::external_body]
pub(crate) fn format_rfc3339(millis: i64) -> (r: Option<String>)
    ensures
        r matches Some(s) ==> rfc3339_of(millis) == Some(s@),
        r is Some <==> rfc3339_of(millis) is Some,
{
    match chrono::DateTime::<chrono::Utc>::from_timestamp_millis(millis) {
        Some(dt) => Some(dt.to_rfc3339()),
        None => None,
    }
}

/// Relies on chrono's FromStr for DateTime<Utc> together with
/// DateTime::timestamp_millis: reads RFC 3339 text back into
/// milliseconds since the epoch; both depend on their arguments alone.
#[verifier::external_body]
pub(crate) fn parse_rfc3339(s: &str) -> (r: Option<i64>)
    ensures
        r == rfc3339_millis_of(s@),
{
    match s.parse::<chrono::DateTime<chrono::Utc>>() {
        Ok(dt) => Some(dt.timestamp_millis()),
        Err(_) => None,
    }
}

/// The RFC 3339 text for `millis`, with the out-of-range case collapsed
/// to the empty string.
pub open spec fn rfc3339_or_empty(millis: i64) -> Seq<char> {
    match rfc3339_of(millis) {
        Some(s) => s,
        None => Seq::<char>::empty(),
    }
}

pub(crate) fn format_rfc3339_or_empty(millis: i64) -> (r: String)
    ensures
        r@ == rfc3339_or_empty(millis),
{
    match format_rfc3339(millis) {
        Some(s) => s,
        None => String::new(),
    }
}

} // verus!
