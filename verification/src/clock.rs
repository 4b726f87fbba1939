//! Timestamps as ISO-like strings.

use vstd::prelude::*;

verus! {

/// The "YYYY-MM-DD HH:MM:SS" rendering of an epoch-second count. The string
/// depends on the count alone.
pub uninterp spec fn datetime_string_of(t: int) -> Seq<char>;

/// Relies on chrono: converting epoch seconds through `DateTime<Utc>` to a
/// `NaiveDateTime` and printing it with its `Display` impl, which writes the
/// ISO 8601 date, a space, and the time, 19 characters for these inputs.
#[verifier::external_body]
pub fn timestamp_to_datetime_string(time: i64) -> (r: String)
    requires
        0 <= time <= 253_402_300_799,
    ensures
        r@ == datetime_string_of(time as int),
        r@.len() == 19,
{
    let d = std::time::UNIX_EPOCH + std::time::Duration::from_secs(time as u64);
    let datetime = chrono::DateTime::<chrono::Utc>::from(d);
    datetime.naive_utc().to_string()
}

/// Relies on chrono::Local::now and `NaiveDateTime`'s `Display` impl: the
/// current local time as a string of at least date, space, and time.
#[verifier::external_body]
pub(crate) fn now_datetime() -> (r: String)
    ensures
        r@.len() >= 19,
{
    chrono::Local::now().naive_local().to_string()
}

} // verus!
