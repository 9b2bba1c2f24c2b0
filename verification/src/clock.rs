use vstd::prelude::*;

verus! {

/// The largest timestamp this library ever formats: the last second of year
/// 9999, comfortably inside the range chrono can represent.
pub const MAX_FORMATTABLE_TS: i64 = 253402300799;

/// Relies on chrono::Utc::now: the current wall-clock time in whole seconds
/// since the Unix epoch.  Nothing is assumed of the value.
#[verifier::external_body]
pub fn now_unix() -> i64 {
    chrono::Utc::now().timestamp()
}

/// The RFC 3339 rendering of a timestamp (whole seconds since the Unix
/// epoch, in UTC): what chrono's formatter produces, a function of the
/// timestamp alone.
pub uninterp spec fn rfc3339_of(ts: int) -> Seq<char>;

/// Relies on chrono::DateTime::from_timestamp and DateTime::to_rfc3339: the
/// RFC 3339 rendering of the given timestamp.  The bound keeps the timestamp
/// inside the range chrono accepts.
#[verifier::external_body]
pub fn format_rfc3339(ts: i64) -> (r: String)
    requires
        0 <= ts <= MAX_FORMATTABLE_TS,
    ensures
        r@ == rfc3339_of(ts as int),
{
    match chrono::DateTime::<chrono::Utc>::from_timestamp(ts, 0) {
        Some(dt) => dt.to_rfc3339(),
        None => String::new(),
    }
}

} // verus!
