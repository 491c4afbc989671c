use vstd::prelude::*;

verus! {

/// Earliest unix-second value that counts as a representable timestamp:
/// -9999-01-01T00:00:00Z, the floor of the datetime library's default range.
pub const MIN_TIMESTAMP_SECS: i64 = -377705116800;

/// Latest unix-second value that counts as a representable timestamp:
/// 9999-12-31T23:59:59Z, the ceiling of the datetime library's default range.
pub const MAX_TIMESTAMP_SECS: i64 = 253402300799;

/// A unix-second count stands for an absolute point in time only while the
/// datetime library can represent it.
pub open spec fn valid_timestamp(ts: int) -> bool {
    MIN_TIMESTAMP_SECS <= ts <= MAX_TIMESTAMP_SECS
}

/// Relies on `time::OffsetDateTime::from_unix_timestamp`: with the crate's
/// default features it succeeds exactly on the seconds of the years
/// -9999..=9999, that is on `MIN_TIMESTAMP_SECS..=MAX_TIMESTAMP_SECS`.
#[verifier::external_body]
pub(crate) fn unix_timestamp_representable(ts: i64) -> (r: bool)
    ensures
        r == valid_timestamp(ts as int),
{
    time::OffsetDateTime::from_unix_timestamp(ts).is_ok()
}

/// Shift a resolved timestamp by the run-wide offset: plain signed-second
/// arithmetic, no timezone-rule lookup.  `None` only on `i64` overflow.
pub fn apply_offset(ts: i64, offset_secs: i32) -> (r: Option<i64>)
    ensures
        i64::MIN <= ts + offset_secs <= i64::MAX ==> r == Some((ts + offset_secs) as i64),
        !(i64::MIN <= ts + offset_secs <= i64::MAX) ==> r is None,
{
    ts.checked_add(offset_secs as i64)
}

} // verus!
