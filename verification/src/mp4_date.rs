use vstd::prelude::*;
use crate::errors::RenameError;
use crate::timestamp::{unix_timestamp_representable, valid_timestamp, MAX_TIMESTAMP_SECS};

verus! {

/// Seconds from the ISO-BMFF epoch (1904-01-01T00:00:00Z) to the unix epoch
/// (1970-01-01T00:00:00Z).
pub const MP4_EPOCH_OFFSET_SECS: u64 = 2082844800;

/// The date an ISO-BMFF movie header yields: its `creation_time` seconds
/// shifted from the 1904 epoch to the unix epoch, provided the shifted
/// value is a representable timestamp.  A field of zero counts as the 1904
/// epoch itself, not as absent.
pub open spec fn spec_mp4_date(creation_time: u64) -> Option<i64> {
    let ts = creation_time - MP4_EPOCH_OFFSET_SECS;
    if valid_timestamp(ts) {
        Some(ts as i64)
    } else {
        None
    }
}

/// Resolve the creation date of an ISO-BMFF movie header from its
/// `creation_time` field.  There is no secondary fallback: an
/// unrepresentable value fails outright.
pub fn resolve_mp4_date(creation_time: u64) -> (r: Result<i64, RenameError>)
    ensures
        spec_mp4_date(creation_time) matches Some(ts) ==> r == Ok::<i64, RenameError>(ts),
        spec_mp4_date(creation_time) is None ==> r == Err::<i64, RenameError>(
            RenameError::DateNotFound,
        ),
{
    if creation_time >= MP4_EPOCH_OFFSET_SECS {
        let diff: u64 = creation_time - MP4_EPOCH_OFFSET_SECS;
        if diff <= MAX_TIMESTAMP_SECS as u64 {
            let ts: i64 = diff as i64;
            if unix_timestamp_representable(ts) {
                Ok(ts)
            } else {
                Err(RenameError::DateNotFound)
            }
        } else {
            Err(RenameError::DateNotFound)
        }
    } else {
        let diff: u64 = MP4_EPOCH_OFFSET_SECS - creation_time;
        let ts: i64 = -(diff as i64);
        if unix_timestamp_representable(ts) {
            Ok(ts)
        } else {
            Err(RenameError::DateNotFound)
        }
    }
}

} // verus!
