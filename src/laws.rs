use vstd::prelude::*;

use crate::window::{clamped_length, window_spec, DecodeWindow};
use crate::error::LoadError;

verus! {

/// A request that fits in the track is honoured exactly: the window starts at
/// the requested offset and spans the requested number of frames, and the
/// matrix that a full collector yields has that many frames.
pub proof fn lemma_request_within_bounds(total: u64, offset: u64, duration: u64)
    requires
        offset < total,
        0 < duration <= total - offset,
    ensures
        window_spec(total, offset, Some(duration)) == Ok::<DecodeWindow, LoadError>(
            DecodeWindow { offset_frames: offset, length_frames: duration },
        ),
        clamped_length(total, offset, Some(duration)) == duration,
{
}

/// An offset at or beyond the end of the track is refused with
/// `InvalidWindow`, whatever duration is asked for.
pub proof fn lemma_offset_past_end(total: u64, offset: u64, duration: Option<u64>)
    requires
        offset >= total,
    ensures
        window_spec(total, offset, duration) == Err::<DecodeWindow, LoadError>(LoadError::InvalidWindow),
{
}

/// A duration longer than the rest of the track, or none at all, is clamped
/// to the rest of the track rather than refused.
pub proof fn lemma_duration_clamped(total: u64, offset: u64, duration: Option<u64>)
    requires
        offset < total,
        match duration {
            Some(d) => d >= total - offset,
            None => true,
        },
    ensures
        window_spec(total, offset, duration) == Ok::<DecodeWindow, LoadError>(
            DecodeWindow { offset_frames: offset, length_frames: (total - offset) as u64 },
        ),
{
}

} // verus!
