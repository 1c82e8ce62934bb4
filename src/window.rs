use vstd::prelude::*;

use crate::error::LoadError;

verus! {

/// The span of frames a load covers: `length_frames` frames starting at
/// frame `offset_frames` of the track.
#[derive(Debug, Clone, Copy, PartialEq, Eq, Structural)]
pub struct DecodeWindow {
    pub offset_frames: u64,
    pub length_frames: u64,
}

/// Frames left in a track of `total` frames after `offset` frames.
pub open spec fn remaining_frames(total: u64, offset: u64) -> int {
    total - offset
}

/// The requested duration, or the rest of the track when none is given,
/// clamped to the rest of the track.
pub open spec fn clamped_length(total: u64, offset: u64, duration: Option<u64>) -> int {
    match duration {
        Some(d) => if d < remaining_frames(total, offset) {
            d as int
        } else {
            remaining_frames(total, offset)
        },
        None => remaining_frames(total, offset),
    }
}

/// The window that a request resolves to, or why it is refused.
pub open spec fn window_spec(total: u64, offset: u64, duration: Option<u64>) -> Result<
    DecodeWindow,
    LoadError,
> {
    if offset >= total || clamped_length(total, offset, duration) <= 0 {
        Err(LoadError::InvalidWindow)
    } else {
        Ok(DecodeWindow { offset_frames: offset, length_frames: clamped_length(total, offset, duration) as u64 })
    }
}

/// Resolves a request of `offset_frames` and an optional `duration_frames`
/// against a track of `total_frames` frames. The duration is clamped to the
/// rest of the track; an offset at or past the end, or a window without a
/// frame, is refused.
pub fn resolve_window(total_frames: u64, offset_frames: u64, duration_frames: Option<u64>) -> (r:
    Result<DecodeWindow, LoadError>)
    ensures
        r == window_spec(total_frames, offset_frames, duration_frames),
        r is Ok <==> (offset_frames < total_frames && duration_frames != Some(0u64)),
        offset_frames >= total_frames ==> r == Err::<DecodeWindow, LoadError>(
            LoadError::InvalidWindow,
        ),
{
    if offset_frames >= total_frames {
        return Err(LoadError::InvalidWindow);
    }
    let remaining: u64 = total_frames - offset_frames;
    let length: u64 = match duration_frames {
        Some(d) => if d < remaining {
            d
        } else {
            remaining
        },
        None => remaining,
    };
    if length == 0 {
        return Err(LoadError::InvalidWindow);
    }
    Ok(DecodeWindow { offset_frames, length_frames: length })
}

} // verus!
