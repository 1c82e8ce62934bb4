use vstd::prelude::*;

use crate::error::LoadError;

verus! {

/// The header fields of a track that a load needs.
#[derive(Debug, Clone, Copy, PartialEq, Eq, Structural)]
pub struct TrackMeta {
    pub channels: usize,
    pub total_frames: u64,
    pub sample_rate: u32,
}

/// The metadata a track header yields, or `MissingMetadata` when a field is
/// absent; a channel count of zero counts as absent.
pub open spec fn meta_spec(channels: Option<usize>, total_frames: Option<u64>, sample_rate: Option<u32>) -> Result<TrackMeta, LoadError> {
    match (channels, total_frames, sample_rate) {
        (Some(c), Some(n), Some(sr)) => if c > 0 {
            Ok(TrackMeta { channels: c, total_frames: n, sample_rate: sr })
        } else {
            Err(LoadError::MissingMetadata)
        },
        _ => Err(LoadError::MissingMetadata),
    }
}

/// The sample rate a header reports, as the signed integer that callers
/// receive, or why it cannot be given.
pub open spec fn samplerate_spec(sample_rate: Option<u32>) -> Result<i32, LoadError> {
    match sample_rate {
        Some(sr) => if sr <= i32::MAX {
            Ok(sr as i32)
        } else {
            Err(LoadError::ConversionOverflow)
        },
        None => Err(LoadError::MissingMetadata),
    }
}

impl TrackMeta {
    /// Builds the metadata from the optional header fields; nothing absent is
    /// estimated.
    pub fn from_header(channels: Option<usize>, total_frames: Option<u64>, sample_rate: Option<u32>) -> (r: Result<TrackMeta, LoadError>)
        ensures
            r == meta_spec(channels, total_frames, sample_rate),
    {
        match (channels, total_frames, sample_rate) {
            (Some(c), Some(n), Some(sr)) => if c > 0 {
                Ok(TrackMeta { channels: c, total_frames: n, sample_rate: sr })
            } else {
                Err(LoadError::MissingMetadata)
            },
            _ => Err(LoadError::MissingMetadata),
        }
    }
}

/// The sample rate of a track from its header field: `MissingMetadata` when
/// the header has none, `ConversionOverflow` when it exceeds `i32::MAX`.
pub fn get_samplerate(sample_rate: Option<u32>) -> (r: Result<i32, LoadError>)
    ensures
        r == samplerate_spec(sample_rate),
{
    match sample_rate {
        Some(sr) => if sr <= 2147483647u32 {
            Ok(sr as i32)
        } else {
            Err(LoadError::ConversionOverflow)
        },
        None => Err(LoadError::MissingMetadata),
    }
}

/// The sample rate that a load works with and the one `get_samplerate`
/// reports are the same header field: whenever the header is complete and the
/// rate fits an `i32`, both give the same number.
pub proof fn lemma_samplerate_agrees(channels: Option<usize>, total_frames: Option<u64>, sample_rate: Option<u32>)
    requires
        meta_spec(channels, total_frames, sample_rate) is Ok,
        meta_spec(channels, total_frames, sample_rate)->Ok_0.sample_rate <= i32::MAX,
    ensures
        samplerate_spec(sample_rate) == Ok::<i32, LoadError>(
            meta_spec(channels, total_frames, sample_rate)->Ok_0.sample_rate as i32,
        ),
{
}

} // verus!
