use vstd::prelude::*;

use crate::error::LoadError;

verus! {

/// Where a duration query takes its answer from, in order of priority.
#[derive(Debug, Clone, Copy, PartialEq, Eq, Structural)]
pub enum DurationSource {
    /// The header of an audio file.
    File,
    /// The shape of a time-frequency representation.
    Spectrogram,
    /// A decoded buffer and its sample rate.
    Buffer,
}

/// A span of audio as a count of samples per channel at a sample rate; its
/// length in seconds is `samples / rate`.
#[derive(Debug, Clone, Copy, PartialEq, Eq, Structural)]
pub struct SampleSpan {
    pub samples: i128,
    pub rate: u32,
}

/// The source a query uses: a file wins over a spectrogram, which wins over
/// a buffer; a query with none of them is refused.
pub open spec fn source_spec(has_file: bool, has_spectrogram: bool, has_buffer: bool) -> Result<DurationSource, LoadError> {
    if has_file {
        Ok(DurationSource::File)
    } else if has_spectrogram {
        Ok(DurationSource::Spectrogram)
    } else if has_buffer {
        Ok(DurationSource::Buffer)
    } else {
        Err(LoadError::InvalidArgument)
    }
}

/// Picks the source of a duration query.
pub fn select_duration_source(has_file: bool, has_spectrogram: bool, has_buffer: bool) -> (r: Result<DurationSource, LoadError>)
    ensures
        r == source_spec(has_file, has_spectrogram, has_buffer),
{
    if has_file {
        Ok(DurationSource::File)
    } else if has_spectrogram {
        Ok(DurationSource::Spectrogram)
    } else if has_buffer {
        Ok(DurationSource::Buffer)
    } else {
        Err(LoadError::InvalidArgument)
    }
}

/// Samples per channel behind `n_frames` columns of a time-frequency
/// representation: one window, then one hop per further column; a centred
/// representation loses `n_fft / 2` samples at each end.
pub open spec fn spectrogram_samples_spec(n_frames: i32, n_fft: i32, hop_length: i32, center: bool) -> int {
    let uncentred = n_fft + hop_length * (n_frames - 1);
    if center {
        uncentred - 2 * (n_fft / 2)
    } else {
        uncentred
    }
}

/// Computes `spectrogram_samples_spec` exactly.
fn spectrogram_samples(n_frames: i32, n_fft: i32, hop_length: i32, center: bool) -> (r: i128)
    requires
        n_fft > 0,
    ensures
        r == spectrogram_samples_spec(n_frames, n_fft, hop_length, center),
{
    proof {
        assert(-0x8000_0000_0000_0000 <= (hop_length as int) * ((n_frames as int) - 1) <= 0x8000_0000_0000_0000) by (nonlinear_arith)
            requires
                -0x8000_0000 <= hop_length < 0x8000_0000,
                -0x8000_0001 <= (n_frames as int) - 1 < 0x8000_0000,
        ;
    }
    let n_fft = n_fft as i128;
    let uncentred: i128 = n_fft + (hop_length as i128) * (n_frames as i128 - 1);
    if center {
        uncentred - 2 * (n_fft / 2)
    } else {
        uncentred
    }
}

/// The span a spectrogram of dimensions `dims` stands for. The sample rate,
/// the window size and the hop must be positive and the representation must
/// have three dimensions (time, frequency, channel); else `InvalidArgument`.
pub fn spectrogram_span(dims: &Vec<i32>, sr: i32, n_fft: i32, hop_length: i32, center: bool) -> (r: Result<SampleSpan, LoadError>)
    ensures
        r is Ok <==> (sr > 0 && n_fft > 0 && hop_length > 0 && dims@.len() == 3),
        r is Err ==> r == Err::<SampleSpan, LoadError>(LoadError::InvalidArgument),
        r matches Ok(span) ==> span.rate == sr && span.samples == spectrogram_samples_spec(
            dims@[0],
            n_fft,
            hop_length,
            center,
        ),
{
    if sr <= 0 || n_fft <= 0 || hop_length <= 0 || dims.len() != 3 {
        return Err(LoadError::InvalidArgument);
    }
    let samples = spectrogram_samples(dims[0], n_fft, hop_length, center);
    Ok(SampleSpan { samples, rate: sr as u32 })
}

/// The span of a decoded buffer of `n_rows` samples per channel at rate
/// `sr`, which must be positive; else `InvalidArgument`.
pub fn buffer_span(n_rows: usize, sr: i32) -> (r: Result<SampleSpan, LoadError>)
    ensures
        r is Ok <==> sr > 0,
        r is Err ==> r == Err::<SampleSpan, LoadError>(LoadError::InvalidArgument),
        r matches Ok(span) ==> span.rate == sr && span.samples == n_rows,
{
    if sr <= 0 {
        return Err(LoadError::InvalidArgument);
    }
    Ok(SampleSpan { samples: n_rows as i128, rate: sr as u32 })
}

/// The span of a file from its header: its frame count at its sample rate;
/// `MissingMetadata` when either field is absent.
pub fn file_span(total_frames: Option<u64>, sample_rate: Option<u32>) -> (r: Result<SampleSpan, LoadError>)
    ensures
        r is Ok <==> (total_frames is Some && sample_rate is Some),
        r is Err ==> r == Err::<SampleSpan, LoadError>(LoadError::MissingMetadata),
        r matches Ok(span) ==> span.samples == total_frames->Some_0 && span.rate
            == sample_rate->Some_0,
{
    match (total_frames, sample_rate) {
        (Some(n), Some(sr)) => Ok(SampleSpan { samples: n as i128, rate: sr }),
        _ => Err(LoadError::MissingMetadata),
    }
}

} // verus!
