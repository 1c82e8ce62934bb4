use audiotest::duration::{
    buffer_span, file_span, select_duration_source, spectrogram_span, DurationSource, SampleSpan,
};
use audiotest::error::LoadError;
use audiotest::matrix::AudioMatrix;
use audiotest::playback::PlaybackCursor;

#[test]
fn channel_major_round_trip() {
    let m = AudioMatrix::from_channel_major(2, 3, vec![1, 2, 3, 4, 5, 6]).unwrap();
    assert_eq!(m.get(0, 2), 3);
    assert_eq!(m.get(1, 0), 4);
    assert_eq!(m.interleave(), vec![1, 4, 2, 5, 3, 6]);
    let back = AudioMatrix::from_interleaved(2, 3, &vec![1, 4, 2, 5, 3, 6]);
    assert_eq!(back.into_data(), vec![1, 2, 3, 4, 5, 6]);
}

#[test]
fn wrong_sample_count_is_refused() {
    assert!(AudioMatrix::from_channel_major(2, 3, vec![1, 2, 3]).is_none());
    assert!(AudioMatrix::<u8>::from_channel_major(usize::MAX, 2, vec![]).is_none());
    let empty = AudioMatrix::<u8>::from_channel_major(2, 0, vec![]).unwrap();
    assert_eq!(empty.frames(), 0);
    assert!(empty.interleave().is_empty());
}

#[test]
fn single_channel_interleaves_to_itself() {
    let m = AudioMatrix::from_channel_major(1, 4, vec![0.5, -0.5, 0.25, 1.0]).unwrap();
    assert_eq!(m.interleave(), vec![0.5, -0.5, 0.25, 1.0]);
}

#[test]
fn cursor_hands_out_frames_in_order_then_stops() {
    let m = AudioMatrix::from_channel_major(2, 2, vec![1.0f32, 2.0, 3.0, 4.0]).unwrap();
    let mut cur = PlaybackCursor::new(&m);
    assert_eq!(cur.remaining(), 4);
    assert_eq!(cur.next_sample(), Some(1.0));
    assert_eq!(cur.next_sample(), Some(3.0));
    assert_eq!(cur.next_sample(), Some(2.0));
    assert_eq!(cur.next_sample(), Some(4.0));
    assert_eq!(cur.remaining(), 0);
    assert_eq!(cur.next_sample(), None);
    assert_eq!(cur.next_sample(), None);
}

#[test]
fn duration_source_priority() {
    assert_eq!(select_duration_source(true, true, true), Ok(DurationSource::File));
    assert_eq!(select_duration_source(false, true, true), Ok(DurationSource::Spectrogram));
    assert_eq!(select_duration_source(false, false, true), Ok(DurationSource::Buffer));
    assert_eq!(select_duration_source(false, false, false), Err(LoadError::InvalidArgument));
}

#[test]
fn spectrogram_shape_gives_samples() {
    let dims = vec![10, 1025, 2];
    assert_eq!(
        spectrogram_span(&dims, 22050, 2048, 512, true),
        Ok(SampleSpan { samples: 4608, rate: 22050 })
    );
    assert_eq!(
        spectrogram_span(&dims, 22050, 2048, 512, false),
        Ok(SampleSpan { samples: 6656, rate: 22050 })
    );
    // odd window: centring removes 2 * (5 / 2) = 4 samples, not 5 - 1
    assert_eq!(
        spectrogram_span(&vec![3, 3, 1], 100, 5, 2, true),
        Ok(SampleSpan { samples: 5, rate: 100 })
    );
}

#[test]
fn spectrogram_arguments_are_checked() {
    let dims = vec![10, 1025, 2];
    assert_eq!(spectrogram_span(&dims, 0, 2048, 512, true), Err(LoadError::InvalidArgument));
    assert_eq!(spectrogram_span(&dims, 22050, 0, 512, true), Err(LoadError::InvalidArgument));
    assert_eq!(spectrogram_span(&dims, 22050, 2048, -1, true), Err(LoadError::InvalidArgument));
    assert_eq!(
        spectrogram_span(&vec![10, 1025], 22050, 2048, 512, true),
        Err(LoadError::InvalidArgument)
    );
}

#[test]
fn buffer_and_file_spans() {
    assert_eq!(buffer_span(44100, 22050), Ok(SampleSpan { samples: 44100, rate: 22050 }));
    assert_eq!(buffer_span(10, 0), Err(LoadError::InvalidArgument));
    assert_eq!(file_span(Some(441000), Some(44100)), Ok(SampleSpan { samples: 441000, rate: 44100 }));
    assert_eq!(file_span(None, Some(44100)), Err(LoadError::MissingMetadata));
    assert_eq!(file_span(Some(1), None), Err(LoadError::MissingMetadata));
}
