use audiotest::collector::SampleCollector;
use audiotest::error::LoadError;
use audiotest::meta::{get_samplerate, TrackMeta};
use audiotest::window::{resolve_window, DecodeWindow};

const RATE: u32 = 44100;
const TOTAL: u64 = 441000;
const BLOCK: u64 = 1152;

fn stereo_meta() -> TrackMeta {
    TrackMeta::from_header(Some(2), Some(TOTAL), Some(RATE)).unwrap()
}

/// Sample of channel `c` at frame `i` of the synthetic track.
fn value(i: u64, c: u64) -> f64 {
    (i * 2 + c) as f64
}

/// Feeds the synthetic track in blocks until the collector is full or the
/// track ends; returns how many runs were handed over.
fn feed(col: &mut SampleCollector<f64>, total: u64) -> usize {
    let mut start = 0u64;
    let mut runs = 0usize;
    while start < total {
        let end = std::cmp::min(start + BLOCK, total);
        let mut run = Vec::new();
        for i in start..end {
            run.push(value(i, 0));
            run.push(value(i, 1));
        }
        runs += 1;
        if col.push_run(&run) {
            return runs;
        }
        start = end;
    }
    runs
}

#[test]
fn stereo_window_from_two_to_five_seconds() {
    let meta = stereo_meta();
    let mut col = SampleCollector::<f64>::for_request(&meta, 0, 88200, Some(132300)).unwrap();
    feed(&mut col, TOTAL);
    let m = col.finish().unwrap();
    assert_eq!(m.channels(), 2);
    assert_eq!(m.frames(), 132300);
    assert_eq!(m.get(0, 0), value(88200, 0));
    assert_eq!(m.get(1, 0), value(88200, 1));
    assert_eq!(m.get(0, 132299), value(88200 + 132299, 0));
    assert_eq!(m.get(1, 132299), value(88200 + 132299, 1));
    assert_eq!(m.get(1, 777), value(88200 + 777, 1));
}

#[test]
fn stereo_window_near_end_is_clamped() {
    let meta = stereo_meta();
    let mut col = SampleCollector::<f64>::for_request(&meta, 0, 418950, None).unwrap();
    feed(&mut col, TOTAL);
    let m = col.finish().unwrap();
    assert_eq!(m.channels(), 2);
    assert_eq!(m.frames(), 22050);
    assert_eq!(m.get(0, 22049), value(TOTAL - 1, 0));
}

#[test]
fn offset_at_total_duration_is_invalid() {
    let meta = stereo_meta();
    let r = SampleCollector::<f64>::for_request(&meta, 0, 441000, None);
    assert!(matches!(r, Err(LoadError::InvalidWindow)));
    assert_eq!(resolve_window(TOTAL, 441000, Some(1000)), Err(LoadError::InvalidWindow));
}

#[test]
fn offset_past_end_is_invalid() {
    assert_eq!(resolve_window(TOTAL, 500000, None), Err(LoadError::InvalidWindow));
    assert_eq!(resolve_window(0, 0, None), Err(LoadError::InvalidWindow));
}

#[test]
fn long_duration_is_clamped_to_rest() {
    let w = resolve_window(TOTAL, 100000, Some(10_000_000)).unwrap();
    assert_eq!(w, DecodeWindow { offset_frames: 100000, length_frames: TOTAL - 100000 });
    let w = resolve_window(TOTAL, 100000, Some(TOTAL - 100000)).unwrap();
    assert_eq!(w.length_frames, TOTAL - 100000);
}

#[test]
fn duration_within_bounds_is_exact() {
    for (offset, duration) in [(0u64, 1u64), (0, TOTAL), (1234, 5678), (TOTAL - 1, 1)] {
        let w = resolve_window(TOTAL, offset, Some(duration)).unwrap();
        assert_eq!(w, DecodeWindow { offset_frames: offset, length_frames: duration });
    }
}

#[test]
fn zero_duration_is_invalid() {
    assert_eq!(resolve_window(TOTAL, 10, Some(0)), Err(LoadError::InvalidWindow));
}

#[test]
fn stream_ending_early_is_short() {
    let meta = stereo_meta();
    let mut col = SampleCollector::<f64>::for_request(&meta, 0, 0, None).unwrap();
    feed(&mut col, TOTAL - 1);
    assert!(!col.is_done());
    assert!(matches!(col.finish(), Err(LoadError::ShortStream)));
}

#[test]
fn collection_stops_once_full() {
    let meta = stereo_meta();
    let mut col = SampleCollector::<f64>::for_request(&meta, 0, 0, Some(BLOCK + 1)).unwrap();
    let runs = feed(&mut col, TOTAL);
    assert_eq!(runs, 2);
    assert!(col.is_done());
    assert!(col.push_run(&[-1.0, -1.0]));
    let m = col.finish().unwrap();
    assert_eq!(m.frames(), BLOCK as usize + 1);
    assert_eq!(m.get(0, BLOCK as usize), value(BLOCK, 0));
}

#[test]
fn offset_inside_a_run_is_skipped_exactly() {
    let meta = TrackMeta::from_header(Some(3), Some(10), Some(8000)).unwrap();
    let mut col = SampleCollector::<i32>::for_request(&meta, 7, 2, Some(3)).unwrap();
    assert!(!col.push_run(&[1, 2, 3]));
    assert!(!col.push_run(&[4, 5, 6, 7, 8, 9, 10, 11, 12]));
    assert!(col.push_run(&[13, 14, 15, 16, 17, 18]));
    let m = col.finish().unwrap();
    assert_eq!(m.channels(), 3);
    assert_eq!(m.frames(), 3);
    assert_eq!(m.into_data(), vec![7, 10, 13, 8, 11, 14, 9, 12, 15]);
}

#[test]
fn trailing_partial_frame_is_ignored() {
    let meta = TrackMeta::from_header(Some(2), Some(10), Some(8000)).unwrap();
    let mut col = SampleCollector::<i32>::for_request(&meta, 0, 0, Some(2)).unwrap();
    assert!(!col.push_run(&[1, 2, 99]));
    assert!(col.push_run(&[3, 4]));
    let m = col.finish().unwrap();
    assert_eq!(m.into_data(), vec![1, 3, 2, 4]);
}

#[test]
fn only_the_selected_track_is_accepted() {
    let meta = stereo_meta();
    let col = SampleCollector::<f64>::for_request(&meta, 3, 0, None).unwrap();
    assert!(col.accepts(3));
    assert!(!col.accepts(4));
}

#[test]
fn window_too_large_to_count_overflows() {
    let meta = TrackMeta::from_header(Some(usize::MAX), Some(10), Some(8000)).unwrap();
    let r = SampleCollector::<u8>::for_request(&meta, 0, 0, Some(2));
    assert!(matches!(r, Err(LoadError::ConversionOverflow)));
}

#[test]
fn missing_header_fields_are_reported() {
    assert_eq!(TrackMeta::from_header(None, Some(1), Some(1)), Err(LoadError::MissingMetadata));
    assert_eq!(TrackMeta::from_header(Some(1), None, Some(1)), Err(LoadError::MissingMetadata));
    assert_eq!(TrackMeta::from_header(Some(1), Some(1), None), Err(LoadError::MissingMetadata));
    assert_eq!(TrackMeta::from_header(Some(0), Some(1), Some(1)), Err(LoadError::MissingMetadata));
    assert_eq!(
        TrackMeta::from_header(Some(2), Some(5), Some(48000)),
        Ok(TrackMeta { channels: 2, total_frames: 5, sample_rate: 48000 })
    );
}

#[test]
fn samplerate_matches_the_rate_a_load_uses() {
    let meta = stereo_meta();
    assert_eq!(get_samplerate(Some(RATE)), Ok(meta.sample_rate as i32));
    assert_eq!(get_samplerate(Some(44100)), Ok(44100));
}

#[test]
fn samplerate_errors() {
    assert_eq!(get_samplerate(None), Err(LoadError::MissingMetadata));
    assert_eq!(get_samplerate(Some(3_000_000_000)), Err(LoadError::ConversionOverflow));
    assert_eq!(get_samplerate(Some(i32::MAX as u32)), Ok(i32::MAX));
}
