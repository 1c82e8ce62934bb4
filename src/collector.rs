use vstd::prelude::*;

use crate::arith::{lemma_cell_in_grid, lemma_frame_start, lemma_mul_le, lemma_whole_groups};
use crate::error::LoadError;
use crate::matrix::AudioMatrix;
use crate::meta::TrackMeta;
use crate::window::{clamped_length, resolve_window, window_spec, DecodeWindow};

verus! {

/// The whole frames of an interleaved run of samples: a trailing partial
/// frame is left out.
pub open spec fn whole_frames<T>(run: Seq<T>, channels: nat) -> Seq<T> {
    run.subrange(0, ((run.len() / channels) * channels) as int)
}

/// Frames of the window that a stream of `seen` frames has delivered so far.
pub open spec fn produced_frames(seen: nat, offset: nat, length: nat) -> nat {
    if seen <= offset {
        0
    } else if seen - offset < length {
        (seen - offset) as nat
    } else {
        length
    }
}

/// Frames of the offset that a stream of `seen` frames has not yet covered.
pub open spec fn offset_left(seen: nat, offset: nat) -> nat {
    if seen < offset {
        (offset - seen) as nat
    } else {
        0
    }
}

/// Collects the frames of one window of a track from its decoded packets, in
/// stream order: packets of other tracks are refused, frames before the
/// window are skipped, and collection stops as soon as the window is full.
pub struct SampleCollector<T> {
    channels: usize,
    track_id: u32,
    offset_frames: u64,
    length_frames: usize,
    remaining_offset: u64,
    remaining_length: usize,
    buffer: Vec<T>,
    stream: Ghost<Seq<T>>,
    frames_seen: Ghost<nat>,
}

impl<T: Copy> SampleCollector<T> {
    pub closed spec fn n_channels(&self) -> nat {
        self.channels as nat
    }

    pub closed spec fn track(&self) -> u32 {
        self.track_id
    }

    pub closed spec fn offset(&self) -> nat {
        self.offset_frames as nat
    }

    pub closed spec fn length(&self) -> nat {
        self.length_frames as nat
    }

    /// The whole frames of every run handed over so far, one after another.
    pub closed spec fn stream(&self) -> Seq<T> {
        self.stream@
    }

    /// How many frames `stream` holds.
    pub closed spec fn seen(&self) -> nat {
        self.frames_seen@
    }

    /// The window has all its frames.
    pub open spec fn is_full(&self) -> bool {
        self.seen() >= self.offset() + self.length()
    }

    pub closed spec fn wf(&self) -> bool {
        &&& self.channels > 0
        &&& self.length_frames > 0
        &&& self.length_frames * self.channels <= usize::MAX
        &&& self.stream@.len() == self.frames_seen@ * self.channels
        &&& self.remaining_offset == offset_left(self.frames_seen@, self.offset_frames as nat)
        &&& self.remaining_length == self.length_frames - produced_frames(
            self.frames_seen@,
            self.offset_frames as nat,
            self.length_frames as nat,
        )
        &&& self.buffer@.len() == produced_frames(
            self.frames_seen@,
            self.offset_frames as nat,
            self.length_frames as nat,
        ) * self.channels
        &&& forall|k: int|
            0 <= k < self.buffer@.len() ==> #[trigger] self.buffer@[k] == self.stream@[self.offset_frames
                * self.channels + k]
    }

    /// A collector for `window` of track `track_id`, whose frames hold
    /// `meta.channels` samples each: `MissingMetadata` without a channel,
    /// `InvalidWindow` for a window without a frame, `ConversionOverflow`
    /// when the window's samples cannot be counted in a `usize`.
    pub fn new(meta: &TrackMeta, track_id: u32, window: &DecodeWindow) -> (r: Result<Self, LoadError>)
        ensures
            meta.channels == 0 ==> r == Err::<Self, LoadError>(LoadError::MissingMetadata),
            meta.channels > 0 && window.length_frames == 0 ==> r == Err::<Self, LoadError>(
                LoadError::InvalidWindow,
            ),
            meta.channels > 0 && window.length_frames > 0 ==> (r is Ok <==> window.length_frames
                * meta.channels <= usize::MAX),
            meta.channels > 0 && window.length_frames > 0 && r is Err ==> r == Err::<
                Self,
                LoadError,
            >(LoadError::ConversionOverflow),
            r matches Ok(col) ==> col.wf() && col.n_channels() == meta.channels && col.track()
                == track_id && col.offset() == window.offset_frames && col.length()
                == window.length_frames && col.seen() == 0 && col.stream() == Seq::<T>::empty(),
    {
        let channels = meta.channels;
        if channels == 0 {
            return Err(LoadError::MissingMetadata);
        }
        if window.length_frames == 0 {
            return Err(LoadError::InvalidWindow);
        }
        if window.length_frames > (usize::MAX / channels) as u64 {
            proof {
                assert((window.length_frames as int) * (channels as int) > usize::MAX) by (nonlinear_arith)
                    requires
                        (window.length_frames as int) > (usize::MAX as int) / (channels as int),
                        channels > 0,
                ;
            }
            return Err(LoadError::ConversionOverflow);
        }
        proof {
            assert((window.length_frames as int) * (channels as int) <= usize::MAX) by (nonlinear_arith)
                requires
                    (window.length_frames as int) <= (usize::MAX as int) / (channels as int),
                    channels > 0,
            ;
        }
        let length = window.length_frames as usize;
        Ok(SampleCollector {
            channels,
            track_id,
            offset_frames: window.offset_frames,
            length_frames: length,
            remaining_offset: window.offset_frames,
            remaining_length: length,
            buffer: Vec::new(),
            stream: Ghost(Seq::empty()),
            frames_seen: Ghost(0),
        })
    }

    /// A collector for the frames that a request of `offset_frames` and an
    /// optional `duration_frames` selects from the track that `meta`
    /// describes: `InvalidWindow` when the request selects no frame of it,
    /// `MissingMetadata` when the track has no channel, `ConversionOverflow`
    /// when the window's samples cannot be counted in a `usize`.
    pub fn for_request(meta: &TrackMeta, track_id: u32, offset_frames: u64, duration_frames: Option<u64>) -> (r: Result<Self, LoadError>)
        ensures
            window_spec(meta.total_frames, offset_frames, duration_frames) is Err ==> r
                == Err::<Self, LoadError>(LoadError::InvalidWindow),
            window_spec(meta.total_frames, offset_frames, duration_frames) is Ok && meta.channels
                == 0 ==> r == Err::<Self, LoadError>(LoadError::MissingMetadata),
            window_spec(meta.total_frames, offset_frames, duration_frames) is Ok && meta.channels
                > 0 ==> (r is Ok <==> clamped_length(meta.total_frames, offset_frames, duration_frames)
                * meta.channels <= usize::MAX) && (r is Err ==> r == Err::<Self, LoadError>(
                LoadError::ConversionOverflow,
            )),
            r matches Ok(col) ==> col.wf() && col.n_channels() == meta.channels && col.track()
                == track_id && col.offset() == offset_frames && col.length() == clamped_length(
                meta.total_frames,
                offset_frames,
                duration_frames,
            ) && col.seen() == 0 && col.stream() == Seq::<T>::empty(),
    {
        match resolve_window(meta.total_frames, offset_frames, duration_frames) {
            Ok(window) => Self::new(meta, track_id, &window),
            Err(e) => Err(e),
        }
    }

    /// Whether a packet of track `packet_track` is to be decoded and handed
    /// over: only the selected track's packets are.
    pub fn accepts(&self, packet_track: u32) -> (r: bool)
        ensures
            r == (packet_track == self.track()),
    {
        packet_track == self.track_id
    }

    /// Whether the window has all its frames.
    pub fn is_done(&self) -> (r: bool)
        requires
            self.wf(),
        ensures
            r == self.is_full(),
    {
        self.remaining_length == 0
    }

    /// Hands over the interleaved samples of one decoded packet and tells
    /// whether the window is now full. Once it is full, runs are ignored.
    pub fn push_run(&mut self, run: &[T]) -> (done: bool)
        requires
            old(self).wf(),
        ensures
            final(self).wf(),
            final(self).n_channels() == old(self).n_channels(),
            final(self).track() == old(self).track(),
            final(self).offset() == old(self).offset(),
            final(self).length() == old(self).length(),
            old(self).is_full() ==> final(self).stream() == old(self).stream() && final(self).seen()
                == old(self).seen(),
            !old(self).is_full() ==> final(self).stream() == old(self).stream() + whole_frames(
                run@,
                old(self).n_channels(),
            ) && final(self).seen() == old(self).seen() + run@.len() / old(self).n_channels(),
            done == final(self).is_full(),
    {
        if self.remaining_length == 0 {
            return true;
        }
        let ch = self.channels;
        let n_frames: usize = run.len() / ch;
        let ghost seen0: nat = self.frames_seen@;
        let ghost offset: nat = self.offset_frames as nat;
        let ghost length: nat = self.length_frames as nat;
        proof {
            lemma_whole_groups(run@.len() as int, ch as int);
            self.stream = Ghost(self.stream@ + whole_frames(run@, ch as nat));
            self.frames_seen = Ghost((seen0 + n_frames) as nat);
            lemma_frame_start(seen0 as int, n_frames as int, ch as int);
        }
        let ghost stream = self.stream@;
        proof {
            let p0 = produced_frames(seen0, offset, length);
            if p0 == 0 {
                assert(p0 * ch == 0) by (nonlinear_arith)
                    requires
                        p0 == 0,
                ;
            } else {
                lemma_frame_start(offset as int, p0 as int, ch as int);
                lemma_mul_le((offset + p0) as int, seen0 as int, ch as int);
                assert forall|k: int| 0 <= k < self.buffer@.len() implies #[trigger] self.buffer@[k]
                    == stream[offset * ch + k] by {
                    assert(self.buffer@[k] == old(self).stream@[offset * ch + k]);
                }
            }
        }
        // The whole run lies before the window.
        if self.remaining_offset >= n_frames as u64 {
            self.remaining_offset = self.remaining_offset - n_frames as u64;
            return false;
        }
        // Skip the frames of this run that precede the window, then copy
        // whole frames until the run or the window runs out.
        let mut f: usize = 0;
        if self.remaining_offset > 0 {
            f = self.remaining_offset as usize;
            self.remaining_offset = 0;
        }
        while f < n_frames && self.remaining_length > 0
            invariant
                self.channels == ch,
                self.track_id == old(self).track_id,
                run@.len() <= usize::MAX,
                ch > 0,
                self.length_frames == length,
                self.offset_frames == offset,
                self.stream@ == stream,
                self.frames_seen@ == seen0 + n_frames,
                stream.len() == (seen0 + n_frames) * ch,
                stream == old(self).stream@ + whole_frames(run@, ch as nat),
                whole_frames(run@, ch as nat).len() == n_frames * ch,
                stream.len() == seen0 * ch + n_frames * ch,
                old(self).stream@.len() == seen0 * ch,
                n_frames * ch <= run@.len(),
                f <= n_frames,
                self.remaining_offset == 0,
                self.remaining_length <= length,
                length * ch <= usize::MAX,
                offset + (length - self.remaining_length) == seen0 + f,
                self.buffer@.len() == (length - self.remaining_length) * ch,
                forall|k: int|
                    0 <= k < self.buffer@.len() ==> #[trigger] self.buffer@[k] == stream[offset * ch + k],
            decreases n_frames - f,
        {
            let ghost p: int = length - self.remaining_length;
            let mut c: usize = 0;
            proof {
                lemma_cell_in_grid(p, 0, length as int, ch as int);
                lemma_cell_in_grid(f as int, 0, n_frames as int, ch as int);
            }
            while c < ch
                invariant
                    c <= ch,
                    ch > 0,
                    f < n_frames,
                    n_frames * ch <= run@.len(),
                    (f + 1) * ch <= n_frames * ch,
                    self.buffer@.len() == p * ch + c,
                    forall|k: int|
                        0 <= k < p * ch ==> #[trigger] self.buffer@[k] == stream[offset * ch + k],
                    forall|j: int| 0 <= j < c ==> #[trigger] self.buffer@[p * ch + j] == run@[f * ch + j],
                    (p + 1) * ch <= length * ch,
                    length * ch <= usize::MAX,
                    0 <= p,
                    self.channels == ch,
                    self.track_id == old(self).track_id,
                    run@.len() <= usize::MAX,
                    self.length_frames == length,
                    self.offset_frames == offset,
                    self.stream@ == stream,
                    self.frames_seen@ == seen0 + n_frames,
                    self.remaining_offset == 0,
                    self.remaining_length == length - p,
                    self.remaining_length > 0,
                    whole_frames(run@, ch as nat).len() == n_frames * ch,
                    stream.len() == seen0 * ch + n_frames * ch,
                decreases ch - c,
            {
                proof {
                    lemma_frame_start(f as int, 1, ch as int);
                    lemma_frame_start(p, 1, ch as int);
                }
                let x = run[f * ch + c];
                self.buffer.push(x);
                c = c + 1;
            }
            proof {
                lemma_frame_start(p, 1, ch as int);
                lemma_frame_start(offset as int, p, ch as int);
                lemma_frame_start(seen0 as int, f as int, ch as int);
                lemma_frame_start(f as int, 1, ch as int);
                lemma_mul_le(f as int + 1, n_frames as int, ch as int);
                assert((offset + p) * ch == (seen0 + f) * ch) by (nonlinear_arith)
                    requires
                        offset + p == seen0 + f,
                ;
                assert forall|k: int|
                    0 <= k < (p + 1) * ch implies #[trigger] self.buffer@[k] == stream[offset * ch
                        + k] by {
                    if k >= p * ch {
                        let j = k - p * ch;
                        assert(self.buffer@[p * ch + j] == run@[f * ch + j]);
                        assert(offset * ch + k == (seen0 * ch) + (f * ch + j));
                        assert(stream[offset * ch + k] == whole_frames(run@, ch as nat)[f * ch + j]);
                        lemma_whole_groups(run@.len() as int, ch as int);
                        assert(whole_frames(run@, ch as nat)[f * ch + j] == run@[f * ch + j]);
                    }
                }
            }
            f = f + 1;
            self.remaining_length = self.remaining_length - 1;
        }
        proof {
            let s = self.frames_seen@;
            assert(produced_frames(s, offset, length) == length - self.remaining_length);
            assert(offset_left(s, offset) == 0);
        }
        self.remaining_length == 0
    }

    /// The collected window as a `channels` by `length` matrix, or
    /// `ShortStream` when the stream ended before the window was full.
    pub fn finish(self) -> (r: Result<AudioMatrix<T>, LoadError>)
        requires
            self.wf(),
        ensures
            r is Ok <==> self.is_full(),
            !self.is_full() ==> r == Err::<AudioMatrix<T>, LoadError>(LoadError::ShortStream),
            r matches Ok(m) ==> m.wf() && m.n_channels() == self.n_channels() && m.n_frames()
                == self.length() && forall|c: int, n: int|
                0 <= c < self.n_channels() && 0 <= n < self.length() ==> #[trigger] m.sample(c, n)
                    == self.stream()[(self.offset() + n) * self.n_channels() + c],
    {
        if self.remaining_length != 0 {
            return Err(LoadError::ShortStream);
        }
        let ch = self.channels;
        let length = self.length_frames;
        proof {
            assert(length * ch == ch * length) by (nonlinear_arith);
        }
        let m = AudioMatrix::from_interleaved(ch, length, &self.buffer);
        proof {
            assert forall|c: int, n: int|
                0 <= c < ch && 0 <= n < length implies #[trigger] m.sample(c, n) == self.stream@[(
                self.offset_frames + n) * ch + c] by {
                lemma_cell_in_grid(n, c, length as int, ch as int);
                lemma_frame_start(self.offset_frames as int, n, ch as int);
                assert(self.buffer@[n * ch + c] == self.stream@[self.offset_frames * ch + (n * ch + c)]);
            }
        }
        Ok(m)
    }
}

} // verus!
