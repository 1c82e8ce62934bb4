use vstd::prelude::*;

use crate::arith::lemma_cell_in_grid;

verus! {

/// A dense `channels` by `frames` matrix of samples, stored one channel after
/// another.
pub struct AudioMatrix<T> {
    channels: usize,
    frames: usize,
    data: Vec<T>,
}

impl<T: Copy> AudioMatrix<T> {
    /// Number of rows: one per channel.
    pub closed spec fn n_channels(&self) -> nat {
        self.channels as nat
    }

    /// Number of columns: one per frame.
    pub closed spec fn n_frames(&self) -> nat {
        self.frames as nat
    }

    /// The sample of channel `c` at frame `n`.
    pub closed spec fn sample(&self, c: int, n: int) -> T {
        self.data@[c * self.frames + n]
    }

    /// The storage holds exactly one sample per cell.
    pub closed spec fn wf(&self) -> bool {
        &&& self.data@.len() == self.channels * self.frames
        &&& self.channels * self.frames <= usize::MAX
    }

    pub fn channels(&self) -> (r: usize)
        ensures
            r == self.n_channels(),
    {
        self.channels
    }

    pub fn frames(&self) -> (r: usize)
        ensures
            r == self.n_frames(),
    {
        self.frames
    }

    /// The sample of channel `c` at frame `n`.
    pub fn get(&self, c: usize, n: usize) -> (r: T)
        requires
            self.wf(),
            c < self.n_channels(),
            n < self.n_frames(),
        ensures
            r == self.sample(c as int, n as int),
    {
        proof {
            lemma_cell_in_grid(c as int, n as int, self.channels as int, self.frames as int);
        }
        self.data[c * self.frames + n]
    }

    /// Builds a matrix from samples stored channel after channel; `None` when
    /// the number of samples is not `channels * frames`.
    pub fn from_channel_major(channels: usize, frames: usize, data: Vec<T>) -> (r: Option<Self>)
        ensures
            r is Some <==> data@.len() == channels * frames,
            r matches Some(m) ==> m.wf() && m.n_channels() == channels && m.n_frames() == frames
                && forall|c: int, n: int|
                0 <= c < channels && 0 <= n < frames ==> #[trigger] m.sample(c, n) == data@[c
                    * frames + n],
    {
        let len = data.len();
        match channels.checked_mul(frames) {
            Some(total) => if len == total {
                Some(AudioMatrix { channels, frames, data })
            } else {
                None
            },
            None => None,
        }
    }

    /// Builds a matrix from samples stored frame after frame, each frame
    /// holding one sample per channel in channel order.
    pub fn from_interleaved(channels: usize, frames: usize, interleaved: &Vec<T>) -> (r: Self)
        requires
            interleaved@.len() == channels * frames,
        ensures
            r.wf(),
            r.n_channels() == channels,
            r.n_frames() == frames,
            forall|c: int, n: int|
                0 <= c < channels && 0 <= n < frames ==> #[trigger] r.sample(c, n)
                    == interleaved@[n * channels + c],
    {
        let total = interleaved.len();
        let mut data: Vec<T> = Vec::new();
        let mut c: usize = 0;
        while c < channels
            invariant
                c <= channels,
                total == interleaved@.len(),
                interleaved@.len() == channels * frames,
                data@.len() == c * frames,
                forall|c2: int, n2: int|
                    #![trigger data@[c2 * frames + n2]]
                    0 <= c2 < c && 0 <= n2 < frames ==> data@[c2 * frames + n2]
                        == interleaved@[n2 * channels + c2],
            decreases channels - c,
        {
            let mut n: usize = 0;
            while n < frames
                invariant
                    c < channels,
                    n <= frames,
                    total == interleaved@.len(),
                    interleaved@.len() == channels * frames,
                    data@.len() == c * frames + n,
                    forall|c2: int, n2: int|
                        #![trigger data@[c2 * frames + n2]]
                        0 <= c2 < c && 0 <= n2 < frames ==> data@[c2 * frames + n2]
                            == interleaved@[n2 * channels + c2],
                    forall|n2: int| #![trigger data@[c * frames + n2]] 0 <= n2 < n ==> data@[c * frames + n2] == interleaved@[n2 * channels + c],
                decreases frames - n,
            {
                proof {
                    lemma_cell_in_grid(n as int, c as int, frames as int, channels as int);
                    assert(channels * frames == frames * channels) by (nonlinear_arith);
                }
                let x = interleaved[n * channels + c];
                let ghost before = data@;
                data.push(x);
                proof {
                    assert forall|c2: int, n2: int|
                        #![trigger data@[c2 * frames + n2]]
                        0 <= c2 < c && 0 <= n2 < frames implies data@[c2 * frames + n2]
                            == interleaved@[n2 * channels + c2] by {
                        lemma_cell_in_grid(c2, n2, c as int, frames as int);
                        assert(before[c2 * frames + n2] == interleaved@[n2 * channels + c2]);
                    }
                }
                n = n + 1;
            }
            proof {
                assert((c + 1) * frames == c * frames + frames) by (nonlinear_arith);
            }
            c = c + 1;
        }
        AudioMatrix { channels, frames, data }
    }

    /// The samples frame after frame, each frame holding one sample per
    /// channel in channel order.
    pub fn interleave(&self) -> (r: Vec<T>)
        requires
            self.wf(),
        ensures
            r@.len() == self.n_channels() * self.n_frames(),
            forall|n: int, c: int|
                0 <= n < self.n_frames() && 0 <= c < self.n_channels() ==> #[trigger] r@[n
                    * self.n_channels() + c] == self.sample(c, n),
    {
        let channels = self.channels;
        let frames = self.frames;
        let mut out: Vec<T> = Vec::new();
        let mut n: usize = 0;
        while n < frames
            invariant
                n <= frames,
                channels == self.channels,
                frames == self.frames,
                self.wf(),
                out@.len() == n * channels,
                forall|n2: int, c2: int|
                    #![trigger out@[n2 * channels + c2]]
                    0 <= n2 < n && 0 <= c2 < channels ==> out@[n2 * channels + c2]
                        == self.sample(c2, n2),
            decreases frames - n,
        {
            let mut c: usize = 0;
            while c < channels
                invariant
                    n < frames,
                    c <= channels,
                    channels == self.channels,
                    frames == self.frames,
                    self.wf(),
                    out@.len() == n * channels + c,
                    forall|n2: int, c2: int|
                        #![trigger out@[n2 * channels + c2]]
                        0 <= n2 < n && 0 <= c2 < channels ==> out@[n2 * channels + c2]
                            == self.sample(c2, n2),
                    forall|c2: int| #![trigger out@[n * channels + c2]] 0 <= c2 < c ==> out@[n * channels + c2] == self.sample(c2, n as int),
                decreases channels - c,
            {
                proof {
                    lemma_cell_in_grid(c as int, n as int, channels as int, frames as int);
                }
                let x = self.data[c * frames + n];
                let ghost before = out@;
                out.push(x);
                proof {
                    assert forall|n2: int, c2: int|
                        #![trigger out@[n2 * channels + c2]]
                        0 <= n2 < n && 0 <= c2 < channels implies out@[n2 * channels + c2]
                            == self.sample(c2, n2) by {
                        lemma_cell_in_grid(n2, c2, n as int, channels as int);
                        assert(before[n2 * channels + c2] == self.sample(c2, n2));
                    }
                }
                c = c + 1;
            }
            proof {
                assert((n + 1) * channels == n * channels + channels) by (nonlinear_arith);
            }
            n = n + 1;
        }
        proof {
            assert(frames * channels == channels * frames) by (nonlinear_arith);
        }
        out
    }

    /// The samples, channel after channel.
    pub fn into_data(self) -> (r: Vec<T>)
        requires
            self.wf(),
        ensures
            r@.len() == self.n_channels() * self.n_frames(),
            forall|c: int, n: int|
                0 <= c < self.n_channels() && 0 <= n < self.n_frames() ==> #[trigger] r@[c
                    * self.n_frames() + n] == self.sample(c, n),
    {
        self.data
    }
}

} // verus!
