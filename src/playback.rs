use vstd::prelude::*;

use crate::matrix::AudioMatrix;

verus! {

/// Hands out the samples of a matrix frame after frame, each frame holding
/// one sample per channel, strictly in order and each once.
pub struct PlaybackCursor<T> {
    samples: Vec<T>,
    position: usize,
}

impl<T: Copy> PlaybackCursor<T> {
    /// The interleaved samples the cursor walks through.
    pub closed spec fn samples(&self) -> Seq<T> {
        self.samples@
    }

    /// How many samples have been handed out.
    pub closed spec fn position(&self) -> nat {
        self.position as nat
    }

    pub closed spec fn wf(&self) -> bool {
        self.position <= self.samples@.len()
    }

    /// A cursor at the first sample of `matrix`, interleaved once up front.
    pub fn new(matrix: &AudioMatrix<T>) -> (r: Self)
        requires
            matrix.wf(),
        ensures
            r.wf(),
            r.position() == 0,
            r.samples().len() == matrix.n_channels() * matrix.n_frames(),
            forall|n: int, c: int|
                0 <= n < matrix.n_frames() && 0 <= c < matrix.n_channels() ==> #[trigger] r.samples()[n
                    * matrix.n_channels() + c] == matrix.sample(c, n),
    {
        PlaybackCursor { samples: matrix.interleave(), position: 0 }
    }

    /// How many samples are left to hand out.
    pub fn remaining(&self) -> (r: usize)
        requires
            self.wf(),
        ensures
            r == self.samples().len() - self.position(),
    {
        self.samples.len() - self.position
    }

    /// The next sample, or `None` once all have been handed out.
    pub fn next_sample(&mut self) -> (r: Option<T>)
        requires
            old(self).wf(),
        ensures
            final(self).wf(),
            final(self).samples() == old(self).samples(),
            old(self).position() < old(self).samples().len() ==> r == Some(
                old(self).samples()[old(self).position() as int],
            ) && final(self).position() == old(self).position() + 1,
            old(self).position() >= old(self).samples().len() ==> r is None && final(self).position()
                == old(self).position(),
    {
        if self.position < self.samples.len() {
            let x = self.samples[self.position];
            self.position = self.position + 1;
            Some(x)
        } else {
            None
        }
    }
}

} // verus!
