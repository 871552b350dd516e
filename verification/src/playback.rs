//! File-playback mode: rendering from a pre-decoded recording.
//!
//! A `PlaybackSource` holds an immutable, pre-loaded sequence of normalized
//! samples and a read cursor that only the render side moves.  The render
//! callback reads it sequentially and emits silence once the cursor has passed
//! the end, without restarting; a request past the end is not an error.

use vstd::prelude::*;

use crate::callbacks::popped_or_silence;
use crate::sample::Sample;
use crate::sample::SampleKind;
use crate::sample::from_normalized;
use crate::sample::raw_of_norm;

verus! {

/// An immutable recording plus the render side's read cursor.
pub struct PlaybackSource {
    samples: Vec<Sample>,
    cursor: usize,
}

impl PlaybackSource {
    /// The recorded samples, fixed at construction.
    pub closed spec fn spec_samples(&self) -> Seq<Sample> {
        self.samples@
    }

    /// How many samples the render side has consumed so far.
    pub closed spec fn spec_cursor(&self) -> nat {
        self.cursor as nat
    }

    /// The cursor never passes the end of the recording.
    pub closed spec fn wf(&self) -> bool {
        self.cursor <= self.samples@.len()
    }

    /// Wrap a decoded recording, with the cursor at its start.
    pub fn new(samples: Vec<Sample>) -> (r: PlaybackSource)
        ensures
            r.wf(),
            r.spec_samples() == samples@,
            r.spec_cursor() == 0,
    {
        PlaybackSource { samples, cursor: 0 }
    }

    /// Number of recorded samples.
    pub fn len(&self) -> (n: usize)
        ensures
            n == self.spec_samples().len(),
    {
        self.samples.len()
    }

    /// The read cursor's position.
    pub fn position(&self) -> (p: usize)
        requires
            self.wf(),
        ensures
            p == self.spec_cursor(),
    {
        self.cursor
    }

    /// Fill one requested block in file-playback mode: `frames` mono wire
    /// samples, the recording continued from the cursor, silence from the end
    /// of the recording on.  The block is always filled completely, and the
    /// cursor never rewinds.
    pub fn render_block(&mut self, frames: usize, kind: SampleKind) -> (out: Vec<i32>)
        requires
            old(self).wf(),
        ensures
            final(self).wf(),
            final(self).spec_samples() == old(self).spec_samples(),
            final(self).spec_cursor() == if old(self).spec_cursor() + frames <= old(
                self,
            ).spec_samples().len() {
                (old(self).spec_cursor() + frames) as int
            } else {
                old(self).spec_samples().len() as int
            },
            out@.len() == frames,
            forall|i: int|
                0 <= i < frames ==> out@[i] == raw_of_norm(
                    popped_or_silence(
                        old(self).spec_samples(),
                        old(self).spec_cursor() + i,
                    ).steps as int,
                    kind,
                ),
    {
        let ghost s0 = self.spec_samples();
        let ghost c0 = self.spec_cursor();
        let mut out: Vec<i32> = Vec::new();
        let mut f: usize = 0;
        while f < frames
            invariant
                self.wf(),
                self.spec_samples() == s0,
                c0 <= s0.len(),
                f <= frames,
                out@.len() == f,
                self.spec_cursor() == if c0 + f <= s0.len() {
                    (c0 + f) as int
                } else {
                    s0.len() as int
                },
                forall|i: int|
                    0 <= i < f ==> out@[i] == raw_of_norm(
                        popped_or_silence(s0, c0 + i).steps as int,
                        kind,
                    ),
            decreases frames - f,
        {
            let s: Sample = if self.cursor < self.samples.len() {
                let s = self.samples[self.cursor];
                self.cursor = self.cursor + 1;
                s
            } else {
                Sample::silence()
            };
            out.push(from_normalized(s, kind));
            f = f + 1;
        }
        out
    }
}

} // verus!
