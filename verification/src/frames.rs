//! The frame set: the fixed, ordered images that every stream replays.

use vstd::arithmetic::div_mod::lemma_small_mod;
use vstd::prelude::*;

verus! {

/// An ordered, never empty collection of frames, each an opaque run of
/// bytes. It is fixed once built and read in a cycle: after the last frame
/// comes the first again.
pub struct FrameSet {
    frames: Vec<Vec<u8>>,
}

/// The position that follows `index` in a cycle of `count` frames.
pub open spec fn successor(index: nat, count: nat) -> nat
    recommends
        count > 0,
{
    (index + 1) % count
}

/// The position reached from `start` after `steps` steps round a cycle of
/// `count` frames.
pub open spec fn position_after(start: nat, steps: nat, count: nat) -> nat
    recommends
        count > 0,
{
    (start + steps) % count
}

impl FrameSet {
    /// The frames in order, each as its bytes.
    pub closed spec fn view(&self) -> Seq<Seq<u8>> {
        Seq::new(self.frames@.len(), |i: int| self.frames@[i]@)
    }

    /// A frame set holds at least one frame.
    pub closed spec fn wf(&self) -> bool {
        self.frames@.len() > 0
    }

    /// Every valid frame set has a frame to start with.
    pub proof fn lemma_never_empty(&self)
        requires
            self.wf(),
        ensures
            self@.len() > 0,
    {
    }

    /// Builds a frame set from `frames`, kept in the order given. An empty
    /// list is refused: there would be nothing to stream.
    pub fn new(frames: Vec<Vec<u8>>) -> (set: Option<FrameSet>)
        ensures
            set.is_some() == (frames@.len() > 0),
            set.is_some() ==> set.unwrap().wf(),
            set.is_some() ==> set.unwrap()@ == Seq::new(frames@.len(), |i: int| frames@[i]@),
    {
        if frames.len() == 0 {
            None
        } else {
            Some(FrameSet { frames })
        }
    }

    /// Number of frames.
    pub fn len(&self) -> (count: usize)
        requires
            self.wf(),
        ensures
            count == self@.len(),
            count > 0,
    {
        self.frames.len()
    }

    /// The frame at `index`, counted cyclically: positions past the end
    /// start over at the first frame.
    pub fn frame(&self, index: usize) -> (bytes: &[u8])
        requires
            self.wf(),
        ensures
            bytes@ == self@[index as int % self@.len() as int],
            index < self@.len() ==> bytes@ == self@[index as int],
    {
        let count: usize = self.frames.len();
        proof {
            if index < count {
                lemma_small_mod(index as nat, count as nat);
            }
        }
        self.frames[index % count].as_slice()
    }

    /// Length in bytes of the frame at `index`, counted cyclically.
    pub fn frame_len(&self, index: usize) -> (length: usize)
        requires
            self.wf(),
        ensures
            length == self@[index as int % self@.len() as int].len(),
            index < self@.len() ==> length == self@[index as int].len(),
    {
        let count: usize = self.frames.len();
        proof {
            if index < count {
                lemma_small_mod(index as nat, count as nat);
            }
        }
        self.frames[index % count].len()
    }

    /// The position after `index` in the cycle.
    pub fn next_index(&self, index: usize) -> (next: usize)
        requires
            self.wf(),
        ensures
            next == successor(index as nat % self@.len(), self@.len()),
            index < self@.len() ==> next == successor(index as nat, self@.len()),
            next < self@.len(),
    {
        let count: usize = self.frames.len();
        proof {
            if index < count {
                lemma_small_mod(index as nat, count as nat);
            }
        }
        let reduced: usize = index % count;
        if reduced + 1 == count {
            assert(count as int % count as int == 0) by (nonlinear_arith)
                requires
                    count > 0,
            ;
            0
        } else {
            assert((reduced + 1) % count as int == reduced + 1) by (nonlinear_arith)
                requires
                    0 <= reduced + 1 < count,
            ;
            reduced + 1
        }
    }
}

} // verus!
