//! The two sets of per-frame data that frames in flight take turns with: the
//! frame number picks the current set, and the set before it belongs to the
//! previous frame.
use vstd::prelude::*;

verus! {

/// The frame data of the frame numbered `n`: the two sets alternate.
pub open spec fn slot(n: usize) -> int {
    (n % 2) as int
}

/// Two sets of frame data, and the number of the current frame.
pub struct FrameState<F> {
    frame_number: usize,
    frames: Vec<F>,
}

impl<F> FrameState<F> {
    /// The number of the current frame.
    pub closed spec fn number(&self) -> usize {
        self.frame_number
    }

    /// The two sets of frame data.
    pub closed spec fn frame_data(&self) -> Seq<F> {
        self.frames@
    }

    pub open spec fn wf(&self) -> bool {
        self.frame_data().len() == 2
    }

    /// Frame 1, with the sets `first` and `second`.
    pub fn new(first: F, second: F) -> (s: Self)
        ensures
            s.wf(),
            s.number() == 1,
            s.frame_data() == seq![first, second],
    {
        let mut frames: Vec<F> = Vec::new();
        frames.push(first);
        frames.push(second);
        FrameState { frame_number: 1, frames }
    }

    /// The data of the current frame.
    pub fn current_frame(&self) -> (f: &F)
        requires
            self.wf(),
        ensures
            *f == self.frame_data()[slot(self.number())],
    {
        &self.frames[self.frame_number % 2]
    }

    /// The data of the previous frame.
    pub fn last_frame(&self) -> (f: &F)
        requires
            self.wf(),
        ensures
            *f == self.frame_data()[slot(vstd::wrapping::usize_specs::wrapping_sub(self.number(), 1))],
    {
        &self.frames[self.frame_number.wrapping_sub(1) % 2]
    }

    /// The number of the current frame.
    pub fn current_frame_number(&self) -> (n: usize)
        ensures
            n == self.number(),
    {
        self.frame_number
    }

    /// Moves on to the next frame; the number wraps around.
    pub fn update(&mut self)
        ensures
            final(self).number() == vstd::wrapping::usize_specs::wrapping_add(old(self).number(), 1),
            final(self).frame_data() == old(self).frame_data(),
    {
        self.frame_number = self.frame_number.wrapping_add(1);
    }
}

/// After a move to the next frame, the previous frame's data is the data
/// that was current, and the current data is the other set.
pub proof fn law_update_alternates(n: usize)
    ensures
        slot(vstd::wrapping::usize_specs::wrapping_sub(vstd::wrapping::usize_specs::wrapping_add(n, 1), 1)) == slot(n),
        slot(vstd::wrapping::usize_specs::wrapping_add(n, 1)) != slot(n),
{
    assert(usize::MAX % 2 == 1) by {
        assert(usize::MAX == 0xffff_ffff || usize::MAX == 0xffff_ffff_ffff_ffff);
    }
}

} // verus!
