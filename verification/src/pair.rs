//! The generation pair: a current grid that consumers read and a scratch
//! grid that a step overwrites, plus the counter of completed steps.
//!
//! Outside an in-progress step, `current` holds a fully computed
//! generation and `scratch` the stale one about to be overwritten. A
//! step writes the next generation into `scratch` from `current` alone;
//! a swap then exchanges the two in O(1).

use vstd::prelude::*;
use crate::grid::ConwayState;

verus! {

/// Two grids of identical dimensions playing the roles of current and
/// scratch, and the number of completed steps since construction or the
/// last counter reset.
pub struct GenerationPair {
    current: ConwayState,
    scratch: ConwayState,
    frames: u64,
}

impl GenerationPair {
    /// The readable generation.
    pub closed spec fn cur(&self) -> ConwayState {
        self.current
    }

    /// The write target of the next step.
    pub closed spec fn scr(&self) -> ConwayState {
        self.scratch
    }

    /// Completed steps since construction or the last reset.
    pub closed spec fn frame_count(&self) -> u64 {
        self.frames
    }

    /// Both grids well-formed and of the same dimensions.
    pub open spec fn wf(&self) -> bool {
        &&& self.cur().wf()
        &&& self.scr().wf()
        &&& self.cur().w() == self.scr().w()
        &&& self.cur().h() == self.scr().h()
    }

    /// A pair whose grids hold independently random cells.
    pub fn new_random(width: usize, height: usize) -> (r: GenerationPair)
        requires
            1 <= width,
            1 <= height,
            width * height <= usize::MAX,
        ensures
            r.wf(),
            r.cur().w() == width,
            r.cur().h() == height,
            r.frame_count() == 0,
    {
        GenerationPair {
            current: ConwayState::new(width, height),
            scratch: ConwayState::new(width, height),
            frames: 0,
        }
    }

    /// A pair whose grids are all dead.
    pub fn new_dead(width: usize, height: usize) -> (r: GenerationPair)
        requires
            1 <= width,
            1 <= height,
            width * height <= usize::MAX,
        ensures
            r.wf(),
            r.cur().w() == width,
            r.cur().h() == height,
            r.cur().all_dead(),
            r.frame_count() == 0,
    {
        GenerationPair {
            current: ConwayState::new_dead(width, height),
            scratch: ConwayState::new_dead(width, height),
            frames: 0,
        }
    }

    /// The current generation, for a consumer to read.
    pub fn current(&self) -> (r: &ConwayState)
        ensures
            *r == self.cur(),
    {
        &self.current
    }

    /// Compute the next generation into the scratch grid; the current
    /// grid is only read and stays as it is.
    pub fn step(&mut self)
        requires
            old(self).wf(),
        ensures
            final(self).wf(),
            final(self).cur() == old(self).cur(),
            final(self).scr().is_next_generation_of(old(self).cur()),
            final(self).frame_count() == old(self).frame_count(),
    {
        let next = &mut self.scratch;
        self.current.next_state(next);
    }

    /// Make the freshly computed generation current; O(1), no copy.
    pub fn swap(&mut self)
        ensures
            final(self).cur() == old(self).scr(),
            final(self).scr() == old(self).cur(),
            final(self).frame_count() == old(self).frame_count(),
    {
        let scr = &mut self.scratch;
        self.current.swap_state(scr);
    }

    /// One full simulation step: compute the next generation, make it
    /// current, and count it — the counter moves exactly once per
    /// completed step.
    pub fn advance(&mut self)
        requires
            old(self).wf(),
            old(self).frame_count() < u64::MAX,
        ensures
            final(self).wf(),
            final(self).cur().is_next_generation_of(old(self).cur()),
            final(self).scr() == old(self).cur(),
            final(self).frame_count() == old(self).frame_count() + 1,
    {
        self.step();
        self.swap();
        self.frames = self.frames + 1;
    }

    /// Completed steps since construction or the last reset.
    pub fn current_frame_count(&self) -> (r: u64)
        ensures
            r == self.frame_count(),
    {
        self.frames
    }

    /// Restart rate measurement: the counter returns to zero and the
    /// grids stay as they are.
    pub fn reset_frame_count(&mut self)
        ensures
            final(self).cur() == old(self).cur(),
            final(self).scr() == old(self).scr(),
            final(self).frame_count() == 0,
    {
        self.frames = 0;
    }
}

} // verus!

