//! The shared simulation handle: the current generation behind a
//! reader/writer lock.
//!
//! Many readers may inspect the current grid at once; the expensive step
//! runs under a read lock, since it only reads the current grid, and the
//! write lock is taken for nothing but the O(1) swap. Every grid that
//! enters the lock satisfies the lock's invariant, so a reader only ever
//! borrows a whole, well-formed generation — never a torn one.

use vstd::prelude::*;
use vstd::rwlock::RwLock;
use vstd::rwlock::RwLockPredicate;
use crate::grid::ConwayState;

verus! {

/// The invariant on every grid behind the lock: well-formed, with the
/// dimensions fixed at construction.
pub struct GridDims {
    pub width: int,
    pub height: int,
}

impl RwLockPredicate<ConwayState> for GridDims {
    open spec fn inv(self, g: ConwayState) -> bool {
        &&& g.wf()
        &&& g.w() == self.width
        &&& g.h() == self.height
    }
}

/// A concurrency-safe wrapper around the current generation. A producer
/// steps and swaps through it while consumers take consistent snapshots
/// at their own pace.
pub struct SharedSim {
    lock: RwLock<ConwayState, GridDims>,
}

impl SharedSim {
    /// The dimensions every grid behind the lock keeps.
    pub closed spec fn dims(&self) -> GridDims {
        self.lock.pred()
    }

    /// What holds of every grid that passes through the handle.
    pub open spec fn wf_grid(&self, g: ConwayState) -> bool {
        &&& g.wf()
        &&& g.w() == self.dims().width
        &&& g.h() == self.dims().height
    }

    /// A handle on a freshly seeded random grid, together with the
    /// scratch grid the simulation loop will step into.
    pub fn new_random(width: usize, height: usize) -> (r: (SharedSim, ConwayState))
        requires
            1 <= width,
            1 <= height,
            width * height <= usize::MAX,
        ensures
            r.0.dims().width == width,
            r.0.dims().height == height,
            r.0.wf_grid(r.1),
    {
        let current = ConwayState::new(width, height);
        let scratch = ConwayState::new(width, height);
        let lock = RwLock::new(
            current,
            Ghost(GridDims { width: width as int, height: height as int }),
        );
        (SharedSim { lock }, scratch)
    }

    /// A handle on an all-dead grid, with its scratch grid.
    pub fn new_dead(width: usize, height: usize) -> (r: (SharedSim, ConwayState))
        requires
            1 <= width,
            1 <= height,
            width * height <= usize::MAX,
        ensures
            r.0.dims().width == width,
            r.0.dims().height == height,
            r.0.wf_grid(r.1),
    {
        let current = ConwayState::new_dead(width, height);
        let scratch = ConwayState::new_dead(width, height);
        let lock = RwLock::new(
            current,
            Ghost(GridDims { width: width as int, height: height as int }),
        );
        (SharedSim { lock }, scratch)
    }

    /// Under a read lock, compute into `scratch` the generation that
    /// follows the current one; concurrent readers proceed unhindered,
    /// and the current grid is only read.
    pub fn step_into(&self, scratch: &mut ConwayState)
        requires
            self.wf_grid(*old(scratch)),
        ensures
            self.wf_grid(*final(scratch)),
            exists|g: ConwayState|
                self.wf_grid(g) && final(scratch).is_next_generation_of(g),
    {
        let read_handle = self.lock.acquire_read();
        let current = read_handle.borrow();
        current.next_state(scratch);
        proof {
            assert(self.wf_grid(*current) && scratch.is_next_generation_of(*current));
        }
        read_handle.release_read();
    }

    /// Under the write lock, and in O(1), make the grid in `scratch` the
    /// current generation; the grid that was current comes back in
    /// `scratch` for the next step to overwrite.
    pub fn swap_in(&self, scratch: &mut ConwayState)
        requires
            self.wf_grid(*old(scratch)),
        ensures
            self.wf_grid(*final(scratch)),
    {
        let (mut current, write_handle) = self.lock.acquire_write();
        current.swap_state(scratch);
        write_handle.release_write(current);
    }

    /// Under a read lock, a copy of the current generation: one whole,
    /// well-formed grid, never a mix of two generations.
    pub fn snapshot(&self) -> (r: ConwayState)
        ensures
            self.wf_grid(r),
    {
        let read_handle = self.lock.acquire_read();
        let r = read_handle.borrow().duplicate();
        read_handle.release_read();
        r
    }
}

} // verus!
