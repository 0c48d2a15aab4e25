//! The grid of cells and the per-cell transition rule.
//!
//! A grid is a flat vector of two-state cells addressed by `y * width + x`,
//! with a closed (non-wrapping) boundary: a neighbor position outside the
//! grid never counts as alive.

use vstd::prelude::*;

verus! {

/// One cell of the automaton: dead or alive, nothing more.
#[derive(Clone, Copy, PartialEq, Eq, Structural, Debug)]
pub enum CellState {
    Dead,
    Alive,
}

/// A fixed-size grid of cells, stored row-major in a flat vector.
pub struct ConwayState {
    cells: Vec<CellState>,
    width: usize,
    height: usize,
}

/// 1 if the condition holds, 0 otherwise; used to sum neighbor checks.
pub open spec fn count1(b: bool) -> int {
    if b {
        1
    } else {
        0
    }
}

/// The transition rule, as a table on (state, live neighbor count):
/// a dead cell becomes alive exactly on 3 live neighbors; a live cell
/// stays alive exactly on 2 or 3; everything else is dead.
pub open spec fn next_cell_spec(c: CellState, live_count: int) -> CellState {
    match c {
        CellState::Dead => if live_count == 3 {
            CellState::Alive
        } else {
            CellState::Dead
        },
        CellState::Alive => if live_count == 2 || live_count == 3 {
            CellState::Alive
        } else {
            CellState::Dead
        },
    }
}

impl ConwayState {
    /// The grid contents as a mathematical sequence.
    pub closed spec fn grid(&self) -> Seq<CellState> {
        self.cells@
    }

    pub closed spec fn w(&self) -> int {
        self.width as int
    }

    pub closed spec fn h(&self) -> int {
        self.height as int
    }

    /// Well-formedness: positive dimensions that fit the machine's index
    /// range, and a fully allocated flat store.
    pub open spec fn wf(&self) -> bool {
        &&& self.grid().len() == self.w() * self.h()
        &&& self.w() >= 1
        &&& self.h() >= 1
        &&& self.w() <= usize::MAX
        &&& self.h() <= usize::MAX
        &&& self.w() * self.h() <= usize::MAX
    }

    /// The cell at an in-range position.
    pub open spec fn cell(&self, x: int, y: int) -> CellState {
        self.grid()[y * self.w() + x]
    }

    /// Whether a position holds a live cell; every position outside
    /// `[0,width) x [0,height)` is dead, so no wraparound ever applies.
    pub open spec fn alive_at(&self, x: int, y: int) -> bool {
        &&& 0 <= x < self.w()
        &&& 0 <= y < self.h()
        &&& self.cell(x, y) is Alive
    }

    /// Live cells among the 8 Moore-neighborhood offsets of `(x, y)`.
    pub open spec fn neighbor_count(&self, x: int, y: int) -> int {
        count1(self.alive_at(x - 1, y - 1)) + count1(self.alive_at(x, y - 1)) + count1(
            self.alive_at(x + 1, y - 1),
        ) + count1(self.alive_at(x - 1, y)) + count1(self.alive_at(x + 1, y)) + count1(
            self.alive_at(x - 1, y + 1),
        ) + count1(self.alive_at(x, y + 1)) + count1(self.alive_at(x + 1, y + 1))
    }

    /// What the cell at `(x, y)` becomes in the next generation.
    pub open spec fn next_cell(&self, x: int, y: int) -> CellState {
        next_cell_spec(self.cell(x, y), self.neighbor_count(x, y))
    }

    /// Every cell in range is dead.
    pub open spec fn all_dead(&self) -> bool {
        forall|x: int, y: int|
            0 <= x < self.w() && 0 <= y < self.h() ==> !self.alive_at(x, y)
    }

    /// `self` holds, cell for cell, the generation that follows `g`.
    pub open spec fn is_next_generation_of(&self, g: ConwayState) -> bool {
        &&& self.wf()
        &&& g.wf()
        &&& self.w() == g.w()
        &&& self.h() == g.h()
        &&& forall|x: int, y: int|
            0 <= x < g.w() && 0 <= y < g.h() ==> self.cell(x, y) == g.next_cell(x, y)
    }
}

/// A row-major position within the grid bounds maps to a flat index
/// within the store.
pub proof fn lemma_linear_index(x: int, y: int, w: int, h: int)
    requires
        0 <= x < w,
        0 <= y < h,
    ensures
        0 <= y * w + x < w * h,
{
    assert(0 <= y * w + x < w * h) by (nonlinear_arith)
        requires
            0 <= x < w,
            0 <= y < h,
    ;
}

impl ConwayState {
    pub fn width(&self) -> (r: usize)
        ensures
            r == self.w(),
    {
        self.width
    }

    pub fn height(&self) -> (r: usize)
        ensures
            r == self.h(),
    {
        self.height
    }

    /// Read one cell.
    pub fn get_cell(&self, x: usize, y: usize) -> (r: CellState)
        requires
            self.wf(),
            x < self.w(),
            y < self.h(),
        ensures
            r == self.cell(x as int, y as int),
    {
        // ties the store length, and with it the index, to usize range
        let _store_len: usize = self.cells.len();
        proof {
            lemma_linear_index(x as int, y as int, self.w(), self.h());
        }
        self.cells[y * self.width + x]
    }

    /// Overwrite one cell, leaving the rest of the grid as it was.
    pub fn set_cell(&mut self, x: usize, y: usize, c: CellState)
        requires
            old(self).wf(),
            x < old(self).w(),
            y < old(self).h(),
        ensures
            final(self).wf(),
            final(self).w() == old(self).w(),
            final(self).h() == old(self).h(),
            final(self).grid() == old(self).grid().update(y * old(self).w() + x, c),
            final(self).cell(x as int, y as int) == c,
    {
        // ties the store length, and with it the index, to usize range
        let _store_len: usize = self.cells.len();
        proof {
            lemma_linear_index(x as int, y as int, self.w(), self.h());
        }
        self.cells.set(y * self.width + x, c);
    }
}

impl ConwayState {
    /// Mutable access to the flat cell store, for the stepper.
    pub(crate) fn cells_mut(&mut self) -> (r: &mut Vec<CellState>)
        ensures
            r@ == old(self).grid(),
            final(self).grid() == final(r)@,
            final(self).w() == old(self).w(),
            final(self).h() == old(self).h(),
    {
        &mut self.cells
    }
}

/// Relies on rand::random: it returns some value of the requested type;
/// nothing is assumed of which one.
pub assume_specification<T>[ rand::random::<T> ]() -> (r: T)
    where
        rand::distributions::Standard: rand::distributions::Distribution<T>,
;

impl ConwayState {
    /// A grid with every cell drawn independently at random.
    pub fn new(width: usize, height: usize) -> (r: ConwayState)
        requires
            1 <= width,
            1 <= height,
            width * height <= usize::MAX,
        ensures
            r.wf(),
            r.w() == width,
            r.h() == height,
    {
        let n: usize = width * height;
        let mut cells: Vec<CellState> = Vec::new();
        let mut i: usize = 0;
        while i < n
            invariant
                i <= n,
                cells@.len() == i,
            decreases n - i,
        {
            if rand::random::<bool>() {
                cells.push(CellState::Alive);
            } else {
                cells.push(CellState::Dead);
            }
            i = i + 1;
        }
        ConwayState { cells, width, height }
    }

    /// A grid with every cell dead.
    pub fn new_dead(width: usize, height: usize) -> (r: ConwayState)
        requires
            1 <= width,
            1 <= height,
            width * height <= usize::MAX,
        ensures
            r.wf(),
            r.w() == width,
            r.h() == height,
            r.all_dead(),
            forall|k: int| 0 <= k < r.grid().len() ==> r.grid()[k] is Dead,
    {
        let n: usize = width * height;
        let mut cells: Vec<CellState> = Vec::new();
        let mut i: usize = 0;
        while i < n
            invariant
                i <= n,
                cells@.len() == i,
                forall|k: int| 0 <= k < i ==> cells@[k] is Dead,
            decreases n - i,
        {
            cells.push(CellState::Dead);
            i = i + 1;
        }
        let r = ConwayState { cells, width, height };
        proof {
            assert forall|x: int, y: int|
                0 <= x < r.w() && 0 <= y < r.h() implies !r.alive_at(x, y) by {
                lemma_linear_index(x, y, r.w(), r.h());
            }
        }
        r
    }

    /// A randomly seeded grid, or nothing exactly when the dimensions are
    /// unusable: zero, or a cell count beyond the machine's index range.
    pub fn try_new(width: usize, height: usize) -> (r: Option<ConwayState>)
        ensures
            r is Some <==> (1 <= width && 1 <= height && width * height <= usize::MAX),
            r is Some ==> {
                &&& r->Some_0.wf()
                &&& r->Some_0.w() == width
                &&& r->Some_0.h() == height
            },
    {
        if width >= 1 && height >= 1 && width.checked_mul(height).is_some() {
            Some(ConwayState::new(width, height))
        } else {
            None
        }
    }

    /// An all-dead grid, or nothing exactly when the dimensions are
    /// unusable, as in `try_new`.
    pub fn try_new_dead(width: usize, height: usize) -> (r: Option<ConwayState>)
        ensures
            r is Some <==> (1 <= width && 1 <= height && width * height <= usize::MAX),
            r is Some ==> {
                &&& r->Some_0.wf()
                &&& r->Some_0.w() == width
                &&& r->Some_0.h() == height
                &&& r->Some_0.all_dead()
            },
    {
        if width >= 1 && height >= 1 && width.checked_mul(height).is_some() {
            Some(ConwayState::new_dead(width, height))
        } else {
            None
        }
    }

    /// An exact copy of the grid.
    pub fn duplicate(&self) -> (r: ConwayState)
        requires
            self.wf(),
        ensures
            r.wf(),
            r.w() == self.w(),
            r.h() == self.h(),
            r.grid() == self.grid(),
    {
        let n: usize = self.cells.len();
        let mut cells: Vec<CellState> = Vec::new();
        let mut i: usize = 0;
        while i < n
            invariant
                i <= n,
                n == self.grid().len(),
                cells@.len() == i,
                forall|k: int| 0 <= k < i ==> cells@[k] == self.grid()[k],
            decreases n - i,
        {
            cells.push(self.cells[i]);
            i = i + 1;
        }
        proof {
            assert(cells@ =~= self.grid());
        }
        ConwayState { cells, width: self.width, height: self.height }
    }

    /// Whether the in-range position `(x, y)` holds a live cell.
    pub fn is_alive(&self, x: usize, y: usize) -> (r: bool)
        requires
            self.wf(),
            x < self.w(),
            y < self.h(),
        ensures
            r == self.alive_at(x as int, y as int),
    {
        match self.get_cell(x, y) {
            CellState::Alive => true,
            CellState::Dead => false,
        }
    }

    /// Live cells among the 8 neighbors of `(x, y)`, counting any position
    /// outside the grid as dead.
    pub fn count_alive_neighbors(&self, x: usize, y: usize) -> (r: usize)
        requires
            self.wf(),
            x < self.w(),
            y < self.h(),
        ensures
            r == self.neighbor_count(x as int, y as int),
            r <= 8,
    {
        let mut count: usize = 0;
        if x > 0 && y > 0 && self.is_alive(x - 1, y - 1) {
            count = count + 1;
        }
        if y > 0 && self.is_alive(x, y - 1) {
            count = count + 1;
        }
        if x + 1 < self.width && y > 0 && self.is_alive(x + 1, y - 1) {
            count = count + 1;
        }
        if x > 0 && self.is_alive(x - 1, y) {
            count = count + 1;
        }
        if x + 1 < self.width && self.is_alive(x + 1, y) {
            count = count + 1;
        }
        if x > 0 && y + 1 < self.height && self.is_alive(x - 1, y + 1) {
            count = count + 1;
        }
        if y + 1 < self.height && self.is_alive(x, y + 1) {
            count = count + 1;
        }
        if x + 1 < self.width && y + 1 < self.height && self.is_alive(x + 1, y + 1) {
            count = count + 1;
        }
        count
    }

    /// The rule applied to one observed state and live-neighbor count.
    pub fn apply_rule(c: CellState, live_count: usize) -> (r: CellState)
        ensures
            r == next_cell_spec(c, live_count as int),
    {
        match c {
            CellState::Dead => if live_count == 3 {
                CellState::Alive
            } else {
                CellState::Dead
            },
            CellState::Alive => if live_count == 2 || live_count == 3 {
                CellState::Alive
            } else {
                CellState::Dead
            },
        }
    }

    /// A live neighbor is only ever counted at an in-range position, so
    /// the count lies in `[0, 8]` wherever it is taken.
    pub proof fn lemma_neighbor_count_range(&self, x: int, y: int)
        ensures
            0 <= self.neighbor_count(x, y) <= 8,
    {
    }

    /// A cell on the boundary of the grid has at most 5 in-range neighbor
    /// positions, so its count never exceeds 5.
    pub proof fn lemma_edge_neighbor_bound(&self, x: int, y: int)
        requires
            0 <= x < self.w(),
            0 <= y < self.h(),
            x == 0 || x == self.w() - 1 || y == 0 || y == self.h() - 1,
        ensures
            self.neighbor_count(x, y) <= 5,
    {
    }

    /// A corner cell has at most 3 in-range neighbor positions, so its
    /// count never exceeds 3.
    pub proof fn lemma_corner_neighbor_bound(&self, x: int, y: int)
        requires
            0 <= x < self.w(),
            0 <= y < self.h(),
            x == 0 || x == self.w() - 1,
            y == 0 || y == self.h() - 1,
        ensures
            self.neighbor_count(x, y) <= 3,
    {
    }

    /// The state that the cell at `(x, y)` takes in the next generation;
    /// reads the current grid only, writes nothing.
    pub fn next_cell_state(&self, x: usize, y: usize) -> (r: CellState)
        requires
            self.wf(),
            x < self.w(),
            y < self.h(),
        ensures
            r == self.next_cell(x as int, y as int),
    {
        let c = self.get_cell(x, y);
        let live_count = self.count_alive_neighbors(x, y);
        ConwayState::apply_rule(c, live_count)
    }
}

/// An all-dead grid is a fixed point of the step: whatever generation
/// follows it is all dead again, so the grid stays dead under any number
/// of steps.
pub proof fn lemma_all_dead_fixed_point(g: ConwayState, n: ConwayState)
    requires
        g.all_dead(),
        n.is_next_generation_of(g),
    ensures
        n.all_dead(),
{
    assert forall|x: int, y: int|
        0 <= x < n.w() && 0 <= y < n.h() implies !n.alive_at(x, y) by {
        assert(g.neighbor_count(x, y) == 0);
        assert(n.cell(x, y) == g.next_cell(x, y));
    }
}

} // verus!
