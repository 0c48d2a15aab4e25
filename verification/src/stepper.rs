//! Advancing a grid one generation at a time.
//!
//! A step reads only the current grid and writes only a scratch grid; a
//! swap then exchanges the two in O(1). The recomputation is decomposed
//! into row-chunks that partition the grid exactly, so the work can be
//! spread over workers with disjoint write targets.

use rayon::iter::IndexedParallelIterator;
use rayon::iter::ParallelIterator;
use rayon::slice::ParallelSliceMut;
use vstd::prelude::*;
use vstd::arithmetic::div_mod::lemma_div_is_ordered;
use vstd::arithmetic::div_mod::lemma_div_pos_is_pos;
use vstd::arithmetic::div_mod::lemma_fundamental_div_mod;
use vstd::arithmetic::div_mod::lemma_fundamental_div_mod_converse;
use vstd::arithmetic::div_mod::lemma_mod_bound;
use crate::grid::CellState;
use crate::grid::ConwayState;
use crate::grid::lemma_linear_index;

verus! {

/// How many rows one unit of parallel work covers; the last chunk of a
/// grid may hold fewer when the height is not a multiple.
pub const ROWS_IN_CHUNK: usize = 2;

pub open spec fn spec_min(a: int, b: int) -> int {
    if a <= b {
        a
    } else {
        b
    }
}

/// How many chunks a grid of `height` rows splits into.
pub open spec fn num_chunks(height: int, rows_in_chunk: int) -> int {
    (height + rows_in_chunk - 1) / rows_in_chunk
}

/// The first row of chunk `c`.
pub open spec fn chunk_start(c: int, rows_in_chunk: int) -> int {
    c * rows_in_chunk
}

/// How many rows chunk `c` covers: `rows_in_chunk`, truncated at the
/// bottom of the grid.
pub open spec fn chunk_rows(c: int, rows_in_chunk: int, height: int) -> int {
    spec_min(rows_in_chunk, height - c * rows_in_chunk)
}

/// Whether row `r` falls in chunk `c`'s range.
pub open spec fn row_in_chunk(r: int, c: int, rows_in_chunk: int, height: int) -> bool {
    chunk_start(c, rows_in_chunk) <= r < chunk_start(c, rows_in_chunk) + chunk_rows(
        c,
        rows_in_chunk,
        height,
    )
}

/// Every chunk index below `num_chunks` covers at least one row, and its
/// rows lie inside `[0, height)`.
pub proof fn lemma_chunk_bounds(height: int, rows_in_chunk: int, c: int)
    requires
        rows_in_chunk >= 1,
        height >= 1,
        0 <= c < num_chunks(height, rows_in_chunk),
    ensures
        chunk_start(c, rows_in_chunk) >= 0,
        chunk_rows(c, rows_in_chunk, height) >= 1,
        chunk_start(c, rows_in_chunk) + chunk_rows(c, rows_in_chunk, height) <= height,
{
    let ric = rows_in_chunk;
    // num_chunks(height, ric) == (height - 1) / ric + 1
    lemma_fundamental_div_mod(height - 1, ric);
    lemma_mod_bound(height - 1, ric);
    assert(height + ric - 1 == ((height - 1) / ric + 1) * ric + (height - 1) % ric)
        by (nonlinear_arith)
        requires
            height - 1 == ric * ((height - 1) / ric) + (height - 1) % ric,
    ;
    lemma_fundamental_div_mod_converse(
        height + ric - 1,
        ric,
        (height - 1) / ric + 1,
        (height - 1) % ric,
    );
    assert(num_chunks(height, ric) == (height - 1) / ric + 1);
    // c <= (height - 1) / ric, so c * ric <= height - 1
    lemma_div_pos_is_pos(height - 1, ric);
    assert(c * ric <= ((height - 1) / ric) * ric) by (nonlinear_arith)
        requires
            c <= (height - 1) / ric,
            ric >= 1,
    ;
    assert(((height - 1) / ric) * ric <= height - 1);
    assert(c * ric >= 0) by (nonlinear_arith)
        requires
            c >= 0,
            ric >= 1,
    ;
}

/// The chunk row-ranges partition `[0, height)` exactly: every row lies
/// in the range of chunk `r / rows_in_chunk` and of no other chunk.
pub proof fn lemma_chunk_partition(height: int, rows_in_chunk: int, r: int)
    requires
        rows_in_chunk >= 1,
        0 <= r < height,
    ensures
        0 <= r / rows_in_chunk < num_chunks(height, rows_in_chunk),
        row_in_chunk(r, r / rows_in_chunk, rows_in_chunk, height),
        forall|c: int| row_in_chunk(r, c, rows_in_chunk, height) ==> c == r / rows_in_chunk,
{
    let ric = rows_in_chunk;
    let q = r / ric;
    lemma_div_pos_is_pos(r, ric);
    lemma_fundamental_div_mod(r, ric);
    lemma_mod_bound(r, ric);
    assert(q * ric <= r < q * ric + ric);
    // q is below the chunk count: r <= height - 1 gives q <= (height - 1) / ric
    lemma_div_is_ordered(r, height - 1, ric);
    lemma_fundamental_div_mod(height - 1, ric);
    lemma_mod_bound(height - 1, ric);
    assert(height + ric - 1 == ((height - 1) / ric + 1) * ric + (height - 1) % ric)
        by (nonlinear_arith)
        requires
            height - 1 == ric * ((height - 1) / ric) + (height - 1) % ric,
    ;
    lemma_fundamental_div_mod_converse(
        height + ric - 1,
        ric,
        (height - 1) / ric + 1,
        (height - 1) % ric,
    );
    assert(num_chunks(height, ric) == (height - 1) / ric + 1);
    // r lies in chunk q's range, whether or not that chunk is truncated
    assert(row_in_chunk(r, q, ric, height));
    // and in no other chunk's: a chunk's range sits inside [start, start + ric)
    assert forall|c: int| row_in_chunk(r, c, ric, height) implies c == q by {
        assert(c * ric <= r < c * ric + ric);
        lemma_fundamental_div_mod_converse(r, ric, c, r - c * ric);
    }
}

/// Distinct in-range positions map to distinct flat indices.
pub proof fn lemma_linear_index_injective(x1: int, y1: int, x2: int, y2: int, w: int)
    requires
        0 <= x1 < w,
        0 <= x2 < w,
        0 <= y1,
        0 <= y2,
        y1 * w + x1 == y2 * w + x2,
    ensures
        x1 == x2,
        y1 == y2,
{
    assert(y1 == y2 && x1 == x2) by (nonlinear_arith)
        requires
            0 <= x1 < w,
            0 <= x2 < w,
            0 <= y1,
            0 <= y2,
            y1 * w + x1 == y2 * w + x2,
    ;
}

/// A flat index below `w * h` decomposes into the position
/// `(k % w, k / w)`, which lies inside the grid bounds.
pub proof fn lemma_flat_index_decompose(k: int, w: int, h: int)
    requires
        w >= 1,
        0 <= k < w * h,
    ensures
        0 <= k % w < w,
        0 <= k / w < h,
        k == (k / w) * w + (k % w),
{
    lemma_fundamental_div_mod(k, w);
    lemma_mod_bound(k, w);
    lemma_div_pos_is_pos(k, w);
    lemma_div_is_ordered(k, w * h - 1, w);
    assert(w * h - 1 == (h - 1) * w + (w - 1)) by (nonlinear_arith);
    lemma_fundamental_div_mod_converse(w * h - 1, w, h - 1, w - 1);
    assert((k / w) * w == w * (k / w)) by (nonlinear_arith);
}

impl ConwayState {
    /// The next states of `n_rows` consecutive rows starting at `row_start`,
    /// in row-major order, computed from the current grid only.
    pub fn compute_rows(&self, row_start: usize, n_rows: usize) -> (r: Vec<CellState>)
        requires
            self.wf(),
            row_start + n_rows <= self.h(),
        ensures
            r@.len() == n_rows * self.w(),
            forall|k: int|
                0 <= k < r@.len() ==> r@[k] == self.next_cell(
                    k % self.w(),
                    row_start + k / self.w(),
                ),
    {
        let width = self.width();
        let mut out: Vec<CellState> = Vec::new();
        let mut j: usize = 0;
        while j < n_rows
            invariant
                self.wf(),
                width == self.w(),
                row_start + n_rows <= self.h(),
                j <= n_rows,
                out@.len() == j * width,
                forall|k: int|
                    0 <= k < out@.len() ==> out@[k] == self.next_cell(
                        k % self.w(),
                        row_start + k / self.w(),
                    ),
            decreases n_rows - j,
        {
            let mut i: usize = 0;
            while i < width
                invariant
                    self.wf(),
                    width == self.w(),
                    row_start + n_rows <= self.h(),
                    j < n_rows,
                    i <= width,
                    out@.len() == j * width + i,
                    forall|k: int|
                        0 <= k < out@.len() ==> out@[k] == self.next_cell(
                            k % self.w(),
                            row_start + k / self.w(),
                        ),
                decreases width - i,
            {
                let v = self.next_cell_state(i, row_start + j);
                out.push(v);
                proof {
                    lemma_fundamental_div_mod_converse(j * width + i, width as int, j as int, i as int);
                }
                i = i + 1;
            }
            proof {
                assert((j + 1) * width == j * width + width) by (nonlinear_arith);
            }
            j = j + 1;
        }
        out
    }
}

/// Relies on rayon's `par_chunks_mut`: it splits the scratch store into
/// disjoint consecutive chunks of `rows_in_chunk * width` elements each
/// (the last one shorter when the store is no multiple of that), hands
/// chunk `c` to the closure exactly once with its first element at flat
/// index `c * rows_in_chunk * width`, and returns only once every chunk
/// is done. The closure writes nothing but what `compute_rows`, a
/// verified function of this crate, returns for that chunk's rows.
#[verifier::external_body]
fn par_fill_next(current: &ConwayState, scratch: &mut ConwayState, rows_in_chunk: usize)
    requires
        current.wf(),
        old(scratch).wf(),
        old(scratch).w() == current.w(),
        old(scratch).h() == current.h(),
        1 <= rows_in_chunk <= current.h(),
    ensures
        final(scratch).wf(),
        final(scratch).w() == current.w(),
        final(scratch).h() == current.h(),
        forall|k: int|
            0 <= k < current.w() * current.h() ==> final(scratch).grid()[k] == current.next_cell(
                k % current.w(),
                k / current.w(),
            ),
{
    let width = current.width();
    let chunk_elems = rows_in_chunk * width;
    scratch.cells_mut().par_chunks_mut(chunk_elems).enumerate().for_each(|(c, chunk)| {
        let rows = chunk.len() / width;
        let computed = current.compute_rows(c * rows_in_chunk, rows);
        chunk.copy_from_slice(computed.as_slice());
    });
}

impl ConwayState {
    /// Compute the generation that follows `self` into `scratch`, the rows
    /// split into chunks of `rows_in_chunk` (clamped to the grid height)
    /// that workers fill in parallel. Reads only `self`; overwrites every
    /// cell of `scratch`; the result does not depend on the chunk size.
    pub fn next_state_with_chunk_size(&self, scratch: &mut ConwayState, rows_in_chunk: usize)
        requires
            self.wf(),
            old(scratch).wf(),
            old(scratch).w() == self.w(),
            old(scratch).h() == self.h(),
            rows_in_chunk >= 1,
        ensures
            final(scratch).is_next_generation_of(*self),
    {
        let ric = if rows_in_chunk <= self.height() {
            rows_in_chunk
        } else {
            self.height()
        };
        par_fill_next(self, scratch, ric);
        proof {
            assert forall|x: int, y: int|
                0 <= x < self.w() && 0 <= y < self.h() implies scratch.cell(x, y)
                == self.next_cell(x, y) by {
                lemma_linear_index(x, y, self.w(), self.h());
                lemma_fundamental_div_mod_converse(y * self.w() + x, self.w(), y, x);
            }
        }
    }

    /// One parallel step with the stock chunk size.
    pub fn next_state(&self, scratch: &mut ConwayState)
        requires
            self.wf(),
            old(scratch).wf(),
            old(scratch).w() == self.w(),
            old(scratch).h() == self.h(),
        ensures
            final(scratch).is_next_generation_of(*self),
    {
        self.next_state_with_chunk_size(scratch, ROWS_IN_CHUNK);
    }

    /// Compute the generation that follows `self` into `scratch` on the
    /// caller's thread, walking the same row-chunks the parallel stepper
    /// hands out, one after another. The contract is the parallel
    /// stepper's: the result depends on the current grid alone.
    pub fn next_state_serial(&self, scratch: &mut ConwayState, rows_in_chunk: usize)
        requires
            self.wf(),
            old(scratch).wf(),
            old(scratch).w() == self.w(),
            old(scratch).h() == self.h(),
            rows_in_chunk >= 1,
        ensures
            final(scratch).is_next_generation_of(*self),
    {
        let width = self.width();
        let height = self.height();
        let mut row: usize = 0;
        while row < height
            invariant
                self.wf(),
                scratch.wf(),
                scratch.w() == self.w(),
                scratch.h() == self.h(),
                width == self.w(),
                height == self.h(),
                rows_in_chunk >= 1,
                row <= height,
                forall|x: int, y: int|
                    0 <= x < self.w() && 0 <= y < row ==> scratch.cell(x, y) == self.next_cell(
                        x,
                        y,
                    ),
            decreases height - row,
        {
            let rows = if height - row < rows_in_chunk {
                height - row
            } else {
                rows_in_chunk
            };
            let mut j: usize = 0;
            while j < rows
                invariant
                    self.wf(),
                    scratch.wf(),
                    scratch.w() == self.w(),
                    scratch.h() == self.h(),
                    width == self.w(),
                    height == self.h(),
                    row + rows <= height,
                    rows >= 1,
                    j <= rows,
                    forall|x: int, y: int|
                        0 <= x < self.w() && 0 <= y < row + j ==> scratch.cell(x, y)
                            == self.next_cell(x, y),
                decreases rows - j,
            {
                let mut i: usize = 0;
                while i < width
                    invariant
                        self.wf(),
                        scratch.wf(),
                        scratch.w() == self.w(),
                        scratch.h() == self.h(),
                        width == self.w(),
                        height == self.h(),
                        row + rows <= height,
                        j < rows,
                        i <= width,
                        forall|x: int, y: int|
                            0 <= x < self.w() && 0 <= y < row + j ==> scratch.cell(x, y)
                                == self.next_cell(x, y),
                        forall|x: int|
                            0 <= x < i ==> #[trigger] scratch.cell(x, row + j)
                                == self.next_cell(x, row + j),
                    decreases width - i,
                {
                    let v = self.next_cell_state(i, row + j);
                    let ghost prev = *scratch;
                    scratch.set_cell(i, row + j, v);
                    proof {
                        let w = self.w();
                        let yj = row + j;
                        assert forall|x: int, y: int|
                            0 <= x < w && 0 <= y <= yj && (y < yj || x <= i) implies scratch.cell(
                            x,
                            y,
                        ) == (if y == yj && x == i {
                            v
                        } else {
                            prev.cell(x, y)
                        }) by {
                            lemma_linear_index(x, y, w, self.h());
                            lemma_linear_index(i as int, yj as int, w, self.h());
                            if y * w + x == yj * w + i {
                                lemma_linear_index_injective(x, y, i as int, yj as int, w);
                            }
                        }
                    }
                    i = i + 1;
                }
                j = j + 1;
            }
            row = row + rows;
        }
    }

    /// Exchange the roles of the two grids in O(1): the freshly computed
    /// generation in `scratch` becomes current, and the old current grid
    /// becomes the next step's scratch.
    pub fn swap_state(&mut self, scratch: &mut ConwayState)
        ensures
            *final(self) == *old(scratch),
            *final(scratch) == *old(self),
    {
        core::mem::swap(self, scratch);
    }
}

/// A step is a pure function of the current grid contents: two grids of
/// the same dimensions holding identical cells step to identical next
/// generations, however each stepper split its work into chunks.
pub proof fn lemma_step_deterministic(
    g1: ConwayState,
    g2: ConwayState,
    n1: ConwayState,
    n2: ConwayState,
)
    requires
        g1.w() == g2.w(),
        g1.h() == g2.h(),
        g1.grid() == g2.grid(),
        n1.is_next_generation_of(g1),
        n2.is_next_generation_of(g2),
    ensures
        n1.grid() == n2.grid(),
{
    assert forall|k: int| 0 <= k < n1.grid().len() implies n1.grid()[k] == n2.grid()[k] by {
        lemma_flat_index_decompose(k, g1.w(), g1.h());
        let x = k % g1.w();
        let y = k / g1.w();
        assert(n1.cell(x, y) == g1.next_cell(x, y));
        assert(n2.cell(x, y) == g2.next_cell(x, y));
    }
    assert(n1.grid() =~= n2.grid());
}

} // verus!
