//! The aggregate root of the automaton: a toroidal grid of cells together
//! with a bounded undo history, advanced by the standard birth/survival rule
//! and mutated by cell-level operations.

use vstd::arithmetic::div_mod::lemma_fundamental_div_mod_converse;
use vstd::arithmetic::div_mod::lemma_small_mod;
use vstd::prelude::*;

use crate::cell::clone_cells;
use crate::cell::Cell;
use crate::history::hist_push;
use crate::history::Stack;

verus! {

/// A sequence of `n` dead cells: the contents of a freshly made or reset grid.
pub open spec fn all_dead(n: nat) -> Seq<Cell> {
    Seq::new(n, |i: int| Cell::Dead)
}

/// The linear index of the neighbour reached from `(row, col)` by the offset
/// `(dr, dc)`, wrapping toroidally on a `w` by `h` grid.
pub open spec fn wrapped_index(row: int, col: int, dr: int, dc: int, w: int, h: int) -> int {
    ((row + dr) % h) * w + ((col + dc) % w)
}

/// One summand of the neighbour count: the numeric value of the cell at
/// offset `(dr, dc)`, except that the offset whose components are both zero
/// (the cell itself) contributes nothing.
pub open spec fn neighbour_term(
    cells: Seq<Cell>,
    w: int,
    h: int,
    row: int,
    col: int,
    dr: int,
    dc: int,
) -> nat {
    if dr == 0 && dc == 0 {
        0
    } else {
        cells[wrapped_index(row, col, dr, dc, w, h)].spec_value()
    }
}

/// The live-neighbour count of `(row, col)`: the sum of the cell values over
/// the eight toroidally wrapped offsets drawn from `{h-1, 0, 1}` by
/// `{w-1, 0, 1}`. On grids narrower than three cells some of these offsets
/// coincide, so a cell can be counted as its own neighbour — an inherent
/// property of toroidal addressing at small sizes, kept on purpose.
pub open spec fn neighbour_count(cells: Seq<Cell>, w: int, h: int, row: int, col: int) -> nat {
    neighbour_term(cells, w, h, row, col, h - 1, w - 1) + neighbour_term(
        cells,
        w,
        h,
        row,
        col,
        h - 1,
        0,
    ) + neighbour_term(cells, w, h, row, col, h - 1, 1) + neighbour_term(
        cells,
        w,
        h,
        row,
        col,
        0,
        w - 1,
    ) + neighbour_term(cells, w, h, row, col, 0, 1) + neighbour_term(
        cells,
        w,
        h,
        row,
        col,
        1,
        w - 1,
    ) + neighbour_term(cells, w, h, row, col, 1, 0) + neighbour_term(cells, w, h, row, col, 1, 1)
}

/// The standard transition rule for one cell with live-neighbour count `n`:
/// a live cell survives exactly with two or three live neighbours, and a
/// dead cell is born exactly with three.
pub open spec fn next_cell(c: Cell, n: nat) -> Cell {
    match c {
        Cell::Alive => if n < 2 || n > 3 {
            Cell::Dead
        } else {
            Cell::Alive
        },
        Cell::Dead => if n == 3 {
            Cell::Alive
        } else {
            Cell::Dead
        },
    }
}

/// The next generation of a whole grid, computed entirely from the frozen
/// current one: every cell advances by the rule applied to its own
/// live-neighbour count in the pre-step grid.
pub open spec fn tick_cells(cells: Seq<Cell>, w: nat, h: nat) -> Seq<Cell> {
    Seq::new(
        cells.len(),
        |k: int|
            next_cell(
                cells[k],
                neighbour_count(cells, w as int, h as int, k / (w as int), k % (w as int)),
            ),
    )
}

/// The canonical initial pattern: the cell at linear index `i` is alive
/// exactly when `i` is divisible by two or by seven.
pub open spec fn default_pattern(n: nat) -> Seq<Cell> {
    Seq::new(
        n,
        |i: int|
            if i % 2 == 0 || i % 7 == 0 {
                Cell::Alive
            } else {
                Cell::Dead
            },
    )
}

/// The four neighbour offsets that the glider footprint skips: bottom-right,
/// top-right, bottom-left-ish and the centre. The comparisons are by value,
/// so on very small grids an offset written differently may coincide with a
/// skipped one and be skipped too.
pub open spec fn glider_excluded(dr: int, dc: int, w: int, h: int) -> bool {
    ||| (dr == h - 1 && dc == w - 1)
    ||| (dr == 0 && dc == w - 1)
    ||| (dr == h - 1 && dc == 1)
    ||| (dr == 0 && dc == 0)
}

/// Whether the glider stamped at `(row, col)` paints the cell at linear
/// index `k` through the offset `(dr, dc)`.
pub open spec fn glider_pair_hits(
    w: int,
    h: int,
    row: int,
    col: int,
    dr: int,
    dc: int,
    k: int,
) -> bool {
    !glider_excluded(dr, dc, w, h) && wrapped_index(row, col, dr, dc, w, h) == k
}

/// Whether the glider stamped at `(row, col)` paints the cell at linear
/// index `k`: some offset drawn from `{h-1, 0, 1}` by `{w-1, 0, 1}` that is
/// not skipped lands there, wrapping toroidally.
pub open spec fn glider_hits(w: int, h: int, row: int, col: int, k: int) -> bool {
    ||| glider_pair_hits(w, h, row, col, h - 1, w - 1, k)
    ||| glider_pair_hits(w, h, row, col, h - 1, 0, k)
    ||| glider_pair_hits(w, h, row, col, h - 1, 1, k)
    ||| glider_pair_hits(w, h, row, col, 0, w - 1, k)
    ||| glider_pair_hits(w, h, row, col, 0, 0, k)
    ||| glider_pair_hits(w, h, row, col, 0, 1, k)
    ||| glider_pair_hits(w, h, row, col, 1, w - 1, k)
    ||| glider_pair_hits(w, h, row, col, 1, 0, k)
    ||| glider_pair_hits(w, h, row, col, 1, 1, k)
}

/// Whether some listed `(row, col)` address maps to linear index `k` on a
/// grid of width `w`.
pub open spec fn marks_index(coords: Seq<(usize, usize)>, w: nat, k: int) -> bool {
    exists|i: int|
        0 <= i < coords.len() && (#[trigger] coords[i]).0 * w + coords[i].1 == k
}

/// The automaton state: a `width` by `height` toroidal grid stored row-major
/// and the undo history of its past contents.
pub struct Universe {
    width: usize,
    height: usize,
    cells: Vec<Cell>,
    action_stack: Stack,
}

impl Universe {
    /// The grid width in cells.
    pub closed spec fn spec_width(&self) -> nat {
        self.width as nat
    }

    /// The grid height in cells.
    pub closed spec fn spec_height(&self) -> nat {
        self.height as nat
    }

    /// The live cell contents, row-major.
    pub closed spec fn spec_cells(&self) -> Seq<Cell> {
        self.cells@
    }

    /// The undo snapshots, most recent first.
    pub closed spec fn history(&self) -> Seq<Seq<Cell>> {
        self.action_stack.entries()
    }

    /// How many undo snapshots are retained at most.
    pub closed spec fn history_capacity(&self) -> nat {
        self.action_stack.spec_capacity()
    }

    /// Well-formedness: the cell storage covers the grid exactly, and the
    /// history's ring buffer is intact.
    pub closed spec fn wf(&self) -> bool {
        &&& self.spec_cells().len() == self.spec_width() * self.spec_height()
        &&& self.action_stack.wf()
        &&& self.history().len() <= self.history_capacity()
        &&& 1 <= self.history_capacity()
    }

    /// An all-dead universe of the given dimensions with an empty history
    /// that holds up to ten snapshots.
    pub fn new(width: usize, height: usize) -> (r: Universe)
        requires
            width * height <= usize::MAX,
        ensures
            r.wf(),
            r.spec_width() == width,
            r.spec_height() == height,
            r.spec_cells() == all_dead((width * height) as nat),
            r.history() == Seq::<Seq<Cell>>::empty(),
            r.history_capacity() == 10,
    {
        let n = width * height;
        let mut cells: Vec<Cell> = Vec::new();
        while cells.len() < n
            invariant
                cells@.len() <= n,
                forall|i: int| 0 <= i < cells@.len() ==> cells@[i] == Cell::Dead,
            decreases n - cells.len(),
        {
            cells.push(Cell::Dead);
        }
        let r = Universe { width, height, cells, action_stack: Stack::new(10) };
        proof {
            assert(r.spec_cells() =~= all_dead((width * height) as nat));
        }
        r
    }

    /// The alternate convenience constructor: a fixed 64-by-64 universe
    /// already seeded with the canonical initial pattern, with an empty
    /// history that holds up to ten snapshots.
    pub fn new_default() -> (r: Universe)
        ensures
            r.wf(),
            r.spec_width() == 64,
            r.spec_height() == 64,
            r.history() == Seq::<Seq<Cell>>::empty(),
            r.history_capacity() == 10,
            r.spec_cells() == default_pattern(4096),
    {
        let mut r = Universe::new(64, 64);
        r.fill_default();
        r
    }

    /// The grid width.
    pub fn get_width(&self) -> (r: usize)
        ensures
            r == self.spec_width(),
    {
        self.width
    }

    /// The grid height.
    pub fn get_height(&self) -> (r: usize)
        ensures
            r == self.spec_height(),
    {
        self.height
    }

    /// A read-only view of the live cell contents, row-major.
    pub fn get_cells(&self) -> (r: &Vec<Cell>)
        ensures
            r@ == self.spec_cells(),
    {
        &self.cells
    }

    /// The linear index of `(row, col)` in the row-major cell storage.
    fn get_index(&self, row: usize, col: usize) -> (r: usize)
        requires
            self.wf(),
            row < self.spec_height(),
            col < self.spec_width(),
        ensures
            r == row * self.spec_width() + col,
            r < self.spec_cells().len(),
    {
        proof {
            assert(self.cells.len() == self.cells@.len());
            assert(row * self.width + col < self.width * self.height) by (nonlinear_arith)
                requires
                    row < self.height,
                    col < self.width,
            ;
        }
        row * self.width + col
    }

    /// The live-neighbour count of `(row, col)`: the sum of the numeric cell
    /// values over the eight toroidally wrapped neighbour offsets.
    fn get_neighbours_count(&self, row: usize, col: usize) -> (r: u8)
        requires
            self.wf(),
            row < self.spec_height(),
            col < self.spec_width(),
        ensures
            r == neighbour_count(
                self.spec_cells(),
                self.spec_width() as int,
                self.spec_height() as int,
                row as int,
                col as int,
            ),
            r <= 8,
    {
        let w = self.width;
        let h = self.height;
        let mut count: u8 = 0;
        count = count + self.neighbour_value(row, col, h - 1, w - 1);
        count = count + self.neighbour_value(row, col, h - 1, 0);
        count = count + self.neighbour_value(row, col, h - 1, 1);
        count = count + self.neighbour_value(row, col, 0, w - 1);
        count = count + self.neighbour_value(row, col, 0, 1);
        count = count + self.neighbour_value(row, col, 1, w - 1);
        count = count + self.neighbour_value(row, col, 1, 0);
        count = count + self.neighbour_value(row, col, 1, 1);
        count
    }

    /// Advances the whole grid by one generation. The pre-step grid is first
    /// pushed onto the undo history; the rule is then evaluated for every
    /// cell against that frozen pre-step grid and the results replace the
    /// grid atomically. Fully deterministic: the new grid is a pure function
    /// of the old one.
    pub fn tick(&mut self)
        requires
            old(self).wf(),
        ensures
            final(self).wf(),
            final(self).spec_width() == old(self).spec_width(),
            final(self).spec_height() == old(self).spec_height(),
            final(self).history_capacity() == old(self).history_capacity(),
            final(self).history() == hist_push(
                old(self).history(),
                old(self).history_capacity(),
                old(self).spec_cells(),
            ),
            final(self).spec_cells() == tick_cells(
                old(self).spec_cells(),
                old(self).spec_width(),
                old(self).spec_height(),
            ),
    {
        let snapshot = clone_cells(&self.cells);
        self.action_stack.push(snapshot);
        let mut next = clone_cells(&self.cells);
        let w = self.width;
        let h = self.height;
        let ghost frozen = self.spec_cells();
        let ghost target = tick_cells(frozen, w as nat, h as nat);
        let mut row: usize = 0;
        while row < h
            invariant
                row <= h,
                self.wf(),
                self.width == w,
                self.height == h,
                self.spec_cells() == frozen,
                self.action_stack.wf(),
                self.action_stack.spec_capacity() == old(self).history_capacity(),
                self.action_stack.entries() == hist_push(
                    old(self).history(),
                    old(self).history_capacity(),
                    old(self).spec_cells(),
                ),
                next@.len() == frozen.len(),
                target.len() == frozen.len(),
                target == tick_cells(frozen, w as nat, h as nat),
                frozen.len() == w * h,
                forall|k: int| 0 <= k < row * w ==> next@[k] == target[k],
            decreases h - row,
        {
            let mut col: usize = 0;
            while col < w
                invariant
                    row < h,
                    col <= w,
                    self.wf(),
                    self.width == w,
                    self.height == h,
                    self.spec_cells() == frozen,
                    next@.len() == frozen.len(),
                    target.len() == frozen.len(),
                    target == tick_cells(frozen, w as nat, h as nat),
                    frozen.len() == w * h,
                    forall|k: int| 0 <= k < row * w + col ==> next@[k] == target[k],
                decreases w - col,
            {
                let cell_index = self.get_index(row, col);
                let n = self.get_neighbours_count(row, col);
                let current = self.cells[cell_index];
                let updated = match (current, n) {
                    (Cell::Alive, x) if x < 2 || x > 3 => Cell::Dead,
                    (Cell::Alive, 2) | (Cell::Alive, 3) => Cell::Alive,
                    (Cell::Dead, 3) => Cell::Alive,
                    (c, _) => c,
                };
                next.set(cell_index, updated);
                proof {
                    lemma_fundamental_div_mod_converse(
                        cell_index as int,
                        w as int,
                        row as int,
                        col as int,
                    );
                    assert(next@[cell_index as int] == target[cell_index as int]);
                }
                col = col + 1;
            }
            proof {
                assert(row * w + w == (row + 1) * w) by (nonlinear_arith);
            }
            row = row + 1;
        }
        proof {
            assert(h * w == w * h) by (nonlinear_arith);
            assert(next@ =~= target);
        }
        self.cells = next;
    }

    /// Flips the cell at `(row, col)` between alive and dead, after pushing
    /// the current grid onto the undo history.
    pub fn toggle_cell(&mut self, row: usize, col: usize)
        requires
            old(self).wf(),
            row < old(self).spec_height(),
            col < old(self).spec_width(),
        ensures
            final(self).wf(),
            final(self).spec_width() == old(self).spec_width(),
            final(self).spec_height() == old(self).spec_height(),
            final(self).history_capacity() == old(self).history_capacity(),
            final(self).history() == hist_push(
                old(self).history(),
                old(self).history_capacity(),
                old(self).spec_cells(),
            ),
            final(self).spec_cells() == old(self).spec_cells().update(
                row as int * old(self).spec_width() as int + col as int,
                old(self).spec_cells()[row as int * old(self).spec_width() as int
                    + col as int].spec_toggled(),
            ),
    {
        let snapshot = clone_cells(&self.cells);
        self.action_stack.push(snapshot);
        let index = self.get_index(row, col);
        let flipped = self.cells[index].toggled();
        self.cells.set(index, flipped);
    }

    /// Sets every cell to dead, after pushing the current grid onto the undo
    /// history. The dimensions are unchanged.
    pub fn reset_cells(&mut self)
        requires
            old(self).wf(),
        ensures
            final(self).wf(),
            final(self).spec_width() == old(self).spec_width(),
            final(self).spec_height() == old(self).spec_height(),
            final(self).history_capacity() == old(self).history_capacity(),
            final(self).history() == hist_push(
                old(self).history(),
                old(self).history_capacity(),
                old(self).spec_cells(),
            ),
            final(self).spec_cells() == all_dead(old(self).spec_cells().len()),
    {
        let snapshot = clone_cells(&self.cells);
        self.action_stack.push(snapshot);
        let ghost pushed = self.action_stack;
        let n = self.cells.len();
        let mut i: usize = 0;
        while i < n
            invariant
                i <= n,
                self.cells@.len() == n,
                self.width == old(self).width,
                self.height == old(self).height,
                self.action_stack == pushed,
                forall|k: int| 0 <= k < i ==> self.cells@[k] == Cell::Dead,
            decreases n - i,
        {
            self.cells.set(i, Cell::Dead);
            i = i + 1;
        }
        proof {
            assert(self.spec_cells() =~= all_dead(old(self).spec_cells().len()));
        }
    }

    /// Changes the grid width and reinitialises every cell to dead: resizing
    /// is destructive on purpose, and pushes nothing onto the undo history.
    pub fn set_width(&mut self, width: usize)
        requires
            old(self).wf(),
            width * old(self).spec_height() <= usize::MAX,
        ensures
            final(self).wf(),
            final(self).spec_width() == width,
            final(self).spec_height() == old(self).spec_height(),
            final(self).history_capacity() == old(self).history_capacity(),
            final(self).history() == old(self).history(),
            final(self).spec_cells() == all_dead(
                (width * old(self).spec_height()) as nat,
            ),
    {
        self.width = width;
        self.refill_dead();
    }

    /// Changes the grid height and reinitialises every cell to dead:
    /// resizing is destructive on purpose, and pushes nothing onto the undo
    /// history.
    pub fn set_height(&mut self, height: usize)
        requires
            old(self).wf(),
            old(self).spec_width() * height <= usize::MAX,
        ensures
            final(self).wf(),
            final(self).spec_width() == old(self).spec_width(),
            final(self).spec_height() == height,
            final(self).history_capacity() == old(self).history_capacity(),
            final(self).history() == old(self).history(),
            final(self).spec_cells() == all_dead(
                (old(self).spec_width() * height) as nat,
            ),
    {
        self.height = height;
        self.refill_dead();
    }

    /// Replaces the cell storage with a fresh all-dead sequence matching the
    /// current dimensions.
    fn refill_dead(&mut self)
        requires
            old(self).action_stack.wf(),
            old(self).history().len() <= old(self).history_capacity(),
            1 <= old(self).history_capacity(),
            old(self).width * old(self).height <= usize::MAX,
        ensures
            final(self).wf(),
            final(self).width == old(self).width,
            final(self).height == old(self).height,
            final(self).action_stack == old(self).action_stack,
            final(self).spec_cells() == all_dead(
                (old(self).width * old(self).height) as nat,
            ),
    {
        let n = self.width * self.height;
        let mut cells: Vec<Cell> = Vec::new();
        while cells.len() < n
            invariant
                cells@.len() <= n,
                forall|i: int| 0 <= i < cells@.len() ==> cells@[i] == Cell::Dead,
            decreases n - cells.len(),
        {
            cells.push(Cell::Dead);
        }
        self.cells = cells;
        proof {
            assert(self.spec_cells() =~= all_dead((self.width * self.height) as nat));
        }
    }

    /// Rolls the grid back to the most recent snapshot, removing it from the
    /// history. On an empty history this is a no-op, never a failure. The
    /// dimensions stay as they are, so a snapshot taken before a destructive
    /// resize no longer fits the grid; such a snapshot is discarded and the
    /// cells are left unchanged.
    pub fn back(&mut self)
        requires
            old(self).wf(),
        ensures
            final(self).wf(),
            final(self).spec_width() == old(self).spec_width(),
            final(self).spec_height() == old(self).spec_height(),
            final(self).history_capacity() == old(self).history_capacity(),
            old(self).history().len() == 0 ==> final(self).history() == old(self).history()
                && final(self).spec_cells() == old(self).spec_cells(),
            old(self).history().len() > 0 ==> final(self).history() == old(
                self,
            ).history().drop_first() && final(self).spec_cells() == (if old(self).history()[0].len()
                == old(self).spec_width() * old(self).spec_height() {
                old(self).history()[0]
            } else {
                old(self).spec_cells()
            }),
    {
        match self.action_stack.pop() {
            Some(cells) => {
                if cells.len() == self.cells.len() {
                    self.cells = cells;
                }
            },
            None => {},
        }
    }

    /// Marks every listed `(row, col)` address alive, leaving all other
    /// cells as they are. A bulk seeding convenience: it pushes nothing onto
    /// the undo history.
    pub fn set_cells(&mut self, cells: &Vec<(usize, usize)>)
        requires
            old(self).wf(),
            forall|i: int|
                0 <= i < cells@.len() ==> (#[trigger] cells@[i]).0 < old(self).spec_height()
                    && cells@[i].1 < old(self).spec_width(),
        ensures
            final(self).wf(),
            final(self).spec_width() == old(self).spec_width(),
            final(self).spec_height() == old(self).spec_height(),
            final(self).history_capacity() == old(self).history_capacity(),
            final(self).history() == old(self).history(),
            final(self).spec_cells().len() == old(self).spec_cells().len(),
            forall|k: int|
                0 <= k < old(self).spec_cells().len() ==> final(self).spec_cells()[k] == (
                if marks_index(cells@, old(self).spec_width(), k) {
                    Cell::Alive
                } else {
                    old(self).spec_cells()[k]
                }),
    {
        let n = cells.len();
        let mut j: usize = 0;
        while j < n
            invariant
                j <= n,
                n == cells@.len(),
                self.wf(),
                self.width == old(self).width,
                self.height == old(self).height,
                self.action_stack == old(self).action_stack,
                self.spec_cells().len() == old(self).spec_cells().len(),
                forall|i: int|
                    0 <= i < cells@.len() ==> (#[trigger] cells@[i]).0 < self.spec_height()
                        && cells@[i].1 < self.spec_width(),
                forall|k: int|
                    0 <= k < old(self).spec_cells().len() ==> self.spec_cells()[k] == (
                    if marks_index(cells@.take(j as int), old(self).spec_width(), k) {
                        Cell::Alive
                    } else {
                        old(self).spec_cells()[k]
                    }),
            decreases n - j,
        {
            let pair = cells[j];
            let index = self.get_index(pair.0, pair.1);
            self.cells.set(index, Cell::Alive);
            j = j + 1;
            proof {
                let w = old(self).spec_width();
                let prefix = cells@.take(j as int);
                assert(prefix =~= cells@.take(j - 1).push(cells@[j - 1]));
                assert forall|k: int|
                    0 <= k < old(self).spec_cells().len() implies self.spec_cells()[k] == (
                if marks_index(prefix, w, k) {
                    Cell::Alive
                } else {
                    old(self).spec_cells()[k]
                }) by {
                    if marks_index(prefix, w, k) {
                        let i = choose|i: int|
                            0 <= i < prefix.len() && (#[trigger] prefix[i]).0 * w + prefix[i].1
                                == k;
                        if i < j - 1 {
                            assert(marks_index(cells@.take(j - 1), w, k));
                        }
                    } else {
                        assert(!marks_index(cells@.take(j - 1), w, k)) by {
                            if marks_index(cells@.take(j - 1), w, k) {
                                let i = choose|i: int|
                                    0 <= i < j - 1 && (#[trigger] cells@.take(j - 1)[i]).0 * w
                                        + cells@.take(j - 1)[i].1 == k;
                                assert(prefix[i] == cells@.take(j - 1)[i]);
                            }
                        }
                        assert(cells@[j - 1].0 * w + cells@[j - 1].1 != k) by {
                            assert(prefix[j - 1] == cells@[j - 1]);
                        }
                    }
                }
            }
        }
        proof {
            assert(cells@.take(n as int) =~= cells@);
        }
    }

    /// Repaints the grid with the canonical initial pattern — the cell at
    /// linear index `i` becomes alive exactly when `i` is divisible by two
    /// or by seven — after pushing the current grid onto the undo history.
    pub fn set_cells_default(&mut self)
        requires
            old(self).wf(),
        ensures
            final(self).wf(),
            final(self).spec_width() == old(self).spec_width(),
            final(self).spec_height() == old(self).spec_height(),
            final(self).history_capacity() == old(self).history_capacity(),
            final(self).history() == hist_push(
                old(self).history(),
                old(self).history_capacity(),
                old(self).spec_cells(),
            ),
            final(self).spec_cells() == default_pattern(old(self).spec_cells().len()),
    {
        let snapshot = clone_cells(&self.cells);
        self.action_stack.push(snapshot);
        self.fill_default();
    }

    /// Repaints the cells in place with the canonical initial pattern,
    /// touching neither the dimensions nor the history.
    fn fill_default(&mut self)
        requires
            old(self).wf(),
        ensures
            final(self).wf(),
            final(self).width == old(self).width,
            final(self).height == old(self).height,
            final(self).action_stack == old(self).action_stack,
            final(self).spec_cells() == default_pattern(old(self).spec_cells().len()),
    {
        let n = self.cells.len();
        let mut i: usize = 0;
        while i < n
            invariant
                i <= n,
                self.cells@.len() == n,
                self.width == old(self).width,
                self.height == old(self).height,
                self.action_stack == old(self).action_stack,
                forall|k: int| 0 <= k < i ==> self.cells@[k] == default_pattern(n as nat)[k],
            decreases n - i,
        {
            let alive = i % 2 == 0 || i % 7 == 0;
            self.cells.set(
                i,
                if alive {
                    Cell::Alive
                } else {
                    Cell::Dead
                },
            );
            i = i + 1;
        }
        proof {
            assert(self.spec_cells() =~= default_pattern(old(self).spec_cells().len()));
        }
    }

    /// Re-seeds every cell independently with an unbiased coin flip, after
    /// pushing the current grid onto the undo history. Only the dimensions
    /// and the history are promised: the cell contents are random.
    pub fn randomize_cells(&mut self)
        requires
            old(self).wf(),
        ensures
            final(self).wf(),
            final(self).spec_width() == old(self).spec_width(),
            final(self).spec_height() == old(self).spec_height(),
            final(self).history_capacity() == old(self).history_capacity(),
            final(self).history() == hist_push(
                old(self).history(),
                old(self).history_capacity(),
                old(self).spec_cells(),
            ),
            final(self).spec_cells().len() == old(self).spec_cells().len(),
    {
        let snapshot = clone_cells(&self.cells);
        self.action_stack.push(snapshot);
        let ghost pushed = self.action_stack;
        let n = self.cells.len();
        let mut i: usize = 0;
        while i < n
            invariant
                i <= n,
                self.cells@.len() == n,
                self.width == old(self).width,
                self.height == old(self).height,
                self.action_stack == pushed,
            decreases n - i,
        {
            let alive = coin_flip();
            self.cells.set(
                i,
                if alive {
                    Cell::Alive
                } else {
                    Cell::Dead
                },
            );
            i = i + 1;
        }
    }

    /// Stamps the five-cell glider footprint alive, anchored at `(row, col)`
    /// and wrapping toroidally, after pushing the current grid onto the undo
    /// history. Of the eight neighbour offsets plus the centre, the four
    /// skipped ones are compared by value, so on very small grids fewer
    /// distinct cells may be painted.
    pub fn draw_glider(&mut self, row: usize, col: usize)
        requires
            old(self).wf(),
            row < old(self).spec_height(),
            col < old(self).spec_width(),
        ensures
            final(self).wf(),
            final(self).spec_width() == old(self).spec_width(),
            final(self).spec_height() == old(self).spec_height(),
            final(self).history_capacity() == old(self).history_capacity(),
            final(self).history() == hist_push(
                old(self).history(),
                old(self).history_capacity(),
                old(self).spec_cells(),
            ),
            final(self).spec_cells().len() == old(self).spec_cells().len(),
            forall|k: int|
                0 <= k < old(self).spec_cells().len() ==> final(self).spec_cells()[k] == (
                if glider_hits(
                    old(self).spec_width() as int,
                    old(self).spec_height() as int,
                    row as int,
                    col as int,
                    k,
                ) {
                    Cell::Alive
                } else {
                    old(self).spec_cells()[k]
                }),
    {
        let snapshot = clone_cells(&self.cells);
        self.action_stack.push(snapshot);
        let h = self.height;
        let w = self.width;
        self.glider_stamp(row, col, h - 1, w - 1);
        self.glider_stamp(row, col, h - 1, 0);
        self.glider_stamp(row, col, h - 1, 1);
        self.glider_stamp(row, col, 0, w - 1);
        self.glider_stamp(row, col, 0, 0);
        self.glider_stamp(row, col, 0, 1);
        self.glider_stamp(row, col, 1, w - 1);
        self.glider_stamp(row, col, 1, 0);
        self.glider_stamp(row, col, 1, 1);
    }

    /// Paints alive the single cell reached from `(row, col)` by the offset
    /// `(dr, dc)`, unless the offset is one of the four the glider skips.
    fn glider_stamp(&mut self, row: usize, col: usize, dr: usize, dc: usize)
        requires
            old(self).wf(),
            row < old(self).spec_height(),
            col < old(self).spec_width(),
            dr <= old(self).spec_height(),
            dc <= old(self).spec_width(),
        ensures
            final(self).wf(),
            final(self).width == old(self).width,
            final(self).height == old(self).height,
            final(self).action_stack == old(self).action_stack,
            final(self).spec_cells() == (if glider_excluded(
                dr as int,
                dc as int,
                old(self).spec_width() as int,
                old(self).spec_height() as int,
            ) {
                old(self).spec_cells()
            } else {
                old(self).spec_cells().update(
                    wrapped_index(
                        row as int,
                        col as int,
                        dr as int,
                        dc as int,
                        old(self).spec_width() as int,
                        old(self).spec_height() as int,
                    ),
                    Cell::Alive,
                )
            }),
            !glider_excluded(
                dr as int,
                dc as int,
                old(self).spec_width() as int,
                old(self).spec_height() as int,
            ) ==> 0 <= wrapped_index(
                row as int,
                col as int,
                dr as int,
                dc as int,
                old(self).spec_width() as int,
                old(self).spec_height() as int,
            ) < old(self).spec_cells().len(),
    {
        let h = self.height;
        let w = self.width;
        if dr == h - 1 && dc == w - 1 {
            return ;
        }
        if dr == 0 && dc == w - 1 {
            return ;
        }
        if dr == h - 1 && dc == 1 {
            return ;
        }
        if dr == 0 && dc == 0 {
            return ;
        }
        let rr = wrap_add(row, dr, h);
        let cc = wrap_add(col, dc, w);
        let index = self.get_index(rr, cc);
        self.cells.set(index, Cell::Alive);
    }

    /// One summand of the neighbour count: the value of the cell at offset
    /// `(dr, dc)`, where the zero offset (the cell itself) contributes
    /// nothing.
    fn neighbour_value(&self, row: usize, col: usize, dr: usize, dc: usize) -> (r: u8)
        requires
            self.wf(),
            row < self.spec_height(),
            col < self.spec_width(),
            dr <= self.spec_height(),
            dc <= self.spec_width(),
        ensures
            r == neighbour_term(
                self.spec_cells(),
                self.spec_width() as int,
                self.spec_height() as int,
                row as int,
                col as int,
                dr as int,
                dc as int,
            ),
            r <= 1,
    {
        if dr == 0 && dc == 0 {
            return 0;
        }
        let rr = wrap_add(row, dr, self.height);
        let cc = wrap_add(col, dc, self.width);
        let index = self.get_index(rr, cc);
        self.cells[index].value()
    }
}

/// Stepping is deterministic: the next generation is a pure function of the
/// grid alone. Two universes that agree on their dimensions and cell
/// contents — however their histories may differ — advance to the same grid.
pub proof fn lemma_tick_deterministic(a: Universe, b: Universe)
    requires
        a.spec_width() == b.spec_width(),
        a.spec_height() == b.spec_height(),
        a.spec_cells() == b.spec_cells(),
    ensures
        tick_cells(a.spec_cells(), a.spec_width(), a.spec_height()) == tick_cells(
            b.spec_cells(),
            b.spec_width(),
            b.spec_height(),
        ),
{
}

/// The grid is toroidal: the neighbour count at the top-left corner sums,
/// besides the three adjacent cells, the wrapped cells of the last row and
/// the last column — the far corner, the two ends of the last row, and the
/// two ends of the second row's and first rows' right edge.
pub proof fn lemma_toroidal_wrap(cells: Seq<Cell>, w: int, h: int)
    requires
        2 <= w,
        2 <= h,
        cells.len() == w * h,
    ensures
        neighbour_count(cells, w, h, 0, 0) == cells[(h - 1) * w + (w - 1)].spec_value()
            + cells[(h - 1) * w].spec_value() + cells[(h - 1) * w + 1].spec_value() + cells[w
            - 1].spec_value() + cells[1].spec_value() + cells[2 * w - 1].spec_value()
            + cells[w].spec_value() + cells[w + 1].spec_value(),
{
    lemma_small_mod((h - 1) as nat, h as nat);
    lemma_small_mod((w - 1) as nat, w as nat);
    lemma_small_mod(0, h as nat);
    lemma_small_mod(0, w as nat);
    lemma_small_mod(1, h as nat);
    lemma_small_mod(1, w as nat);
    assert((h - 1) * w + w == h * w) by (nonlinear_arith);
    assert(2 * w <= h * w) by (nonlinear_arith)
        requires
            2 <= h,
            2 <= w,
    ;
    assert(w * h == h * w) by (nonlinear_arith);
    assert(neighbour_term(cells, w, h, 0, 0, h - 1, w - 1) == cells[(h - 1) * w + (w
        - 1)].spec_value());
    assert(neighbour_term(cells, w, h, 0, 0, h - 1, 0) == cells[(h - 1) * w].spec_value());
    assert(neighbour_term(cells, w, h, 0, 0, h - 1, 1) == cells[(h - 1) * w + 1].spec_value());
    assert(neighbour_term(cells, w, h, 0, 0, 0, w - 1) == cells[w - 1].spec_value());
    assert(neighbour_term(cells, w, h, 0, 0, 0, 1) == cells[1].spec_value());
    assert(neighbour_term(cells, w, h, 0, 0, 1, w - 1) == cells[2 * w - 1].spec_value());
    assert(neighbour_term(cells, w, h, 0, 0, 1, 0) == cells[w].spec_value());
    assert(neighbour_term(cells, w, h, 0, 0, 1, 1) == cells[w + 1].spec_value());
}

/// Relies on rand::random::<bool>: an unbiased coin flip drawn from the
/// thread-local generator, suitable for simulation seeding. Nothing can be
/// promised of a random value.
#[verifier::external_body]
fn coin_flip() -> bool {
    rand::random::<bool>()
}

/// `(x + d) mod m` computed without overflow, for `x` below and `d` at most
/// the modulus.
fn wrap_add(x: usize, d: usize, m: usize) -> (r: usize)
    requires
        x < m,
        d <= m,
    ensures
        r == (x + d) % (m as int),
        r < m,
{
    if d >= m - x {
        let r = d - (m - x);
        proof {
            lemma_fundamental_div_mod_converse((x + d) as int, m as int, 1, r as int);
        }
        r
    } else {
        let r = x + d;
        proof {
            lemma_fundamental_div_mod_converse((x + d) as int, m as int, 0, r as int);
        }
        r
    }
}

} // verus!

