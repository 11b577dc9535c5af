//! The two-state cell value of the automaton, with the numeric projection
//! used for neighbour counting.

use vstd::prelude::*;

verus! {

/// One square of the grid: either dead or alive.
#[derive(Clone, Copy, Debug, PartialEq, Eq, Structural)]
pub enum Cell {
    Dead,
    Alive,
}

impl Cell {
    /// The numeric encoding of a cell: 0 when dead, 1 when alive.
    pub open spec fn spec_value(self) -> nat {
        match self {
            Cell::Dead => 0,
            Cell::Alive => 1,
        }
    }

    /// Numeric projection enabling arithmetic neighbour counting.
    pub fn value(self) -> (r: u8)
        ensures
            r == self.spec_value(),
    {
        match self {
            Cell::Dead => 0,
            Cell::Alive => 1,
        }
    }

    /// The opposite state: alive becomes dead and dead becomes alive.
    pub open spec fn spec_toggled(self) -> Cell {
        match self {
            Cell::Dead => Cell::Alive,
            Cell::Alive => Cell::Dead,
        }
    }

    /// Flips this cell between alive and dead.
    pub fn toggled(self) -> (r: Cell)
        ensures
            r == self.spec_toggled(),
    {
        match self {
            Cell::Dead => Cell::Alive,
            Cell::Alive => Cell::Dead,
        }
    }
}

/// An independent copy of a cell sequence, used when snapshotting the grid.
pub fn clone_cells(src: &Vec<Cell>) -> (r: Vec<Cell>)
    ensures
        r@ == src@,
{
    let mut out: Vec<Cell> = Vec::new();
    let n = src.len();
    let mut j: usize = 0;
    while j < n
        invariant
            j <= n,
            n == src@.len(),
            out@ == src@.take(j as int),
        decreases n - j,
    {
        out.push(src[j]);
        j = j + 1;
        proof {
            assert(out@ =~= src@.take(j as int));
        }
    }
    proof {
        assert(out@ =~= src@);
    }
    out
}

} // verus!
