//! The undo history: a fixed-capacity circular buffer of grid snapshots.
//! Pushing beyond capacity overwrites the oldest entry; popping yields the
//! most recent one.

use vstd::prelude::*;

use crate::cell::clone_cells;
use crate::cell::Cell;

verus! {

/// The buffer slot holding the `i`-th most recent snapshot when the most
/// recent one sits in slot `top` of a buffer with `size` slots.
pub open spec fn ring_slot(top: nat, i: nat, size: nat) -> nat {
    if i <= top {
        (top - i) as nat
    } else {
        (top + size - i) as nat
    }
}

/// What pushing a snapshot does to a history of capacity `cap`, seen most
/// recent first: the snapshot goes in front, and when the history is full
/// the oldest entry is evicted.
pub open spec fn hist_push(h: Seq<Seq<Cell>>, cap: nat, s: Seq<Cell>) -> Seq<Seq<Cell>> {
    if h.len() < cap {
        seq![s] + h
    } else {
        seq![s] + h.drop_last()
    }
}

/// A bounded stack of grid snapshots backed by a ring buffer. `top` is the
/// slot of the most recent entry and `count` the number of valid entries.
pub struct Stack {
    top: usize,
    count: usize,
    size: usize,
    items: Vec<Vec<Cell>>,
}

impl Stack {
    /// Structural invariant of the ring buffer.
    pub closed spec fn wf(&self) -> bool {
        &&& 1 <= self.size
        &&& self.count <= self.size
        &&& self.top < self.size
        &&& self.items@.len() == self.size
    }

    /// How many snapshots the buffer can hold at once.
    pub closed spec fn spec_capacity(&self) -> nat {
        self.size as nat
    }

    /// The stored snapshots, most recent first.
    pub closed spec fn entries(&self) -> Seq<Seq<Cell>> {
        Seq::new(
            self.count as nat,
            |i: int| self.items@[ring_slot(self.top as nat, i as nat, self.size as nat) as int]@,
        )
    }

    /// An empty history with room for `size` snapshots.
    pub fn new(size: usize) -> (r: Stack)
        requires
            1 <= size,
        ensures
            r.wf(),
            r.spec_capacity() == size,
            r.entries() == Seq::<Seq<Cell>>::empty(),
    {
        let mut items: Vec<Vec<Cell>> = Vec::new();
        while items.len() < size
            invariant
                items@.len() <= size,
            decreases size - items.len(),
        {
            items.push(Vec::new());
        }
        let r = Stack { top: 0, count: 0, size, items };
        proof {
            assert(r.entries() =~= Seq::<Seq<Cell>>::empty());
        }
        r
    }

    /// Stores `item` as the most recent snapshot, evicting the oldest one
    /// when the buffer is already full.
    pub fn push(&mut self, item: Vec<Cell>)
        requires
            old(self).wf(),
        ensures
            final(self).wf(),
            final(self).spec_capacity() == old(self).spec_capacity(),
            final(self).entries() == hist_push(
                old(self).entries(),
                old(self).spec_capacity(),
                item@,
            ),
    {
        let new_top = if self.top + 1 == self.size {
            0
        } else {
            self.top + 1
        };
        self.top = new_top;
        self.items.set(new_top, item);
        if self.count < self.size {
            self.count = self.count + 1;
        }
        proof {
            let pushed = hist_push(old(self).entries(), old(self).spec_capacity(), item@);
            assert forall|i: int| 0 <= i < self.entries().len() implies self.entries()[i]
                == pushed[i] by {
                if i > 0 {
                    assert(ring_slot(self.top as nat, i as nat, self.size as nat) == ring_slot(
                        old(self).top as nat,
                        (i - 1) as nat,
                        self.size as nat,
                    ));
                    assert(ring_slot(self.top as nat, i as nat, self.size as nat)
                        != self.top as nat);
                }
            }
            assert(self.entries() =~= pushed);
        }
    }

    /// Removes and returns the most recent snapshot; on an empty history it
    /// returns nothing and leaves the stack untouched.
    pub fn pop(&mut self) -> (r: Option<Vec<Cell>>)
        requires
            old(self).wf(),
        ensures
            final(self).wf(),
            final(self).spec_capacity() == old(self).spec_capacity(),
            old(self).entries().len() == 0 ==> r is None && *final(self) == *old(self),
            old(self).entries().len() > 0 ==> {
                &&& r matches Some(v) && v@ == old(self).entries()[0]
                &&& final(self).entries() == old(self).entries().drop_first()
            },
    {
        if self.count == 0 {
            return None;
        }
        let item = clone_cells(&self.items[self.top]);
        self.top = if self.top == 0 {
            self.size - 1
        } else {
            self.top - 1
        };
        self.count = self.count - 1;
        proof {
            assert forall|i: int| 0 <= i < self.entries().len() implies self.entries()[i] == old(
                self,
            ).entries().drop_first()[i] by {
                assert(ring_slot(self.top as nat, i as nat, self.size as nat) == ring_slot(
                    old(self).top as nat,
                    (i + 1) as nat,
                    self.size as nat,
                ));
            }
            assert(self.entries() =~= old(self).entries().drop_first());
        }
        Some(item)
    }
}

/// Every mutating operation first pushes the grid it is about to change, and
/// undoing pops the most recent snapshot: whatever the operation did, the
/// snapshot that comes back is exactly the grid from before the mutation,
/// and the rest of the history is what a single push leaves behind.
pub proof fn lemma_undo_round_trip(h: Seq<Seq<Cell>>, cap: nat, s: Seq<Cell>)
    requires
        1 <= cap,
    ensures
        hist_push(h, cap, s).len() >= 1,
        hist_push(h, cap, s)[0] == s,
        hist_push(h, cap, s).drop_first() == (if h.len() < cap {
            h
        } else {
            h.drop_last()
        }),
{
    let pushed = hist_push(h, cap, s);
    if h.len() < cap {
        assert(pushed.drop_first() =~= h);
    } else {
        assert(pushed.drop_first() =~= h.drop_last());
    }
}

/// The history is bounded: a push never grows it beyond its capacity, the
/// new snapshot always lands in front, and pushing onto a full history
/// evicts exactly the oldest entry while keeping all newer ones.
pub proof fn lemma_history_bound(h: Seq<Seq<Cell>>, cap: nat, s: Seq<Cell>)
    requires
        1 <= cap,
        h.len() <= cap,
    ensures
        hist_push(h, cap, s).len() <= cap,
        hist_push(h, cap, s).len() == (if h.len() < cap {
            h.len() + 1
        } else {
            cap
        }),
        hist_push(h, cap, s)[0] == s,
        forall|i: int|
            0 <= i < hist_push(h, cap, s).len() - 1 ==> hist_push(h, cap, s)[i + 1] == h[i],
{
}

} // verus!
