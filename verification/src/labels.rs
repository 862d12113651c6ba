//! Branch-label bookkeeping: a monotonically increasing id generator and a
//! bounded LIFO of pending loop label pairs.
//!
//! Every loop-open allocates a pair of fresh ids (`again`, `skip`) and pushes
//! it; the matching loop-close pops exactly that pair. Exceeding the bounded
//! depth is reported to the caller, never ignored.

use vstd::prelude::*;

verus! {

/// The default maximum loop-nesting depth accepted by a translation.
pub const DEFAULT_MAX_DEPTH: usize = 128;

/// The two branch-label ids produced when a loop opens: `again` marks the top
/// of the loop body, `skip` the first instruction after the loop.
#[derive(Clone, Copy, Debug, PartialEq, Eq, Structural)]
pub struct LabelPair {
    pub again: u128,
    pub skip: u128,
}

/// A bounded LIFO of pending [`LabelPair`]s.
pub struct Stack {
    pub items: Vec<LabelPair>,
    pub max_depth: usize,
}

impl View for Stack {
    type V = Seq<LabelPair>;

    open spec fn view(&self) -> Seq<LabelPair> {
        self.items@
    }
}

impl Stack {
    /// The fixed maximum number of pairs this stack accepts.
    pub open spec fn capacity(&self) -> nat {
        self.max_depth as nat
    }

    pub open spec fn wf(&self) -> bool {
        self@.len() <= self.capacity()
    }

    /// An empty stack with the default depth bound.
    pub fn new() -> (s: Stack)
        ensures
            s@ == Seq::<LabelPair>::empty(),
            s.capacity() == DEFAULT_MAX_DEPTH as nat,
            s.wf(),
    {
        Stack { items: Vec::new(), max_depth: DEFAULT_MAX_DEPTH }
    }

    /// An empty stack whose depth bound is `max_depth`.
    pub fn with_capacity(max_depth: usize) -> (s: Stack)
        ensures
            s@ == Seq::<LabelPair>::empty(),
            s.capacity() == max_depth as nat,
            s.wf(),
    {
        Stack { items: Vec::new(), max_depth }
    }

    /// Pushes a pair unless the stack is at its depth bound; reports which.
    pub fn push(&mut self, p: LabelPair) -> (ok: bool)
        requires
            old(self).wf(),
        ensures
            final(self).wf(),
            final(self).capacity() == old(self).capacity(),
            ok == (old(self)@.len() < old(self).capacity()),
            ok ==> final(self)@ == old(self)@.push(p),
            !ok ==> final(self)@ == old(self)@,
    {
        if self.items.len() < self.max_depth {
            self.items.push(p);
            true
        } else {
            false
        }
    }

    /// Removes and returns the most recently pushed pair, if any.
    pub fn pop(&mut self) -> (r: Option<LabelPair>)
        requires
            old(self).wf(),
        ensures
            final(self).wf(),
            final(self).capacity() == old(self).capacity(),
            old(self)@.len() == 0 ==> r is None && final(self)@ == old(self)@,
            old(self)@.len() > 0 ==> r == Some(old(self)@.last()) && final(self)@ == old(
                self,
            )@.drop_last(),
    {
        if self.items.len() > 0 {
            let p = self.items.remove(self.items.len() - 1);
            proof {
                assert(final(self)@ =~= old(self)@.drop_last());
            }
            Some(p)
        } else {
            None
        }
    }

    /// Returns the most recently pushed pair without removing it.
    pub fn top(&self) -> (r: Option<LabelPair>)
        ensures
            self@.len() == 0 ==> r is None,
            self@.len() > 0 ==> r == Some(self@.last()),
    {
        if self.items.len() > 0 {
            Some(self.items[self.items.len() - 1])
        } else {
            None
        }
    }

    /// True when no pairs are pending.
    pub fn is_empty(&self) -> (r: bool)
        ensures
            r == (self@.len() == 0),
    {
        self.items.len() == 0
    }

    /// The number of pending pairs.
    pub fn len(&self) -> (n: usize)
        ensures
            n == self@.len(),
    {
        self.items.len()
    }
}

/// The label allocator: the next unused id together with the stack of label
/// pairs whose loops are still open.
pub struct LabelAllocator {
    /// The next id [`Self::allocate`] will hand out; ids below it are spent.
    pub next_label: u128,
    /// The pending loop pairs, innermost on top.
    pub pairs: Stack,
}

impl LabelAllocator {
    pub open spec fn wf(&self) -> bool {
        self.pairs.wf()
    }

    /// A fresh allocator: ids start at 0, no loops pending.
    pub fn new() -> (a: LabelAllocator)
        ensures
            a.next_label == 0,
            a.pairs@ == Seq::<LabelPair>::empty(),
            a.pairs.capacity() == DEFAULT_MAX_DEPTH as nat,
            a.wf(),
    {
        LabelAllocator { next_label: 0, pairs: Stack::new() }
    }

    /// Returns the next unused id and advances the counter, so that no two
    /// allocations within one translation ever return the same id.
    pub fn allocate(&mut self) -> (id: u128)
        requires
            old(self).wf(),
            old(self).next_label < u128::MAX,
        ensures
            final(self).wf(),
            id == old(self).next_label,
            final(self).next_label == old(self).next_label + 1,
            final(self).pairs@ == old(self).pairs@,
            final(self).pairs.capacity() == old(self).pairs.capacity(),
    {
        let id = self.next_label;
        self.next_label = self.next_label + 1;
        id
    }
}

} // verus!
