//! An explicit reference-counting heap.
//!
//! Shared-ownership pointers are modelled against this arena: every
//! allocation records its pointee value together with its strong and weak
//! counts, and every handle operation states exactly how it moves those
//! counts.  An allocation is live while its strong count is positive; its
//! slot index never changes and is never reused, so an index doubles as the
//! pointee's identity for deduplication.

use vstd::prelude::*;

verus! {

/// One reference-counted allocation.
#[derive(Clone, Copy, PartialEq, Eq, Structural, Debug)]
pub struct Allocation {
    /// The pointee value.
    pub value: u64,
    /// How many strong handles (plus registry bookkeeping references)
    /// currently keep this allocation alive.
    pub strong: u64,
    /// How many weak handles currently observe this allocation.
    pub weak: u64,
}

/// Allocating `v` pushes a fresh allocation with one strong reference.
pub open spec fn s_alloc(h: Seq<Allocation>, v: u64) -> Seq<Allocation> {
    h.push(Allocation { value: v, strong: 1, weak: 0 })
}

/// Adding one strong reference to allocation `id`.
pub open spec fn s_incr_strong(h: Seq<Allocation>, id: int) -> Seq<Allocation> {
    h.update(id, (Allocation { strong: (h[id].strong + 1) as u64, ..h[id] }))
}

/// Dropping one strong reference from allocation `id`.
pub open spec fn s_decr_strong(h: Seq<Allocation>, id: int) -> Seq<Allocation> {
    h.update(id, (Allocation { strong: (h[id].strong - 1) as u64, ..h[id] }))
}

/// Adding one weak reference to allocation `id`.
pub open spec fn s_incr_weak(h: Seq<Allocation>, id: int) -> Seq<Allocation> {
    h.update(id, (Allocation { weak: (h[id].weak + 1) as u64, ..h[id] }))
}

/// Dropping one weak reference from allocation `id`.
pub open spec fn s_decr_weak(h: Seq<Allocation>, id: int) -> Seq<Allocation> {
    h.update(id, (Allocation { weak: (h[id].weak - 1) as u64, ..h[id] }))
}

/// The arena all live shared pointers point into.
pub struct Heap {
    /// The allocations, indexed by identity.
    pub allocs: Vec<Allocation>,
}

impl View for Heap {
    type V = Seq<Allocation>;

    open spec fn view(&self) -> Seq<Allocation> {
        self.allocs@
    }
}

impl Heap {
    /// `id` indexes an allocation of this heap.
    pub open spec fn valid_id(self, id: int) -> bool {
        0 <= id < self@.len()
    }

    /// Allocation `id` is still live: at least one strong reference remains.
    pub open spec fn alive(self, id: int) -> bool {
        self.valid_id(id) && self@[id].strong >= 1
    }

    /// The pointee value stored in allocation `id`.
    pub open spec fn value_of(self, id: int) -> u64 {
        self@[id].value
    }

    /// The strong count of allocation `id`.
    pub open spec fn strong_of(self, id: int) -> u64 {
        self@[id].strong
    }

    /// The weak count of allocation `id`.
    pub open spec fn weak_of(self, id: int) -> u64 {
        self@[id].weak
    }

    /// An empty heap.
    pub fn new() -> (h: Heap)
        ensures
            h@ == Seq::<Allocation>::empty(),
    {
        Heap { allocs: Vec::new() }
    }

    /// Allocates a new pointee with one strong reference and returns its
    /// identity.
    pub fn allocate(&mut self, v: u64) -> (id: usize)
        requires
            old(self)@.len() < usize::MAX,
        ensures
            final(self)@ == s_alloc(old(self)@, v),
            id == old(self)@.len(),
            final(self).alive(id as int),
            final(self).value_of(id as int) == v,
    {
        let id = self.allocs.len();
        self.allocs.push(Allocation { value: v, strong: 1, weak: 0 });
        id
    }

    /// Adds one strong reference to a live allocation.
    pub fn incr_strong(&mut self, id: usize)
        requires
            old(self).alive(id as int),
            old(self).strong_of(id as int) < u64::MAX,
        ensures
            final(self)@ == s_incr_strong(old(self)@, id as int),
    {
        let a = self.allocs[id];
        self.allocs[id] = Allocation { value: a.value, strong: a.strong + 1, weak: a.weak };
    }

    /// Drops one strong reference.  The allocation is freed (its strong
    /// count reaches zero) exactly when this was the last one.
    pub fn decr_strong(&mut self, id: usize)
        requires
            old(self).alive(id as int),
        ensures
            final(self)@ == s_decr_strong(old(self)@, id as int),
            final(self).strong_of(id as int) == old(self).strong_of(id as int) - 1,
            final(self).alive(id as int) <==> old(self).strong_of(id as int) > 1,
    {
        let a = self.allocs[id];
        self.allocs[id] = Allocation { value: a.value, strong: a.strong - 1, weak: a.weak };
    }

    /// Adds one weak reference to a live allocation.
    pub fn incr_weak(&mut self, id: usize)
        requires
            old(self).alive(id as int),
            old(self).weak_of(id as int) < u64::MAX,
        ensures
            final(self)@ == s_incr_weak(old(self)@, id as int),
    {
        let a = self.allocs[id];
        self.allocs[id] = Allocation { value: a.value, strong: a.strong, weak: a.weak + 1 };
    }

    /// Drops one weak reference.
    pub fn decr_weak(&mut self, id: usize)
        requires
            old(self).valid_id(id as int),
            old(self).weak_of(id as int) >= 1,
        ensures
            final(self)@ == s_decr_weak(old(self)@, id as int),
    {
        let a = self.allocs[id];
        self.allocs[id] = Allocation { value: a.value, strong: a.strong, weak: a.weak - 1 };
    }

    /// Reads the pointee value of a live allocation.
    pub fn value(&self, id: usize) -> (v: u64)
        requires
            self.alive(id as int),
        ensures
            v == self.value_of(id as int),
    {
        self.allocs[id].value
    }

    /// Reads the strong count.
    pub fn strong_count(&self, id: usize) -> (n: u64)
        requires
            self.valid_id(id as int),
        ensures
            n == self.strong_of(id as int),
    {
        self.allocs[id].strong
    }

    /// Reads the weak count.
    pub fn weak_count(&self, id: usize) -> (n: u64)
        requires
            self.valid_id(id as int),
        ensures
            n == self.weak_of(id as int),
    {
        self.allocs[id].weak
    }
}

} // verus!
