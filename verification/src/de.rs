//! The read side: a deserializer registry that reconstructs each archived
//! pointee at most once and reconciles reference counts.
//!
//! The registry is keyed by archived pointee identity (the buffer position
//! of the pointee's bytes).  On first sighting it builds a fresh allocation
//! and keeps one standing strong reference of its own, so that every later
//! sighting of the same identity can alias the same allocation no matter
//! what the caller has done with the handles returned so far.  `finish`
//! releases the standing references at the end of the whole operation; from
//! then on the allocation lives exactly as long as the caller's handles.

use vstd::prelude::*;

use crate::heap::{s_alloc, s_decr_strong, s_incr_strong, Allocation, Heap};
use crate::slot::{value_in, Slot};

verus! {

/// One registry record: an archived pointee identity and the allocation
/// reconstructed for it.
#[derive(Clone, Copy, PartialEq, Eq, Structural, Debug)]
pub struct DeserEntry {
    /// The archived pointee's identity: the buffer position of its bytes.
    pub identity: usize,
    /// The heap allocation reconstructed for that identity.
    pub alloc: usize,
}

/// The registry lookup, scanning entries from index `i` on.
pub open spec fn d_lookup_from(seen: Seq<DeserEntry>, i: int, identity: int) -> Option<usize>
    decreases seen.len() - i,
{
    if i < 0 || i >= seen.len() {
        None
    } else if seen[i].identity == identity {
        Some(seen[i].alloc)
    } else {
        d_lookup_from(seen, i + 1, identity)
    }
}

/// The allocation recorded for an archived identity, if it was ever
/// reconstructed.
pub open spec fn d_lookup(seen: Seq<DeserEntry>, identity: int) -> Option<usize> {
    d_lookup_from(seen, 0, identity)
}

/// What one `deserialize_shared` call does to the heap and the registry: a
/// known identity only gains one strong reference on its recorded
/// allocation; a new identity gets a fresh allocation holding the archived
/// value with one standing registry reference plus the one returned.
pub open spec fn s_deserialize_shared(
    h: Seq<Allocation>,
    seen: Seq<DeserEntry>,
    identity: usize,
    v: u64,
) -> (Seq<Allocation>, Seq<DeserEntry>, int) {
    match d_lookup(seen, identity as int) {
        Some(a) => (s_incr_strong(h, a as int), seen, a as int),
        None => (
            s_incr_strong(s_alloc(h, v), h.len() as int),
            seen.push(DeserEntry { identity, alloc: h.len() as usize }),
            h.len() as int,
        ),
    }
}

/// Releasing the registry's standing references, one per entry from index
/// `i` on.
pub open spec fn s_release_from(
    h: Seq<Allocation>,
    seen: Seq<DeserEntry>,
    i: int,
) -> Seq<Allocation>
    decreases seen.len() - i,
{
    if i < 0 || i >= seen.len() {
        h
    } else {
        s_release_from(s_decr_strong(h, seen[i].alloc as int), seen, i + 1)
    }
}

/// The registry's entries carry pairwise distinct identities and pairwise
/// distinct allocations.
pub open spec fn d_entries_unique(seen: Seq<DeserEntry>) -> bool {
    &&& forall|i: int, j: int|
        0 <= i < j < seen.len() ==> (#[trigger] seen[i]).identity != (#[trigger] seen[j]).identity
    &&& forall|i: int, j: int|
        0 <= i < j < seen.len() ==> (#[trigger] seen[i]).alloc != (#[trigger] seen[j]).alloc
}

/// The registry is consistent with the heap: every recorded allocation
/// exists and is kept alive by the registry's standing reference.
pub open spec fn d_wf(seen: Seq<DeserEntry>, h: Seq<Allocation>) -> bool {
    &&& d_entries_unique(seen)
    &&& forall|i: int|
        0 <= i < seen.len() ==> {
            &&& (#[trigger] seen[i]).alloc < h.len()
            &&& h[seen[i].alloc as int].strong >= 1
        }
}

/// The registry is consistent with the archive: every entry's identity
/// names pointee bytes in the buffer, and the reconstructed allocation
/// holds exactly that value.
pub open spec fn d_bound(seen: Seq<DeserEntry>, h: Seq<Allocation>, buf: Seq<Slot>) -> bool {
    forall|i: int|
        0 <= i < seen.len() ==> {
            &&& (#[trigger] seen[i]).identity < buf.len()
            &&& buf[seen[i].identity as int] == Slot::Value(h[seen[i].alloc as int].value)
        }
}

/// Every recorded allocation still has room for one more strong and one
/// more weak reference.
pub open spec fn d_room(seen: Seq<DeserEntry>, h: Seq<Allocation>) -> bool {
    forall|i: int|
        0 <= i < seen.len() ==> {
            &&& h[(#[trigger] seen[i]).alloc as int].strong < u64::MAX
            &&& h[seen[i].alloc as int].weak < u64::MAX
        }
}

/// The deduplication registry for one deserialization operation.
pub struct SharedDeserializer {
    /// Which archived identities were reconstructed as which allocations.
    pub seen: Vec<DeserEntry>,
}

impl SharedDeserializer {
    /// A fresh registry.
    pub fn new() -> (d: SharedDeserializer)
        ensures
            d.seen@ == Seq::<DeserEntry>::empty(),
    {
        SharedDeserializer { seen: Vec::new() }
    }

    /// Scans the registry for an archived identity.
    fn find(&self, identity: usize) -> (r: Option<usize>)
        ensures
            r == d_lookup(self.seen@, identity as int),
    {
        let mut i: usize = 0;
        while i < self.seen.len()
            invariant
                i <= self.seen@.len(),
                d_lookup(self.seen@, identity as int) == d_lookup_from(
                    self.seen@,
                    i as int,
                    identity as int,
                ),
            decreases self.seen@.len() - i,
        {
            if self.seen[i].identity == identity {
                return Some(self.seen[i].alloc);
            }
            i = i + 1;
        }
        None
    }

    /// The deduplicating registry operation: returns the allocation that
    /// holds the archived pointee at `identity`, reconstructing it only on
    /// the first sighting, and hands the caller one new strong reference to
    /// it either way.
    pub fn deserialize_shared(&mut self, heap: &mut Heap, buf: &Vec<Slot>, identity: usize) -> (id:
        usize)
        requires
            d_wf(old(self).seen@, old(heap)@),
            d_bound(old(self).seen@, old(heap)@, buf@),
            d_room(old(self).seen@, old(heap)@),
            identity < buf@.len(),
            buf@[identity as int] is Value,
            old(heap)@.len() < usize::MAX,
        ensures
            ({
                let (h, s, a) = s_deserialize_shared(
                    old(heap)@,
                    old(self).seen@,
                    identity,
                    value_in(buf@, identity as int),
                );
                &&& final(heap)@ == h
                &&& final(self).seen@ == s
                &&& id as int == a
            }),
            d_wf(final(self).seen@, final(heap)@),
            d_bound(final(self).seen@, final(heap)@, buf@),
            d_lookup(final(self).seen@, identity as int) == Some(id),
            final(heap).alive(id as int),
            final(heap).value_of(id as int) == value_in(buf@, identity as int),
            final(heap).strong_of(id as int) >= 2,
            final(heap).weak_of(id as int) < u64::MAX,
    {
        let ghost old_seen = self.seen@;
        match self.find(identity) {
            Some(a) => {
                proof {
                    lemma_d_lookup_some_entry(self.seen@, 0, identity as int);
                }
                heap.incr_strong(a);
                proof {
                    assert forall|i: int| 0 <= i < self.seen@.len() implies {
                        &&& (#[trigger] self.seen@[i]).alloc < heap@.len()
                        &&& heap@[self.seen@[i].alloc as int].strong >= 1
                        &&& self.seen@[i].identity < buf@.len()
                        &&& buf@[self.seen@[i].identity as int] == Slot::Value(
                            heap@[self.seen@[i].alloc as int].value,
                        )
                    } by {
                        assert(old(heap)@[self.seen@[i].alloc as int].strong >= 1);
                    }
                }
                a
            },
            None => {
                proof {
                    lemma_d_lookup_none_no_entry(self.seen@, 0, identity as int);
                }
                let v = match buf[identity] {
                    Slot::Value(x) => x,
                    _ => {
                        proof {
                            assert(false);
                        }
                        0
                    },
                };
                let id = heap.allocate(v);
                heap.incr_strong(id);
                self.seen.push(DeserEntry { identity, alloc: id });
                proof {
                    lemma_d_lookup_extend(
                        old_seen,
                        DeserEntry { identity, alloc: id },
                        identity as int,
                    );
                    assert forall|i: int| 0 <= i < self.seen@.len() implies {
                        &&& (#[trigger] self.seen@[i]).alloc < heap@.len()
                        &&& heap@[self.seen@[i].alloc as int].strong >= 1
                        &&& self.seen@[i].identity < buf@.len()
                        &&& buf@[self.seen@[i].identity as int] == Slot::Value(
                            heap@[self.seen@[i].alloc as int].value,
                        )
                    } by {
                        if i < old_seen.len() {
                            assert(old(heap)@[old_seen[i].alloc as int].strong >= 1);
                        }
                    }
                }
                id
            },
        }
    }

    /// Ends the deserialization operation: releases the registry's standing
    /// strong reference on every reconstructed allocation.  Afterwards each
    /// allocation's strong count reflects only the handles the caller still
    /// holds.
    pub fn finish(self, heap: &mut Heap)
        requires
            d_wf(self.seen@, old(heap)@),
        ensures
            final(heap)@ == s_release_from(old(heap)@, self.seen@, 0),
    {
        let mut i: usize = 0;
        let n = self.seen.len();
        while i < n
            invariant
                i <= n,
                n == self.seen@.len(),
                d_entries_unique(self.seen@),
                forall|j: int|
                    i <= j < n ==> {
                        &&& (#[trigger] self.seen@[j]).alloc < heap@.len()
                        &&& heap@[self.seen@[j].alloc as int].strong >= 1
                    },
                s_release_from(old(heap)@, self.seen@, 0) == s_release_from(
                    heap@,
                    self.seen@,
                    i as int,
                ),
            decreases n - i,
        {
            let e = self.seen[i];
            let ghost pre = heap@;
            heap.decr_strong(e.alloc);
            proof {
                assert forall|j: int| i + 1 <= j < n implies {
                    &&& (#[trigger] self.seen@[j]).alloc < heap@.len()
                    &&& heap@[self.seen@[j].alloc as int].strong >= 1
                } by {
                    assert(self.seen@[j].alloc != self.seen@[i as int].alloc);
                    assert(pre[self.seen@[j].alloc as int].strong >= 1);
                }
            }
            i = i + 1;
        }
    }
}

/// A failed lookup means no entry carries the identity.
pub proof fn lemma_d_lookup_none_no_entry(seen: Seq<DeserEntry>, i: int, identity: int)
    requires
        0 <= i,
        d_lookup_from(seen, i, identity) is None,
    ensures
        forall|j: int| i <= j < seen.len() ==> (#[trigger] seen[j]).identity != identity,
    decreases seen.len() - i,
{
    if i < seen.len() {
        lemma_d_lookup_none_no_entry(seen, i + 1, identity);
    }
}

/// A successful lookup is witnessed by an entry with that identity and the
/// returned allocation.
pub proof fn lemma_d_lookup_some_entry(seen: Seq<DeserEntry>, i: int, identity: int)
    requires
        0 <= i,
        d_lookup_from(seen, i, identity) is Some,
    ensures
        exists|j: int|
            i <= j < seen.len() && (#[trigger] seen[j]).identity == identity && seen[j].alloc
                == d_lookup_from(seen, i, identity)->Some_0,
    decreases seen.len() - i,
{
    if i < seen.len() && seen[i].identity != identity {
        lemma_d_lookup_some_entry(seen, i + 1, identity);
    }
}

/// Looking up the identity of a freshly pushed entry: an identity not seen
/// before resolves to the new entry; any identity seen before keeps its old
/// answer.
pub proof fn lemma_d_lookup_extend(seen: Seq<DeserEntry>, e: DeserEntry, identity: int)
    ensures
        d_lookup(seen.push(e), identity) == (if d_lookup(seen, identity) is Some {
            d_lookup(seen, identity)
        } else if e.identity == identity {
            Some(e.alloc)
        } else {
            None
        }),
{
    lemma_d_lookup_from_extend(seen, e, 0, identity);
}

proof fn lemma_d_lookup_from_extend(seen: Seq<DeserEntry>, e: DeserEntry, i: int, identity: int)
    requires
        0 <= i <= seen.len(),
    ensures
        d_lookup_from(seen.push(e), i, identity) == (if d_lookup_from(seen, i, identity) is Some {
            d_lookup_from(seen, i, identity)
        } else if e.identity == identity {
            Some(e.alloc)
        } else {
            None
        }),
    decreases seen.len() - i,
{
    if i < seen.len() {
        lemma_d_lookup_from_extend(seen, e, i + 1, identity);
    } else {
        assert(seen.push(e)[i] == e);
        if e.identity != identity {
            assert(d_lookup_from(seen.push(e), i + 1, identity) is None);
        }
    }
}

} // verus!
