//! The write side: a serializer owning the archive buffer and the
//! identity-keyed deduplication registry.
//!
//! `serialize_shared` is the registry operation every strong-pointer
//! serialization goes through: the first sighting of a pointee identity
//! writes the pointee's bytes and records their position; every later
//! sighting of the same identity writes nothing and returns the recorded
//! position.  `reserve` and the two write operations are the two-phase part:
//! space for an archived pointer is reserved first and filled in during
//! resolve.

use vstd::prelude::*;

use crate::heap::{Allocation, Heap};
use crate::slot::{spec_rel, RelPtr, Slot};

verus! {

/// One registry record: pointee identity and the buffer position at which
/// that pointee's bytes were written.
#[derive(Clone, Copy, PartialEq, Eq, Structural, Debug)]
pub struct SeenEntry {
    /// The pointee's identity (its heap allocation index).
    pub identity: usize,
    /// The buffer position of the pointee's archived bytes.
    pub pos: usize,
}

/// The registry lookup, scanning entries from index `i` on.
pub open spec fn lookup_from(seen: Seq<SeenEntry>, i: int, identity: int) -> Option<usize>
    decreases seen.len() - i,
{
    if i < 0 || i >= seen.len() {
        None
    } else if seen[i].identity == identity {
        Some(seen[i].pos)
    } else {
        lookup_from(seen, i + 1, identity)
    }
}

/// The buffer position recorded for `identity`, if that identity has been
/// archived before.
pub open spec fn lookup(seen: Seq<SeenEntry>, identity: int) -> Option<usize> {
    lookup_from(seen, 0, identity)
}

/// What one `serialize_shared` call does to the buffer and the registry:
/// a known identity changes nothing and yields the recorded position; a new
/// identity appends exactly one `Value` slot and records where it went.
pub open spec fn s_serialize_shared(
    buf: Seq<Slot>,
    seen: Seq<SeenEntry>,
    identity: usize,
    v: u64,
) -> (Seq<Slot>, Seq<SeenEntry>, int) {
    match lookup(seen, identity as int) {
        Some(p) => (buf, seen, p as int),
        None => (
            buf.push(Slot::Value(v)),
            seen.push(SeenEntry { identity, pos: buf.len() as usize }),
            buf.len() as int,
        ),
    }
}

/// The serializer: the archive buffer under construction and the
/// deduplication registry for one archiving operation.
pub struct SharedSerializer {
    /// The archive buffer written so far.
    pub buf: Vec<Slot>,
    /// The deduplication registry: which identities were archived where.
    pub seen: Vec<SeenEntry>,
}

/// Registry entries carry pairwise distinct identities, each recorded at a
/// position that holds archived pointee bytes.
pub open spec fn seen_unique(buf: Seq<Slot>, seen: Seq<SeenEntry>) -> bool {
    &&& forall|i: int, j: int|
        0 <= i < j < seen.len() ==> (#[trigger] seen[i]).identity != (#[trigger] seen[j]).identity
    &&& forall|i: int|
        0 <= i < seen.len() ==> {
            &&& (#[trigger] seen[i]).pos < buf.len()
            &&& buf[seen[i].pos as int] is Value
        }
}

/// The registry records the heap's pointee values faithfully: the slot
/// recorded for an identity holds exactly that allocation's value.
pub open spec fn seen_bound(buf: Seq<Slot>, seen: Seq<SeenEntry>, h: Seq<Allocation>) -> bool {
    forall|i: int|
        0 <= i < seen.len() ==> {
            &&& (#[trigger] seen[i]).identity < h.len()
            &&& seen[i].pos < buf.len()
            &&& buf[seen[i].pos as int] == Slot::Value(h[seen[i].identity as int].value)
        }
}

impl SharedSerializer {
    /// The registry is internally consistent: identities are recorded at
    /// most once and every recorded position holds archived pointee bytes.
    pub open spec fn wf(self) -> bool {
        seen_unique(self.buf@, self.seen@)
    }

    /// The registry records `heap`'s pointee values faithfully.
    pub open spec fn bound_to(self, heap: Heap) -> bool {
        seen_bound(self.buf@, self.seen@, heap@)
    }

    /// A fresh serializer with an empty buffer and registry.
    pub fn new() -> (s: SharedSerializer)
        ensures
            s.buf@ == Seq::<Slot>::empty(),
            s.seen@ == Seq::<SeenEntry>::empty(),
            s.wf(),
            forall|h: Heap| s.bound_to(h),
    {
        SharedSerializer { buf: Vec::new(), seen: Vec::new() }
    }

    /// Scans the registry for an identity.
    fn find(&self, identity: usize) -> (r: Option<usize>)
        ensures
            r == lookup(self.seen@, identity as int),
    {
        let mut i: usize = 0;
        while i < self.seen.len()
            invariant
                i <= self.seen@.len(),
                lookup(self.seen@, identity as int) == lookup_from(
                    self.seen@,
                    i as int,
                    identity as int,
                ),
            decreases self.seen@.len() - i,
        {
            if self.seen[i].identity == identity {
                return Some(self.seen[i].pos);
            }
            i = i + 1;
        }
        None
    }

    /// The deduplicating registry operation: returns the position at which
    /// the pointee with this identity is archived, writing its bytes only on
    /// the first sighting.
    pub fn serialize_shared(&mut self, heap: &Heap, identity: usize) -> (pos: usize)
        requires
            old(self).wf(),
            old(self).bound_to(*heap),
            heap.alive(identity as int),
            old(self).buf@.len() < usize::MAX,
        ensures
            final(self).wf(),
            final(self).bound_to(*heap),
            ({
                let (b, s, p) = s_serialize_shared(
                    old(self).buf@,
                    old(self).seen@,
                    identity,
                    heap.value_of(identity as int),
                );
                &&& final(self).buf@ == b
                &&& final(self).seen@ == s
                &&& pos as int == p
            }),
            pos < final(self).buf@.len(),
            final(self).buf@[pos as int] == Slot::Value(heap.value_of(identity as int)),
            lookup(final(self).seen@, identity as int) == Some(pos),
    {
        match self.find(identity) {
            Some(p) => {
                proof {
                    lemma_lookup_some_entry(self.seen@, 0, identity as int);
                }
                p
            },
            None => {
                proof {
                    lemma_lookup_none_no_entry(self.seen@, 0, identity as int);
                }
                let pos = self.buf.len();
                let v = heap.value(identity);
                self.buf.push(Slot::Value(v));
                self.seen.push(SeenEntry { identity, pos });
                proof {
                    lemma_lookup_extend(old(self).seen@, SeenEntry { identity, pos }, identity as int);
                }
                pos
            },
        }
    }

    /// Reserves one slot of the buffer for an archived pointer that resolve
    /// will fill in later.
    pub fn reserve(&mut self) -> (pos: usize)
        requires
            old(self).buf@.len() < usize::MAX,
        ensures
            final(self).buf@ == old(self).buf@.push(Slot::Reserved),
            final(self).seen@ == old(self).seen@,
            pos == old(self).buf@.len(),
    {
        let pos = self.buf.len();
        self.buf.push(Slot::Reserved);
        pos
    }

    /// Fills a reserved slot with a relative pointer to archived pointee
    /// bytes.
    pub fn write_ptr(&mut self, pos: usize, target: usize)
        requires
            pos < old(self).buf@.len(),
            old(self).buf@[pos as int] == Slot::Reserved,
            target < old(self).buf@.len(),
            old(self).buf@[target as int] is Value,
        ensures
            final(self).buf@ == old(self).buf@.update(
                pos as int,
                Slot::Ptr(spec_rel(pos as int, target as int)),
            ),
            final(self).seen@ == old(self).seen@,
    {
        let p = RelPtr::new(pos, target);
        self.buf[pos] = Slot::Ptr(p);
    }

    /// Fills a reserved slot with an archived weak pointer's discriminant.
    pub fn write_tag(&mut self, pos: usize, present: bool)
        requires
            pos < old(self).buf@.len(),
            old(self).buf@[pos as int] == Slot::Reserved,
        ensures
            final(self).buf@ == old(self).buf@.update(
                pos as int,
                if present {
                    Slot::TagPresent
                } else {
                    Slot::TagNull
                },
            ),
            final(self).seen@ == old(self).seen@,
    {
        if present {
            self.buf[pos] = Slot::TagPresent;
        } else {
            self.buf[pos] = Slot::TagNull;
        }
    }
}

/// A failed lookup means no entry carries the identity.
pub proof fn lemma_lookup_none_no_entry(seen: Seq<SeenEntry>, i: int, identity: int)
    requires
        0 <= i,
        lookup_from(seen, i, identity) is None,
    ensures
        forall|j: int| i <= j < seen.len() ==> (#[trigger] seen[j]).identity != identity,
    decreases seen.len() - i,
{
    if i < seen.len() {
        lemma_lookup_none_no_entry(seen, i + 1, identity);
    }
}

/// A successful lookup is witnessed by an entry with that identity and the
/// returned position.
pub proof fn lemma_lookup_some_entry(seen: Seq<SeenEntry>, i: int, identity: int)
    requires
        0 <= i,
        lookup_from(seen, i, identity) is Some,
    ensures
        exists|j: int|
            i <= j < seen.len() && (#[trigger] seen[j]).identity == identity && seen[j].pos
                == lookup_from(seen, i, identity)->Some_0,
    decreases seen.len() - i,
{
    if i < seen.len() && seen[i].identity != identity {
        lemma_lookup_some_entry(seen, i + 1, identity);
    }
}

/// Looking up the identity of a freshly pushed entry: an identity not seen
/// before resolves to the new entry; any identity seen before keeps its old
/// answer.
pub proof fn lemma_lookup_extend(seen: Seq<SeenEntry>, e: SeenEntry, identity: int)
    ensures
        lookup(seen.push(e), identity) == (if lookup(seen, identity) is Some {
            lookup(seen, identity)
        } else if e.identity == identity {
            Some(e.pos)
        } else {
            None
        }),
{
    lemma_lookup_from_extend(seen, e, 0, identity);
}

proof fn lemma_lookup_from_extend(seen: Seq<SeenEntry>, e: SeenEntry, i: int, identity: int)
    requires
        0 <= i <= seen.len(),
    ensures
        lookup_from(seen.push(e), i, identity) == (if lookup_from(seen, i, identity) is Some {
            lookup_from(seen, i, identity)
        } else if e.identity == identity {
            Some(e.pos)
        } else {
            None
        }),
    decreases seen.len() - i,
{
    if i < seen.len() {
        lemma_lookup_from_extend(seen, e, i + 1, identity);
    } else {
        assert(seen.push(e)[i] == e);
        if e.identity != identity {
            assert(lookup_from(seen.push(e), i + 1, identity) is None);
        }
    }
}

} // verus!
