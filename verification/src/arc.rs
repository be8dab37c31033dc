//! Archiving of shared-across-threads shared pointers.
//!
//! This instantiation mirrors the single-owner-thread one: live strong
//! handles (`ArcHandle`) and their weak counterparts (`ArcWeakHandle`)
//! point into a reference-counting heap, serialization writes each pointee
//! once through the deduplicating serializer, and deserialization
//! reconstructs live handles that alias one allocation per archived
//! pointee.  Cross-thread use imposes its atomicity demands on the
//! surrounding registries, not on this logic: within one archiving
//! operation the registry's check-then-insert is a single logical step.

use vstd::prelude::*;

use crate::de::{
    d_bound, d_lookup, d_room, d_wf, s_deserialize_shared, DeserEntry, SharedDeserializer,
};
use crate::heap::{s_decr_strong, s_incr_strong, s_incr_weak, Allocation, Heap};
use crate::ser::{s_serialize_shared, SeenEntry, SharedSerializer};
use crate::slot::{spec_rel, value_in, RelPtr, Slot};

verus! {

/// A live strong shared pointer: one counted reference to a heap
/// allocation.
#[derive(Clone, Copy, PartialEq, Eq, Structural, Debug)]
pub struct ArcHandle {
    /// The allocation this handle owns a strong reference to.  The index is
    /// the pointee's identity.
    pub id: usize,
}

/// A live weak shared pointer: either null (never associated, as from a
/// fresh unattached weak) or an uncounted-by-strong observer of an
/// allocation.
#[derive(Clone, Copy, PartialEq, Eq, Structural, Debug)]
pub struct ArcWeakHandle {
    /// The observed allocation, if any.
    pub pointee: Option<usize>,
}

/// The resolver for a strong pointer: the buffer position at which its
/// pointee was (or will be) archived.  It bridges the two phases of
/// archiving: produced by serialize, consumed by resolve.  Unsized-pointee
/// metadata is the business of the generic value-archiving layer and is not
/// carried here; every pointee of this model is a single value slot.
#[derive(Clone, Copy, PartialEq, Eq, Structural, Debug)]
pub struct ArcResolver {
    /// The archived pointee's position.
    pub pos: usize,
}

/// The resolver for a weak pointer, mirroring its tag.
#[derive(Clone, Copy, PartialEq, Eq, Structural, Debug)]
pub enum ArcWeakResolver {
    /// The weak pointer could not be upgraded at serialization time.
    Null,
    /// The weak pointer reached a live pointee.
    Present(ArcResolver),
}

/// An archived strong shared pointer: a thin wrapper around one relative
/// pointer, read back from the buffer position it occupies.
#[derive(Clone, Copy, PartialEq, Eq, Structural, Debug)]
pub struct ArchivedArc {
    /// The buffer position this wrapper was read from.
    pub pos: usize,
    /// The relative pointer stored there.
    pub ptr: RelPtr,
}

/// An archived weak pointer: a discriminant slot followed, when present, by
/// a strong-pointer payload.
#[derive(Clone, Copy, PartialEq, Eq, Structural, Debug)]
pub enum ArchivedArcWeak {
    /// A null weak pointer was archived.
    Null,
    /// A weak pointer to some archived pointee.
    Present(ArchivedArc),
}

/// The archived strong pointer stored at buffer position `pos`.
pub open spec fn s_read_arc(buf: Seq<Slot>, pos: usize) -> ArchivedArc {
    ArchivedArc { pos, ptr: buf[pos as int]->Ptr_0 }
}

/// Position `pos` holds a well-formed archived strong pointer.
pub open spec fn arc_slot_wf(buf: Seq<Slot>, pos: usize) -> bool {
    &&& pos < buf.len()
    &&& buf[pos as int] is Ptr
    &&& s_read_arc(buf, pos).wf(buf)
}

/// Position `pos` holds a well-formed archived weak pointer: its
/// discriminant, with the payload slot after it well-formed when the
/// discriminant says so.
pub open spec fn weak_slot_wf(buf: Seq<Slot>, pos: usize) -> bool {
    &&& pos + 1 < buf.len()
    &&& (buf[pos as int] == Slot::TagNull || (buf[pos as int] == Slot::TagPresent && arc_slot_wf(
        buf,
        (pos + 1) as usize,
    )))
}

/// The archived weak pointer stored at buffer position `pos`: the
/// discriminant alone decides whether the payload is read.
pub open spec fn s_read_weak(buf: Seq<Slot>, pos: usize) -> ArchivedArcWeak {
    if buf[pos as int] == Slot::TagPresent {
        ArchivedArcWeak::Present(s_read_arc(buf, (pos + 1) as usize))
    } else {
        ArchivedArcWeak::Null
    }
}

/// A weak pointer can be upgraded exactly when it observes an allocation
/// that is still alive.
pub open spec fn s_weak_upgradable(h: Seq<Allocation>, pointee: Option<usize>) -> bool {
    &&& pointee is Some
    &&& pointee.unwrap() < h.len()
    &&& h[pointee.unwrap() as int].strong >= 1
}

/// What serializing a weak pointer does: an upgradable pointee goes through
/// the deduplicating strong path and is wrapped as present; anything else
/// becomes the null resolver and writes nothing.
pub open spec fn s_serialize_weak(
    buf: Seq<Slot>,
    seen: Seq<SeenEntry>,
    h: Seq<Allocation>,
    pointee: Option<usize>,
) -> (Seq<Slot>, Seq<SeenEntry>, ArcWeakResolver) {
    if s_weak_upgradable(h, pointee) {
        let id = pointee.unwrap();
        let (b, sn, p) = s_serialize_shared(buf, seen, id, h[id as int].value);
        (b, sn, ArcWeakResolver::Present(ArcResolver { pos: p as usize }))
    } else {
        (buf, seen, ArcWeakResolver::Null)
    }
}

/// What resolving a weak pointer writes at its two-slot position: the
/// discriminant first, and for a present payload a relative pointer right
/// after it.
pub open spec fn s_resolve_weak(buf: Seq<Slot>, pos: usize, r: ArcWeakResolver) -> Seq<Slot> {
    match r {
        ArcWeakResolver::Null => buf.update(pos as int, Slot::TagNull),
        ArcWeakResolver::Present(rr) => buf.update(pos as int, Slot::TagPresent).update(
            pos + 1,
            Slot::Ptr(spec_rel(pos + 1, rr.pos as int)),
        ),
    }
}

/// What deserializing an archived weak pointer does: null stays null and
/// touches nothing; a present payload goes through the deduplicating strong
/// path, is downgraded, and the momentary strong handle is dropped again.
pub open spec fn s_deserialize_weak(
    h: Seq<Allocation>,
    seen: Seq<DeserEntry>,
    buf: Seq<Slot>,
    aw: ArchivedArcWeak,
) -> (Seq<Allocation>, Seq<DeserEntry>, Option<usize>) {
    match aw {
        ArchivedArcWeak::Null => (h, seen, None),
        ArchivedArcWeak::Present(a) => {
            let (h1, s1, id) = s_deserialize_shared(h, seen, a.target() as usize, a.pointee(buf));
            (s_decr_strong(s_incr_weak(h1, id), id), s1, Some(id as usize))
        },
    }
}

impl ArcHandle {
    /// Allocates a new pointee and returns the first strong handle to it.
    pub fn new(heap: &mut Heap, v: u64) -> (h: ArcHandle)
        requires
            old(heap)@.len() < usize::MAX,
        ensures
            final(heap)@ == crate::heap::s_alloc(old(heap)@, v),
            h.id == old(heap)@.len(),
            final(heap).alive(h.id as int),
            final(heap).value_of(h.id as int) == v,
    {
        let id = heap.allocate(v);
        ArcHandle { id }
    }

    /// Clones this handle: one more strong reference to the same
    /// allocation.
    pub fn clone_in(&self, heap: &mut Heap) -> (h: ArcHandle)
        requires
            old(heap).alive(self.id as int),
            old(heap).strong_of(self.id as int) < u64::MAX,
        ensures
            final(heap)@ == s_incr_strong(old(heap)@, self.id as int),
            h.id == self.id,
    {
        heap.incr_strong(self.id);
        ArcHandle { id: self.id }
    }

    /// Drops this handle: one strong reference less, and the allocation is
    /// freed exactly when this was the last one.
    pub fn release(self, heap: &mut Heap)
        requires
            old(heap).alive(self.id as int),
        ensures
            final(heap)@ == s_decr_strong(old(heap)@, self.id as int),
            final(heap).alive(self.id as int) <==> old(heap).strong_of(self.id as int) > 1,
    {
        heap.decr_strong(self.id);
    }

    /// Creates a weak handle observing this handle's allocation.
    pub fn downgrade(&self, heap: &mut Heap) -> (w: ArcWeakHandle)
        requires
            old(heap).alive(self.id as int),
            old(heap).weak_of(self.id as int) < u64::MAX,
        ensures
            final(heap)@ == s_incr_weak(old(heap)@, self.id as int),
            w.pointee == Some(self.id),
    {
        heap.incr_weak(self.id);
        ArcWeakHandle { pointee: Some(self.id) }
    }

    /// Reads the pointee value.
    pub fn value(&self, heap: &Heap) -> (v: u64)
        requires
            heap.alive(self.id as int),
        ensures
            v == heap.value_of(self.id as int),
    {
        heap.value(self.id)
    }

    /// The pointee's identity, the deduplication key of serialization.
    pub fn data_address(&self) -> (a: usize)
        ensures
            a == self.id,
    {
        self.id
    }

    /// Two handles alias the same allocation.
    pub fn ptr_eq(&self, other: &ArcHandle) -> (r: bool)
        ensures
            r == (self.id == other.id),
    {
        self.id == other.id
    }

    /// Serializes this strong pointer: asks the deduplication registry for
    /// the position of its pointee, writing the pointee's bytes only if
    /// this identity was never archived before, and returns the resolver
    /// carrying that position.
    pub fn serialize(&self, heap: &Heap, s: &mut SharedSerializer) -> (r: ArcResolver)
        requires
            heap.alive(self.id as int),
            old(s).wf(),
            old(s).bound_to(*heap),
            old(s).buf@.len() < usize::MAX,
        ensures
            final(s).wf(),
            final(s).bound_to(*heap),
            ({
                let (b, sn, p) = s_serialize_shared(
                    old(s).buf@,
                    old(s).seen@,
                    self.id,
                    heap.value_of(self.id as int),
                );
                &&& final(s).buf@ == b
                &&& final(s).seen@ == sn
                &&& r.pos as int == p
            }),
            r.pos < final(s).buf@.len(),
            final(s).buf@[r.pos as int] == Slot::Value(heap.value_of(self.id as int)),
    {
        ArcResolver { pos: s.serialize_shared(heap, self.id) }
    }

    /// Resolves this strong pointer: writes, at the reserved position the
    /// wrapper occupies, a relative pointer targeting the resolver's
    /// recorded pointee position.
    pub fn resolve(&self, pos: usize, resolver: &ArcResolver, s: &mut SharedSerializer)
        requires
            pos < old(s).buf@.len(),
            old(s).buf@[pos as int] == Slot::Reserved,
            resolver.pos < old(s).buf@.len(),
            old(s).buf@[resolver.pos as int] is Value,
        ensures
            final(s).buf@ == old(s).buf@.update(
                pos as int,
                Slot::Ptr(spec_rel(pos as int, resolver.pos as int)),
            ),
            final(s).seen@ == old(s).seen@,
            arc_slot_wf(final(s).buf@, pos),
            s_read_arc(final(s).buf@, pos).target() == resolver.pos,
            s_read_arc(final(s).buf@, pos).pointee(final(s).buf@) == value_in(
                old(s).buf@,
                resolver.pos as int,
            ),
    {
        s.write_ptr(pos, resolver.pos);
    }
}

impl ArcWeakHandle {
    /// A null weak handle, as one created without ever being associated
    /// with an allocation; it can never be upgraded.
    pub fn new_null() -> (w: ArcWeakHandle)
        ensures
            w.pointee is None,
    {
        ArcWeakHandle { pointee: None }
    }

    /// The handle's pointee, when it has one, names an allocation of the
    /// heap.
    pub open spec fn wf(self, heap: Heap) -> bool {
        self.pointee matches Some(id) ==> heap.valid_id(id as int)
    }

    /// Attempts to upgrade to a strong handle: succeeds exactly while the
    /// observed allocation is still alive, adding one strong reference.
    pub fn upgrade(&self, heap: &mut Heap) -> (r: Option<ArcHandle>)
        requires
            self.wf(*old(heap)),
            s_weak_upgradable(old(heap)@, self.pointee) ==> old(heap).strong_of(
                self.pointee.unwrap() as int,
            ) < u64::MAX,
        ensures
            r is Some <==> s_weak_upgradable(old(heap)@, self.pointee),
            (if s_weak_upgradable(old(heap)@, self.pointee) {
                &&& final(heap)@ == s_incr_strong(old(heap)@, self.pointee.unwrap() as int)
                &&& r matches Some(h) && h.id == self.pointee.unwrap()
            } else {
                final(heap)@ == old(heap)@
            }),
    {
        match self.pointee {
            None => None,
            Some(id) => {
                if heap.strong_count(id) > 0 {
                    heap.incr_strong(id);
                    Some(ArcHandle { id })
                } else {
                    None
                }
            },
        }
    }

    /// Drops this weak handle: one weak reference less on the observed
    /// allocation, nothing at all for a null handle.
    pub fn release(self, heap: &mut Heap)
        requires
            self.pointee matches Some(id) ==> old(heap).valid_id(id as int) && old(heap).weak_of(
                id as int,
            ) >= 1,
        ensures
            final(heap)@ == (match self.pointee {
                Some(id) => crate::heap::s_decr_weak(old(heap)@, id as int),
                None => old(heap)@,
            }),
    {
        match self.pointee {
            None => (),
            Some(id) => heap.decr_weak(id),
        }
    }

    /// Serializes this weak pointer: attempts the upgrade at serialization
    /// time, delegating an upgradable pointee to the strong path and
    /// wrapping its resolver as present; otherwise the null resolver.
    pub fn serialize(&self, heap: &Heap, s: &mut SharedSerializer) -> (r: ArcWeakResolver)
        requires
            self.wf(*heap),
            old(s).wf(),
            old(s).bound_to(*heap),
            old(s).buf@.len() < usize::MAX,
        ensures
            final(s).wf(),
            final(s).bound_to(*heap),
            ({
                let (b, sn, rr) = s_serialize_weak(old(s).buf@, old(s).seen@, heap@, self.pointee);
                &&& final(s).buf@ == b
                &&& final(s).seen@ == sn
                &&& r == rr
            }),
            r is Present <==> s_weak_upgradable(heap@, self.pointee),
            r matches ArcWeakResolver::Present(rr) ==> rr.pos < final(s).buf@.len()
                && final(s).buf@[rr.pos as int] == Slot::Value(
                heap.value_of(self.pointee.unwrap() as int),
            ),
    {
        match self.pointee {
            None => ArcWeakResolver::Null,
            Some(id) => {
                if heap.strong_count(id) > 0 {
                    ArcWeakResolver::Present(ArcResolver { pos: s.serialize_shared(heap, id) })
                } else {
                    ArcWeakResolver::Null
                }
            },
        }
    }

    /// Resolves this weak pointer at its reserved two-slot position: the
    /// discriminant is written first; a present payload is resolved
    /// immediately after it, its relative pointer computed from the payload
    /// slot's own position.
    pub fn resolve(&self, pos: usize, resolver: &ArcWeakResolver, s: &mut SharedSerializer)
        requires
            pos + 1 < old(s).buf@.len(),
            old(s).buf@[pos as int] == Slot::Reserved,
            old(s).buf@[pos + 1] == Slot::Reserved,
            resolver matches ArcWeakResolver::Present(rr) ==> rr.pos < old(s).buf@.len()
                && old(s).buf@[rr.pos as int] is Value,
        ensures
            final(s).buf@ == s_resolve_weak(old(s).buf@, pos, *resolver),
            final(s).seen@ == old(s).seen@,
            final(s).buf@.len() == old(s).buf@.len(),
            weak_slot_wf(final(s).buf@, pos),
            s_read_weak(final(s).buf@, pos) == (match *resolver {
                ArcWeakResolver::Null => ArchivedArcWeak::Null,
                ArcWeakResolver::Present(rr) => ArchivedArcWeak::Present(
                    s_read_arc(final(s).buf@, (pos + 1) as usize),
                ),
            }),
            (match *resolver {
                ArcWeakResolver::Null => true,
                ArcWeakResolver::Present(rr) => s_read_arc(final(s).buf@, (pos + 1) as usize).target()
                    == rr.pos && s_read_arc(final(s).buf@, (pos + 1) as usize).pointee(final(s).buf@)
                    == value_in(old(s).buf@, rr.pos as int),
            }),
    {
        match resolver {
            ArcWeakResolver::Null => {
                s.write_tag(pos, false);
            },
            ArcWeakResolver::Present(rr) => {
                // the buffer length, bound by usize, is needed for the position sums
                let _buf_len: usize = s.buf.len();
                s.write_tag(pos, true);
                s.write_ptr(pos + 1, rr.pos);
            },
        }
    }
}

impl ArchivedArc {
    /// The buffer position of this wrapper's archived pointee.
    pub open spec fn target(self) -> int {
        self.ptr.spec_target(self.pos as int)
    }

    /// The wrapper sits at its position, its relative pointer reaches into
    /// the buffer, and the slot it reaches holds archived pointee bytes.
    pub open spec fn wf(self, buf: Seq<Slot>) -> bool {
        &&& self.pos < buf.len()
        &&& buf[self.pos as int] == Slot::Ptr(self.ptr)
        &&& 0 <= self.target() < buf.len()
        &&& buf[self.target()] is Value
    }

    /// The archived pointee value this wrapper dereferences to.
    pub open spec fn pointee(self, buf: Seq<Slot>) -> u64 {
        value_in(buf, self.target())
    }

    /// Reads the archived strong pointer stored at `pos`.
    pub fn read(buf: &Vec<Slot>, pos: usize) -> (a: ArchivedArc)
        requires
            arc_slot_wf(buf@, pos),
        ensures
            a == s_read_arc(buf@, pos),
            a.wf(buf@),
            a.pos == pos,
    {
        let p = match buf[pos] {
            Slot::Ptr(p) => p,
            _ => {
                proof {
                    assert(false);
                }
                RelPtr { offset: 0 }
            },
        };
        ArchivedArc { pos, ptr: p }
    }

    /// Dereferences to the archived pointee value.
    pub fn get(&self, buf: &Vec<Slot>) -> (v: u64)
        requires
            self.wf(buf@),
        ensures
            v == self.pointee(buf@),
    {
        // the buffer length, bound by usize, is needed for the position sums
        let _buf_len: usize = buf.len();
        let t = self.ptr.target(self.pos);
        match buf[t] {
            Slot::Value(v) => v,
            _ => {
                proof {
                    assert(false);
                }
                0
            },
        }
    }

    /// Structural equality against a live strong pointer: archived and live
    /// shared pointers compare equal exactly when their pointees compare
    /// equal by value, regardless of where either lives.
    pub fn value_eq(&self, buf: &Vec<Slot>, heap: &Heap, other: &ArcHandle) -> (r: bool)
        requires
            self.wf(buf@),
            heap.alive(other.id as int),
        ensures
            r == (self.pointee(buf@) == heap.value_of(other.id as int)),
    {
        self.get(buf) == other.value(heap)
    }

    /// Mutable access to the archived pointee in place, the analogue of the
    /// pinned-mutable accessors: the aliasing discipline their contract
    /// demands of the caller is discharged here by the exclusive borrow of
    /// the buffer itself.
    pub fn set_pointee(&self, buf: &mut Vec<Slot>, v: u64)
        requires
            self.wf(old(buf)@),
        ensures
            final(buf)@ == old(buf)@.update(self.target(), Slot::Value(v)),
            self.wf(final(buf)@),
            self.pointee(final(buf)@) == v,
    {
        // the buffer length, bound by usize, is needed for the position sums
        let _buf_len: usize = buf.len();
        let t = self.ptr.target(self.pos);
        buf[t] = Slot::Value(v);
    }

    /// Deserializes this archived strong pointer: asks the registry for the
    /// allocation reconstructed for its pointee identity — building it on
    /// first sighting only — and returns a fresh strong handle to it, while
    /// the registry keeps its own standing reference.
    pub fn deserialize(&self, buf: &Vec<Slot>, d: &mut SharedDeserializer, heap: &mut Heap) -> (h:
        ArcHandle)
        requires
            self.wf(buf@),
            d_wf(old(d).seen@, old(heap)@),
            d_bound(old(d).seen@, old(heap)@, buf@),
            d_room(old(d).seen@, old(heap)@),
            old(heap)@.len() < usize::MAX,
        ensures
            ({
                let (h2, s2, a) = s_deserialize_shared(
                    old(heap)@,
                    old(d).seen@,
                    self.target() as usize,
                    self.pointee(buf@),
                );
                &&& final(heap)@ == h2
                &&& final(d).seen@ == s2
                &&& h.id as int == a
            }),
            d_wf(final(d).seen@, final(heap)@),
            d_bound(final(d).seen@, final(heap)@, buf@),
            d_lookup(final(d).seen@, self.target()) == Some(h.id),
            final(heap).alive(h.id as int),
            final(heap).value_of(h.id as int) == self.pointee(buf@),
            final(heap).strong_of(h.id as int) >= 2,
            final(heap).weak_of(h.id as int) < u64::MAX,
    {
        // the buffer length, bound by usize, is needed for the position sums
        let _buf_len: usize = buf.len();
        let identity = self.ptr.target(self.pos);
        let id = d.deserialize_shared(heap, buf, identity);
        ArcHandle { id }
    }
}

impl ArchivedArcWeak {
    /// Every wrapper a present payload carries is well-formed.
    pub open spec fn wf(self, buf: Seq<Slot>) -> bool {
        match self {
            ArchivedArcWeak::Null => true,
            ArchivedArcWeak::Present(a) => a.wf(buf),
        }
    }

    /// Reads the archived weak pointer stored at `pos`: the discriminant
    /// slot decides whether the payload slot after it is read at all.
    pub fn read(buf: &Vec<Slot>, pos: usize) -> (w: ArchivedArcWeak)
        requires
            weak_slot_wf(buf@, pos),
        ensures
            w == s_read_weak(buf@, pos),
            w.wf(buf@),
    {
        // the buffer length, bound by usize, is needed for the position sums
        let _buf_len: usize = buf.len();
        match buf[pos] {
            Slot::TagPresent => ArchivedArcWeak::Present(ArchivedArc::read(buf, pos + 1)),
            _ => ArchivedArcWeak::Null,
        }
    }

    /// Attempts to upgrade the archived weak pointer to its archived strong
    /// payload.  Returns nothing exactly when a null weak pointer was
    /// archived.
    pub fn upgrade(&self) -> (r: Option<&ArchivedArc>)
        ensures
            r is Some <==> self is Present,
            self matches ArchivedArcWeak::Present(a) ==> r matches Some(x) && *x == a,
    {
        match self {
            ArchivedArcWeak::Null => None,
            ArchivedArcWeak::Present(r) => Some(r),
        }
    }

    /// Deserializes this archived weak pointer: null becomes a fresh null
    /// weak handle; a present payload goes through the deduplicating strong
    /// path and is downgraded, the momentary strong handle being dropped
    /// again, so the weak handle observes the same allocation as every
    /// strong pointer to this archived pointee.
    pub fn deserialize(&self, buf: &Vec<Slot>, d: &mut SharedDeserializer, heap: &mut Heap) -> (w:
        ArcWeakHandle)
        requires
            self.wf(buf@),
            d_wf(old(d).seen@, old(heap)@),
            d_bound(old(d).seen@, old(heap)@, buf@),
            d_room(old(d).seen@, old(heap)@),
            old(heap)@.len() < usize::MAX,
        ensures
            ({
                let (h2, s2, p) = s_deserialize_weak(old(heap)@, old(d).seen@, buf@, *self);
                &&& final(heap)@ == h2
                &&& final(d).seen@ == s2
                &&& w.pointee == p
            }),
            d_wf(final(d).seen@, final(heap)@),
            d_bound(final(d).seen@, final(heap)@, buf@),
            self matches ArchivedArcWeak::Present(a) ==> w.pointee is Some && final(heap).alive(
                w.pointee.unwrap() as int,
            ) && final(heap).value_of(w.pointee.unwrap() as int) == a.pointee(buf@),
            self is Null ==> w.pointee is None && final(heap)@ == old(heap)@ && final(d).seen@
                == old(d).seen@,
    {
        match self {
            ArchivedArcWeak::Null => ArcWeakHandle::new_null(),
            ArchivedArcWeak::Present(a) => {
                let h = a.deserialize(buf, d, heap);
                let ghost mid = heap@;
                let w = h.downgrade(heap);
                h.release(heap);
                proof {
                    assert forall|i: int| 0 <= i < d.seen@.len() implies {
                        &&& (#[trigger] d.seen@[i]).alloc < heap@.len()
                        &&& heap@[d.seen@[i].alloc as int].strong >= 1
                        &&& d.seen@[i].identity < buf@.len()
                        &&& buf@[d.seen@[i].identity as int] == Slot::Value(
                            heap@[d.seen@[i].alloc as int].value,
                        )
                    } by {
                        assert(mid[d.seen@[i].alloc as int].strong >= 1);
                        assert(buf@[d.seen@[i].identity as int] == Slot::Value(
                            mid[d.seen@[i].alloc as int].value,
                        ));
                    }
                }
                w
            },
        }
    }
}

} // verus!
