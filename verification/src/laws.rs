//! Global properties of the archiving pipeline, proved once over the
//! transition functions that every operation's contract is stated with.
//! The deduplication, aliasing and reference-count laws hold for both
//! pointer instantiations, whose contracts share these transitions; the
//! weak-pointer round-trip laws are stated for each instantiation.

use vstd::prelude::*;

use crate::de::{
    d_bound, d_lookup, d_lookup_from, d_room, d_wf, lemma_d_lookup_extend,
    lemma_d_lookup_some_entry, s_deserialize_shared, s_release_from, DeserEntry,
};
use crate::heap::{s_decr_strong, s_incr_strong, Allocation};
use crate::rc::{
    s_deserialize_weak, s_read_rc, s_read_weak, s_resolve_weak, s_serialize_weak,
    s_weak_upgradable, ArchivedRcWeak, RcResolver, RcWeakResolver,
};
use crate::ser::{
    lemma_lookup_extend, lemma_lookup_some_entry, lookup, s_serialize_shared, seen_bound,
    seen_unique, SeenEntry,
};
use crate::slot::{spec_rel, Slot};

verus! {

/// Deduplication: once a pointee identity has been archived, archiving a
/// second pointer to the same identity writes no new bytes, changes no
/// registry state, and yields the position of the one existing copy; a
/// first sighting appends exactly one copy of the pointee's bytes.
pub proof fn lemma_dedup(buf: Seq<Slot>, seen: Seq<SeenEntry>, identity: usize, v: u64)
    requires
        buf.len() < usize::MAX,
    ensures
        ({
            let (b1, s1, p1) = s_serialize_shared(buf, seen, identity, v);
            let (b2, s2, p2) = s_serialize_shared(b1, s1, identity, v);
            &&& b2 == b1
            &&& s2 == s1
            &&& p2 == p1
            &&& (lookup(seen, identity as int) is None ==> b1 == buf.push(Slot::Value(v)) && p1
                == buf.len())
            &&& (lookup(seen, identity as int) is Some ==> b1 == buf && s1 == seen)
        }),
{
    if lookup(seen, identity as int) is None {
        let e = SeenEntry { identity, pos: buf.len() as usize };
        lemma_lookup_extend(seen, e, identity as int);
    }
}

/// Round-trip aliasing: two archived pointers to the same pointee identity
/// deserialize to handles of one and the same allocation, whatever value
/// either read for the pointee.  Together with `ptr_eq`, the reconstructed
/// handles compare pointer-equal.
pub proof fn lemma_deserialize_alias(
    h: Seq<Allocation>,
    seen: Seq<DeserEntry>,
    identity: usize,
    v: u64,
    v2: u64,
)
    requires
        h.len() < usize::MAX,
    ensures
        ({
            let (h1, s1, a1) = s_deserialize_shared(h, seen, identity, v);
            let (h2, s2, a2) = s_deserialize_shared(h1, s1, identity, v2);
            a2 == a1
        }),
{
    if d_lookup(seen, identity as int) is None {
        let e = DeserEntry { identity, alloc: h.len() as usize };
        lemma_d_lookup_extend(seen, e, identity as int);
    }
}

/// Deserializing the same archived pointee identity `k` times over, against
/// a registry that starts empty.
pub open spec fn s_deserialize_repeat(
    h: Seq<Allocation>,
    seen: Seq<DeserEntry>,
    identity: usize,
    v: u64,
    k: nat,
) -> (Seq<Allocation>, Seq<DeserEntry>)
    decreases k,
{
    if k == 0 {
        (h, seen)
    } else {
        let (h1, s1) = s_deserialize_repeat(h, seen, identity, v, (k - 1) as nat);
        let (h2, s2, a) = s_deserialize_shared(h1, s1, identity, v);
        (h2, s2)
    }
}

/// Dropping `j` strong references from allocation `id`, one after another.
pub open spec fn s_drop_strong_repeat(h: Seq<Allocation>, id: int, j: nat) -> Seq<Allocation>
    decreases j,
{
    if j == 0 {
        h
    } else {
        s_decr_strong(s_drop_strong_repeat(h, id, (j - 1) as nat), id)
    }
}

/// Dropping `j` of the strong references of allocation `id` lowers its
/// strong count by exactly `j` and touches nothing else.
pub proof fn lemma_drop_strong_repeat(h: Seq<Allocation>, id: int, j: nat)
    requires
        0 <= id < h.len(),
        j <= h[id].strong,
    ensures
        ({
            let hj = s_drop_strong_repeat(h, id, j);
            &&& hj.len() == h.len()
            &&& hj[id].strong == h[id].strong - j
            &&& hj[id].value == h[id].value
            &&& hj[id].weak == h[id].weak
            &&& forall|m: int| 0 <= m < h.len() && m != id ==> hj[m] == h[m]
        }),
    decreases j,
{
    if j > 0 {
        lemma_drop_strong_repeat(h, id, (j - 1) as nat);
    }
}

/// Reference-count conservation: reconstructing `k` strong pointers to one
/// archived pointee, on a fresh registry, leaves the one new allocation
/// with strong count `k + 1` — the `k` handles handed to the caller plus
/// the registry's standing reference.  Releasing the registry brings the
/// count to exactly `k`, the handles the caller still holds, and dropping
/// those `k` handles brings it to zero — the allocation is freed by the
/// last drop and not before.  Every other allocation is left untouched
/// throughout.
pub proof fn lemma_refcount_conservation(h: Seq<Allocation>, identity: usize, v: u64, k: nat)
    requires
        h.len() < usize::MAX,
        1 <= k < u64::MAX,
    ensures
        ({
            let (h1, s1) = s_deserialize_repeat(h, Seq::<DeserEntry>::empty(), identity, v, k);
            let id = h.len() as int;
            let hr = s_release_from(h1, s1, 0);
            &&& h1.len() == h.len() + 1
            &&& h1[id].strong == k + 1
            &&& h1[id].value == v
            &&& h1[id].weak == 0
            &&& forall|m: int| 0 <= m < h.len() ==> h1[m] == h[m]
            &&& s1 == Seq::<DeserEntry>::empty().push(
                DeserEntry { identity, alloc: h.len() as usize },
            )
            &&& hr.len() == h1.len()
            &&& hr[id].strong == k
            &&& forall|m: int| 0 <= m < h.len() ==> hr[m] == h[m]
            &&& s_drop_strong_repeat(hr, id, k)[id].strong == 0
            &&& (k > 1 ==> s_drop_strong_repeat(hr, id, (k - 1) as nat)[id].strong == 1)
        }),
{
    let e = DeserEntry { identity, alloc: h.len() as usize };
    let empty = Seq::<DeserEntry>::empty();
    lemma_deserialize_repeat_count(h, identity, v, k);
    let (h1, s1) = s_deserialize_repeat(h, empty, identity, v, k);
    let id = h.len() as int;
    assert(s_release_from(h1, s1, 0) == s_release_from(s_decr_strong(h1, id), s1, 1));
    assert(s_release_from(s_decr_strong(h1, id), s1, 1) == s_decr_strong(h1, id));
    let hr = s_release_from(h1, s1, 0);
    lemma_drop_strong_repeat(hr, id, k);
    if k > 1 {
        lemma_drop_strong_repeat(hr, id, (k - 1) as nat);
    }
}

/// The inductive heart of reference-count conservation: after `k` strong
/// deserializations of one identity on a fresh registry, the registry holds
/// exactly one entry and the one new allocation carries `k + 1` strong
/// references.
proof fn lemma_deserialize_repeat_count(h: Seq<Allocation>, identity: usize, v: u64, k: nat)
    requires
        h.len() < usize::MAX,
        1 <= k < u64::MAX,
    ensures
        ({
            let (h1, s1) = s_deserialize_repeat(h, Seq::<DeserEntry>::empty(), identity, v, k);
            let id = h.len() as int;
            &&& h1.len() == h.len() + 1
            &&& h1[id].strong == k + 1
            &&& h1[id].value == v
            &&& h1[id].weak == 0
            &&& forall|m: int| 0 <= m < h.len() ==> h1[m] == h[m]
            &&& s1 == Seq::<DeserEntry>::empty().push(
                DeserEntry { identity, alloc: h.len() as usize },
            )
        }),
    decreases k,
{
    let e = DeserEntry { identity, alloc: h.len() as usize };
    let empty = Seq::<DeserEntry>::empty();
    if k == 1 {
        assert(s_deserialize_repeat(h, empty, identity, v, 0) == (h, empty));
        assert(d_lookup(empty, identity as int) is None);
        let (h1, s1, a) = s_deserialize_shared(h, empty, identity, v);
        assert(s_deserialize_repeat(h, empty, identity, v, 1) == (h1, s1));
        assert(h1[h.len() as int].strong == 2);
    } else {
        lemma_deserialize_repeat_count(h, identity, v, (k - 1) as nat);
        let (h1, s1) = s_deserialize_repeat(h, empty, identity, v, (k - 1) as nat);
        assert(s1[0] == e);
        assert(d_lookup_from(s1, 0, identity as int) == Some(e.alloc));
        let (h2, s2, a) = s_deserialize_shared(h1, s1, identity, v);
        assert(s_deserialize_repeat(h, empty, identity, v, k) == (h2, s2));
        assert(h2 == crate::heap::s_incr_strong(h1, e.alloc as int));
        assert(h2[h.len() as int].strong == k + 1);
    }
}

/// Null-weak round trip: a weak pointer that cannot be upgraded at
/// serialization time — null, or its pointee already dropped — serializes
/// to the null resolver without writing any pointee bytes, resolves to the
/// null discriminant, reads back as the null archived weak pointer, and
/// deserializes, touching neither heap nor registry, to a weak handle that
/// fails to upgrade.
pub proof fn lemma_rc_null_weak_round_trip(
    sh: Seq<Allocation>,
    pointee: Option<usize>,
    buf: Seq<Slot>,
    seen: Seq<SeenEntry>,
    pos: usize,
    dh: Seq<Allocation>,
    dseen: Seq<DeserEntry>,
)
    requires
        !s_weak_upgradable(sh, pointee),
        pos + 1 < buf.len(),
    ensures
        ({
            let (b1, s1, r) = s_serialize_weak(buf, seen, sh, pointee);
            let b2 = s_resolve_weak(b1, pos, r);
            let aw = s_read_weak(b2, pos);
            let (dh2, ds2, w) = s_deserialize_weak(dh, dseen, b2, aw);
            &&& r == RcWeakResolver::Null
            &&& b1 == buf && s1 == seen
            &&& b2 == buf.update(pos as int, Slot::TagNull)
            &&& aw == ArchivedRcWeak::Null
            &&& dh2 == dh && ds2 == dseen && w is None
            &&& !s_weak_upgradable(dh2, w)
        }),
{
}

/// Live-weak round trip: a weak pointer with a live pointee serializes to
/// a present resolver through the deduplicating strong path, resolves to
/// the present discriminant with its payload right after it, reads back as
/// a present archived weak pointer whose archived pointee carries the
/// original value, and deserializes to a weak handle that observes a live
/// allocation holding that same value — so upgrading it succeeds and
/// yields the original pointee value.
pub proof fn lemma_rc_live_weak_round_trip(
    sh: Seq<Allocation>,
    pointee: Option<usize>,
    buf: Seq<Slot>,
    seen: Seq<SeenEntry>,
    pos: usize,
    dh: Seq<Allocation>,
    dseen: Seq<DeserEntry>,
)
    requires
        s_weak_upgradable(sh, pointee),
        seen_unique(buf, seen),
        seen_bound(buf, seen, sh),
        pos + 1 < buf.len(),
        buf[pos as int] == Slot::Reserved,
        buf[pos + 1] == Slot::Reserved,
        buf.len() < usize::MAX,
        d_wf(dseen, dh),
        d_bound(dseen, dh, buf),
        d_room(dseen, dh),
        dh.len() < usize::MAX,
    ensures
        ({
            let v = sh[pointee.unwrap() as int].value;
            let (b1, s1, r) = s_serialize_weak(buf, seen, sh, pointee);
            let b2 = s_resolve_weak(b1, pos, r);
            let aw = s_read_weak(b2, pos);
            let (dh2, ds2, w) = s_deserialize_weak(dh, dseen, b2, aw);
            &&& r is Present
            &&& aw is Present
            &&& aw->Present_0.wf(b2)
            &&& aw->Present_0.pointee(b2) == v
            &&& w is Some
            &&& s_weak_upgradable(dh2, w)
            &&& dh2[w.unwrap() as int].value == v
            &&& dh2[w.unwrap() as int].weak >= 1
        }),
{
    let idp = pointee.unwrap();
    let v = sh[idp as int].value;
    let (bb, ss, p1) = s_serialize_shared(buf, seen, idp, v);
    if lookup(seen, idp as int) is Some {
        lemma_lookup_some_entry(seen, 0, idp as int);
    }
    assert(0 <= p1 < bb.len());
    assert(bb[p1] == Slot::Value(v));
    assert(bb[pos as int] == Slot::Reserved);
    assert(bb[pos + 1] == Slot::Reserved);
    let r = RcWeakResolver::Present(RcResolver { pos: p1 as usize });
    let b2 = s_resolve_weak(bb, pos, r);
    assert(p1 != pos && p1 != pos + 1);
    assert(b2[pos as int] == Slot::TagPresent);
    assert(b2[pos + 1] == Slot::Ptr(spec_rel(pos + 1, p1)));
    assert(b2[p1] == Slot::Value(v));
    let aw = s_read_weak(b2, pos);
    let a = s_read_rc(b2, (pos + 1) as usize);
    assert(aw == ArchivedRcWeak::Present(a));
    assert(a.target() == p1);
    assert(a.wf(b2));
    assert(a.pointee(b2) == v);
    assert(d_bound(dseen, dh, b2)) by {
        assert forall|i: int| 0 <= i < dseen.len() implies {
            &&& (#[trigger] dseen[i]).identity < b2.len()
            &&& b2[dseen[i].identity as int] == Slot::Value(dh[dseen[i].alloc as int].value)
        } by {
            assert(buf[dseen[i].identity as int] == Slot::Value(dh[dseen[i].alloc as int].value));
        }
    }
    let (h1, ds1, idd) = s_deserialize_shared(dh, dseen, p1 as usize, v);
    if d_lookup(dseen, p1 as int) is Some {
        lemma_d_lookup_some_entry(dseen, 0, p1 as int);
        assert(dh[idd].value == v);
        assert(dh[idd].strong >= 1 && dh[idd].strong < u64::MAX);
        assert(dh[idd].weak < u64::MAX);
    }
    assert(0 <= idd < h1.len());
    assert(h1[idd].strong >= 2);
    assert(h1[idd].value == v);
    assert(h1[idd].weak < u64::MAX);
}

/// Null-weak round trip for the cross-thread instantiation, word for word
/// as in `lemma_rc_null_weak_round_trip`.
pub proof fn lemma_arc_null_weak_round_trip(
    sh: Seq<Allocation>,
    pointee: Option<usize>,
    buf: Seq<Slot>,
    seen: Seq<SeenEntry>,
    pos: usize,
    dh: Seq<Allocation>,
    dseen: Seq<DeserEntry>,
)
    requires
        !crate::arc::s_weak_upgradable(sh, pointee),
        pos + 1 < buf.len(),
    ensures
        ({
            let (b1, s1, r) = crate::arc::s_serialize_weak(buf, seen, sh, pointee);
            let b2 = crate::arc::s_resolve_weak(b1, pos, r);
            let aw = crate::arc::s_read_weak(b2, pos);
            let (dh2, ds2, w) = crate::arc::s_deserialize_weak(dh, dseen, b2, aw);
            &&& r == crate::arc::ArcWeakResolver::Null
            &&& b1 == buf && s1 == seen
            &&& b2 == buf.update(pos as int, Slot::TagNull)
            &&& aw == crate::arc::ArchivedArcWeak::Null
            &&& dh2 == dh && ds2 == dseen && w is None
            &&& !crate::arc::s_weak_upgradable(dh2, w)
        }),
{
}

/// Live-weak round trip for the cross-thread instantiation, word for word
/// as in `lemma_rc_live_weak_round_trip`.
pub proof fn lemma_arc_live_weak_round_trip(
    sh: Seq<Allocation>,
    pointee: Option<usize>,
    buf: Seq<Slot>,
    seen: Seq<SeenEntry>,
    pos: usize,
    dh: Seq<Allocation>,
    dseen: Seq<DeserEntry>,
)
    requires
        crate::arc::s_weak_upgradable(sh, pointee),
        seen_unique(buf, seen),
        seen_bound(buf, seen, sh),
        pos + 1 < buf.len(),
        buf[pos as int] == Slot::Reserved,
        buf[pos + 1] == Slot::Reserved,
        buf.len() < usize::MAX,
        d_wf(dseen, dh),
        d_bound(dseen, dh, buf),
        d_room(dseen, dh),
        dh.len() < usize::MAX,
    ensures
        ({
            let v = sh[pointee.unwrap() as int].value;
            let (b1, s1, r) = crate::arc::s_serialize_weak(buf, seen, sh, pointee);
            let b2 = crate::arc::s_resolve_weak(b1, pos, r);
            let aw = crate::arc::s_read_weak(b2, pos);
            let (dh2, ds2, w) = crate::arc::s_deserialize_weak(dh, dseen, b2, aw);
            &&& r is Present
            &&& aw is Present
            &&& aw->Present_0.wf(b2)
            &&& aw->Present_0.pointee(b2) == v
            &&& w is Some
            &&& crate::arc::s_weak_upgradable(dh2, w)
            &&& dh2[w.unwrap() as int].value == v
            &&& dh2[w.unwrap() as int].weak >= 1
        }),
{
    let idp = pointee.unwrap();
    let v = sh[idp as int].value;
    let (bb, ss, p1) = s_serialize_shared(buf, seen, idp, v);
    if lookup(seen, idp as int) is Some {
        lemma_lookup_some_entry(seen, 0, idp as int);
    }
    assert(0 <= p1 < bb.len());
    assert(bb[p1] == Slot::Value(v));
    assert(bb[pos as int] == Slot::Reserved);
    assert(bb[pos + 1] == Slot::Reserved);
    let r = crate::arc::ArcWeakResolver::Present(crate::arc::ArcResolver { pos: p1 as usize });
    let b2 = crate::arc::s_resolve_weak(bb, pos, r);
    assert(p1 != pos && p1 != pos + 1);
    assert(b2[pos as int] == Slot::TagPresent);
    assert(b2[pos + 1] == Slot::Ptr(spec_rel(pos + 1, p1)));
    assert(b2[p1] == Slot::Value(v));
    let aw = crate::arc::s_read_weak(b2, pos);
    let a = crate::arc::s_read_arc(b2, (pos + 1) as usize);
    assert(aw == crate::arc::ArchivedArcWeak::Present(a));
    assert(a.target() == p1);
    assert(a.wf(b2));
    assert(a.pointee(b2) == v);
    assert(d_bound(dseen, dh, b2)) by {
        assert forall|i: int| 0 <= i < dseen.len() implies {
            &&& (#[trigger] dseen[i]).identity < b2.len()
            &&& b2[dseen[i].identity as int] == Slot::Value(dh[dseen[i].alloc as int].value)
        } by {
            assert(buf[dseen[i].identity as int] == Slot::Value(dh[dseen[i].alloc as int].value));
        }
    }
    let (h1, ds1, idd) = s_deserialize_shared(dh, dseen, p1 as usize, v);
    if d_lookup(dseen, p1 as int) is Some {
        lemma_d_lookup_some_entry(dseen, 0, p1 as int);
        assert(dh[idd].value == v);
        assert(dh[idd].strong >= 1 && dh[idd].strong < u64::MAX);
        assert(dh[idd].weak < u64::MAX);
    }
    assert(0 <= idd < h1.len());
    assert(h1[idd].strong >= 2);
    assert(h1[idd].value == v);
    assert(h1[idd].weak < u64::MAX);
}

/// Full strong-pointer round trip: archiving two strong pointers to one
/// live pointee writes the pointee's bytes once, both archived wrappers
/// dereference to the original value, and deserializing both yields handles
/// of one and the same reconstructed allocation holding that value —
/// pointer equality, not just value equality, survives the round trip.
pub proof fn lemma_rc_strong_round_trip(
    sh: Seq<Allocation>,
    ida: usize,
    buf: Seq<Slot>,
    seen: Seq<SeenEntry>,
    pos_a: usize,
    pos_b: usize,
    dh: Seq<Allocation>,
    dseen: Seq<DeserEntry>,
)
    requires
        ida < sh.len(),
        sh[ida as int].strong >= 1,
        seen_unique(buf, seen),
        seen_bound(buf, seen, sh),
        pos_a < buf.len(),
        pos_b < buf.len(),
        pos_a != pos_b,
        buf[pos_a as int] == Slot::Reserved,
        buf[pos_b as int] == Slot::Reserved,
        buf.len() < usize::MAX,
        d_wf(dseen, dh),
        d_bound(dseen, dh, buf),
        d_room(dseen, dh),
        forall|i: int|
            0 <= i < dseen.len() ==> dh[(#[trigger] dseen[i]).alloc as int].strong + 2
                <= u64::MAX,
        dh.len() < usize::MAX,
    ensures
        ({
            let v = sh[ida as int].value;
            let (b1, s1, p1) = s_serialize_shared(buf, seen, ida, v);
            let (b2, s2, p2) = s_serialize_shared(b1, s1, ida, v);
            let b3 = b2.update(pos_a as int, Slot::Ptr(spec_rel(pos_a as int, p1))).update(
                pos_b as int,
                Slot::Ptr(spec_rel(pos_b as int, p2)),
            );
            let aa = s_read_rc(b3, pos_a);
            let ab = s_read_rc(b3, pos_b);
            let (dh1, ds1, a1) = s_deserialize_shared(dh, dseen, p1 as usize, aa.pointee(b3));
            let (dh2, ds2, a2) = s_deserialize_shared(dh1, ds1, p2 as usize, ab.pointee(b3));
            &&& p2 == p1
            &&& b2 == b1
            &&& aa.wf(b3) && ab.wf(b3)
            &&& aa.target() == p1 && ab.target() == p1
            &&& aa.pointee(b3) == v && ab.pointee(b3) == v
            &&& a2 == a1
            &&& 0 <= a1 < dh2.len()
            &&& dh2[a1].value == v
            &&& dh2[a1].strong >= 3
        }),
{
    let v = sh[ida as int].value;
    let (b1, s1, p1) = s_serialize_shared(buf, seen, ida, v);
    lemma_dedup(buf, seen, ida, v);
    if lookup(seen, ida as int) is Some {
        lemma_lookup_some_entry(seen, 0, ida as int);
    }
    assert(0 <= p1 < b1.len());
    assert(b1[p1] == Slot::Value(v));
    assert(p1 != pos_a && p1 != pos_b);
    let b3 = b1.update(pos_a as int, Slot::Ptr(spec_rel(pos_a as int, p1))).update(
        pos_b as int,
        Slot::Ptr(spec_rel(pos_b as int, p1)),
    );
    assert(b3[p1] == Slot::Value(v));
    let aa = s_read_rc(b3, pos_a);
    let ab = s_read_rc(b3, pos_b);
    assert(aa.target() == p1);
    assert(ab.target() == p1);
    assert(d_bound(dseen, dh, b3)) by {
        assert forall|i: int| 0 <= i < dseen.len() implies {
            &&& (#[trigger] dseen[i]).identity < b3.len()
            &&& b3[dseen[i].identity as int] == Slot::Value(dh[dseen[i].alloc as int].value)
        } by {
            assert(buf[dseen[i].identity as int] == Slot::Value(dh[dseen[i].alloc as int].value));
        }
    }
    let (dh1, ds1, a1) = s_deserialize_shared(dh, dseen, p1 as usize, v);
    if d_lookup(dseen, p1 as int) is Some {
        lemma_d_lookup_some_entry(dseen, 0, p1 as int);
        assert(dh[a1].value == v);
        assert(dh[a1].strong >= 1 && dh[a1].strong < u64::MAX);
    } else {
        let e = DeserEntry { identity: p1 as usize, alloc: dh.len() as usize };
        lemma_d_lookup_extend(dseen, e, p1 as int);
    }
    assert(0 <= a1 < dh1.len());
    assert(dh1[a1].value == v);
    assert(dh1[a1].strong >= 2);
    assert(dh1[a1].strong < u64::MAX);
    assert(d_lookup(ds1, p1 as int) == Some(a1 as usize));
    let (dh2, ds2, a2) = s_deserialize_shared(dh1, ds1, p1 as usize, v);
    assert(a2 == a1);
    assert(dh2 == s_incr_strong(dh1, a1));
    assert(dh2[a1].strong >= 3);
}

/// Full strong-pointer round trip for the cross-thread instantiation, word
/// for word as in `lemma_rc_strong_round_trip`.
pub proof fn lemma_arc_strong_round_trip(
    sh: Seq<Allocation>,
    ida: usize,
    buf: Seq<Slot>,
    seen: Seq<SeenEntry>,
    pos_a: usize,
    pos_b: usize,
    dh: Seq<Allocation>,
    dseen: Seq<DeserEntry>,
)
    requires
        ida < sh.len(),
        sh[ida as int].strong >= 1,
        seen_unique(buf, seen),
        seen_bound(buf, seen, sh),
        pos_a < buf.len(),
        pos_b < buf.len(),
        pos_a != pos_b,
        buf[pos_a as int] == Slot::Reserved,
        buf[pos_b as int] == Slot::Reserved,
        buf.len() < usize::MAX,
        d_wf(dseen, dh),
        d_bound(dseen, dh, buf),
        d_room(dseen, dh),
        forall|i: int|
            0 <= i < dseen.len() ==> dh[(#[trigger] dseen[i]).alloc as int].strong + 2
                <= u64::MAX,
        dh.len() < usize::MAX,
    ensures
        ({
            let v = sh[ida as int].value;
            let (b1, s1, p1) = s_serialize_shared(buf, seen, ida, v);
            let (b2, s2, p2) = s_serialize_shared(b1, s1, ida, v);
            let b3 = b2.update(pos_a as int, Slot::Ptr(spec_rel(pos_a as int, p1))).update(
                pos_b as int,
                Slot::Ptr(spec_rel(pos_b as int, p2)),
            );
            let aa = crate::arc::s_read_arc(b3, pos_a);
            let ab = crate::arc::s_read_arc(b3, pos_b);
            let (dh1, ds1, a1) = s_deserialize_shared(dh, dseen, p1 as usize, aa.pointee(b3));
            let (dh2, ds2, a2) = s_deserialize_shared(dh1, ds1, p2 as usize, ab.pointee(b3));
            &&& p2 == p1
            &&& b2 == b1
            &&& aa.wf(b3) && ab.wf(b3)
            &&& aa.target() == p1 && ab.target() == p1
            &&& aa.pointee(b3) == v && ab.pointee(b3) == v
            &&& a2 == a1
            &&& 0 <= a1 < dh2.len()
            &&& dh2[a1].value == v
            &&& dh2[a1].strong >= 3
        }),
{
    let v = sh[ida as int].value;
    let (b1, s1, p1) = s_serialize_shared(buf, seen, ida, v);
    lemma_dedup(buf, seen, ida, v);
    if lookup(seen, ida as int) is Some {
        lemma_lookup_some_entry(seen, 0, ida as int);
    }
    assert(0 <= p1 < b1.len());
    assert(b1[p1] == Slot::Value(v));
    assert(p1 != pos_a && p1 != pos_b);
    let b3 = b1.update(pos_a as int, Slot::Ptr(spec_rel(pos_a as int, p1))).update(
        pos_b as int,
        Slot::Ptr(spec_rel(pos_b as int, p1)),
    );
    assert(b3[p1] == Slot::Value(v));
    let aa = crate::arc::s_read_arc(b3, pos_a);
    let ab = crate::arc::s_read_arc(b3, pos_b);
    assert(aa.target() == p1);
    assert(ab.target() == p1);
    assert(d_bound(dseen, dh, b3)) by {
        assert forall|i: int| 0 <= i < dseen.len() implies {
            &&& (#[trigger] dseen[i]).identity < b3.len()
            &&& b3[dseen[i].identity as int] == Slot::Value(dh[dseen[i].alloc as int].value)
        } by {
            assert(buf[dseen[i].identity as int] == Slot::Value(dh[dseen[i].alloc as int].value));
        }
    }
    let (dh1, ds1, a1) = s_deserialize_shared(dh, dseen, p1 as usize, v);
    if d_lookup(dseen, p1 as int) is Some {
        lemma_d_lookup_some_entry(dseen, 0, p1 as int);
        assert(dh[a1].value == v);
        assert(dh[a1].strong >= 1 && dh[a1].strong < u64::MAX);
    } else {
        let e = DeserEntry { identity: p1 as usize, alloc: dh.len() as usize };
        lemma_d_lookup_extend(dseen, e, p1 as int);
    }
    assert(0 <= a1 < dh1.len());
    assert(dh1[a1].value == v);
    assert(dh1[a1].strong >= 2);
    assert(dh1[a1].strong < u64::MAX);
    assert(d_lookup(ds1, p1 as int) == Some(a1 as usize));
    let (dh2, ds2, a2) = s_deserialize_shared(dh1, ds1, p1 as usize, v);
    assert(a2 == a1);
    assert(dh2 == s_incr_strong(dh1, a1));
    assert(dh2[a1].strong >= 3);
}

} // verus!
