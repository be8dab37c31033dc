use shared_archive::de::SharedDeserializer;
use shared_archive::heap::Heap;
use shared_archive::rc::{ArchivedRc, ArchivedRcWeak, RcHandle, RcWeakResolver};
use shared_archive::ser::SharedSerializer;
use shared_archive::slot::Slot;

fn value_slot_count(s: &SharedSerializer) -> usize {
    let mut n = 0;
    let mut i = 0;
    while i < s.buf.len() {
        if matches!(s.buf[i], Slot::Value(_)) {
            n += 1;
        }
        i += 1;
    }
    n
}

#[test]
fn dedup_writes_pointee_once() {
    let mut heap = Heap::new();
    let a = RcHandle::new(&mut heap, 42);
    let b = a.clone_in(&mut heap);
    let mut s = SharedSerializer::new();
    let ra = a.serialize(&heap, &mut s);
    let len_after_first = s.buf.len();
    let rb = b.serialize(&heap, &mut s);
    assert_eq!(ra.pos, rb.pos);
    assert_eq!(s.buf.len(), len_after_first);
    assert_eq!(value_slot_count(&s), 1);
}

#[test]
fn round_trip_aliasing_is_pointer_equality() {
    let mut heap = Heap::new();
    let a = RcHandle::new(&mut heap, 42);
    let b = a.clone_in(&mut heap);
    let mut s = SharedSerializer::new();
    let pa = s.reserve();
    let pb = s.reserve();
    let ra = a.serialize(&heap, &mut s);
    let rb = b.serialize(&heap, &mut s);
    a.resolve(pa, &ra, &mut s);
    b.resolve(pb, &rb, &mut s);

    let buf = s.buf;
    let arc_a = ArchivedRc::read(&buf, pa);
    let arc_b = ArchivedRc::read(&buf, pb);
    let mut dheap = Heap::new();
    let mut d = SharedDeserializer::new();
    let a2 = arc_a.deserialize(&buf, &mut d, &mut dheap);
    let b2 = arc_b.deserialize(&buf, &mut d, &mut dheap);
    assert!(a2.ptr_eq(&b2));
    assert_eq!(a2.value(&dheap), 42);
    assert_eq!(b2.value(&dheap), 42);
}

#[test]
fn null_weak_round_trip() {
    let mut heap = Heap::new();
    let a = RcHandle::new(&mut heap, 7);
    let w = a.downgrade(&mut heap);
    a.release(&mut heap);

    let mut s = SharedSerializer::new();
    let pos = s.reserve();
    let _pay = s.reserve();
    let r = w.serialize(&heap, &mut s);
    assert!(matches!(r, RcWeakResolver::Null));
    w.resolve(pos, &r, &mut s);
    assert_eq!(s.buf[pos], Slot::TagNull);

    let buf = s.buf;
    let aw = ArchivedRcWeak::read(&buf, pos);
    assert!(matches!(aw, ArchivedRcWeak::Null));
    assert!(aw.upgrade().is_none());

    let mut dheap = Heap::new();
    let mut d = SharedDeserializer::new();
    let w2 = aw.deserialize(&buf, &mut d, &mut dheap);
    assert!(w2.upgrade(&mut dheap).is_none());
    d.finish(&mut dheap);
}

#[test]
fn live_weak_round_trip() {
    let mut heap = Heap::new();
    let a = RcHandle::new(&mut heap, 42);
    let w = a.downgrade(&mut heap);

    let mut s = SharedSerializer::new();
    let pos = s.reserve();
    let _pay = s.reserve();
    let r = w.serialize(&heap, &mut s);
    assert!(matches!(r, RcWeakResolver::Present(_)));
    w.resolve(pos, &r, &mut s);
    assert_eq!(s.buf[pos], Slot::TagPresent);

    let buf = s.buf;
    let aw = ArchivedRcWeak::read(&buf, pos);
    assert!(aw.upgrade().is_some());

    let mut dheap = Heap::new();
    let mut d = SharedDeserializer::new();
    let w2 = aw.deserialize(&buf, &mut d, &mut dheap);
    let up = w2.upgrade(&mut dheap);
    assert!(up.is_some());
    let h = up.unwrap();
    assert_eq!(h.value(&dheap), 42);
    h.release(&mut dheap);
    d.finish(&mut dheap);
}

#[test]
fn refcount_conservation() {
    let mut heap = Heap::new();
    let a = RcHandle::new(&mut heap, 9);
    let b = a.clone_in(&mut heap);
    let c = a.clone_in(&mut heap);

    let mut s = SharedSerializer::new();
    let pa = s.reserve();
    let pb = s.reserve();
    let pc = s.reserve();
    let ra = a.serialize(&heap, &mut s);
    let rb = b.serialize(&heap, &mut s);
    let rc = c.serialize(&heap, &mut s);
    a.resolve(pa, &ra, &mut s);
    b.resolve(pb, &rb, &mut s);
    c.resolve(pc, &rc, &mut s);

    let buf = s.buf;
    let mut dheap = Heap::new();
    let mut d = SharedDeserializer::new();
    let a2 = ArchivedRc::read(&buf, pa).deserialize(&buf, &mut d, &mut dheap);
    let b2 = ArchivedRc::read(&buf, pb).deserialize(&buf, &mut d, &mut dheap);
    let c2 = ArchivedRc::read(&buf, pc).deserialize(&buf, &mut d, &mut dheap);
    let id = a2.data_address();
    // three caller handles plus the registry's standing reference
    assert_eq!(dheap.strong_count(id), 4);
    d.finish(&mut dheap);
    // only the handles the caller still holds
    assert_eq!(dheap.strong_count(id), 3);
    a2.release(&mut dheap);
    assert_eq!(dheap.strong_count(id), 2);
    b2.release(&mut dheap);
    assert_eq!(dheap.strong_count(id), 1);
    c2.release(&mut dheap);
    // freed exactly at the last drop
    assert_eq!(dheap.strong_count(id), 0);
}

#[test]
fn weak_deserialized_before_any_strong_is_kept_alive_by_registry() {
    let mut heap = Heap::new();
    let a = RcHandle::new(&mut heap, 5);
    let w = a.downgrade(&mut heap);

    let mut s = SharedSerializer::new();
    let pw = s.reserve();
    let _pay = s.reserve();
    let pa = s.reserve();
    let rw = w.serialize(&heap, &mut s);
    let ra = a.serialize(&heap, &mut s);
    w.resolve(pw, &rw, &mut s);
    a.resolve(pa, &ra, &mut s);

    let buf = s.buf;
    let mut dheap = Heap::new();
    let mut d = SharedDeserializer::new();
    // the weak pointer is deserialized strictly before any strong pointer
    let aw = ArchivedRcWeak::read(&buf, pw);
    let w2 = aw.deserialize(&buf, &mut d, &mut dheap);
    // the registry's standing reference keeps the allocation alive
    let up = w2.upgrade(&mut dheap);
    assert!(up.is_some());
    let uh = up.unwrap();
    assert_eq!(uh.value(&dheap), 5);
    // the strong pointer deserialized afterwards aliases the same allocation
    let a2 = ArchivedRc::read(&buf, pa).deserialize(&buf, &mut d, &mut dheap);
    assert!(uh.ptr_eq(&a2));
    let id = a2.data_address();
    uh.release(&mut dheap);
    d.finish(&mut dheap);
    assert_eq!(dheap.strong_count(id), 1);
    a2.release(&mut dheap);
    assert_eq!(dheap.strong_count(id), 0);
    // with the last strong handle gone, the weak handle no longer upgrades
    assert!(w2.upgrade(&mut dheap).is_none());
    w2.release(&mut dheap);
}

#[test]
fn relocation_a_copied_buffer_reads_the_same() {
    let mut heap = Heap::new();
    let a = RcHandle::new(&mut heap, 42);
    let mut s = SharedSerializer::new();
    let pa = s.reserve();
    let ra = a.serialize(&heap, &mut s);
    a.resolve(pa, &ra, &mut s);

    let buf = s.buf;
    // a fresh buffer allocation models mapping the archive at another base
    // address: the relative pointers carry no absolute positions
    let copied: Vec<Slot> = buf.clone();
    let from_original = ArchivedRc::read(&buf, pa);
    let from_copy = ArchivedRc::read(&copied, pa);
    assert_eq!(from_original.get(&buf), 42);
    assert_eq!(from_copy.get(&copied), 42);
}

#[test]
fn equality_follows_pointee_values() {
    let mut heap = Heap::new();
    let a = RcHandle::new(&mut heap, 42);
    let mut s = SharedSerializer::new();
    let pa = s.reserve();
    let ra = a.serialize(&heap, &mut s);
    a.resolve(pa, &ra, &mut s);
    let buf = s.buf;
    let arc_a = ArchivedRc::read(&buf, pa);

    // a live pointer elsewhere with an equal pointee compares equal
    let mut other_heap = Heap::new();
    let same = RcHandle::new(&mut other_heap, 42);
    let differs = RcHandle::new(&mut other_heap, 41);
    assert!(arc_a.value_eq(&buf, &other_heap, &same));
    assert!(!arc_a.value_eq(&buf, &other_heap, &differs));
    // equality against the original it was archived from
    assert!(arc_a.value_eq(&buf, &heap, &a));
}

#[test]
fn example_two_strong_one_weak() {
    let mut heap = Heap::new();
    let a = RcHandle::new(&mut heap, 42);
    let b = a.clone_in(&mut heap);
    let w = a.downgrade(&mut heap);

    let mut s = SharedSerializer::new();
    let pa = s.reserve();
    let pb = s.reserve();
    let pw = s.reserve();
    let _pay = s.reserve();
    let ra = a.serialize(&heap, &mut s);
    let rb = b.serialize(&heap, &mut s);
    let rw = w.serialize(&heap, &mut s);
    a.resolve(pa, &ra, &mut s);
    b.resolve(pb, &rb, &mut s);
    w.resolve(pw, &rw, &mut s);

    let buf = s.buf;
    let mut dheap = Heap::new();
    let mut d = SharedDeserializer::new();
    let a2 = ArchivedRc::read(&buf, pa).deserialize(&buf, &mut d, &mut dheap);
    let b2 = ArchivedRc::read(&buf, pb).deserialize(&buf, &mut d, &mut dheap);
    let aw = ArchivedRcWeak::read(&buf, pw);
    let w2 = aw.deserialize(&buf, &mut d, &mut dheap);

    assert!(a2.ptr_eq(&b2));
    assert_eq!(a2.value(&dheap), 42);
    assert_eq!(b2.value(&dheap), 42);
    let up = w2.upgrade(&mut dheap);
    assert!(up.is_some());
    let uh = up.unwrap();
    assert!(uh.ptr_eq(&a2));
    uh.release(&mut dheap);
    d.finish(&mut dheap);
}

#[test]
fn deserializer_registry_aliases_and_counts() {
    let mut heap = Heap::new();
    let a = RcHandle::new(&mut heap, 3);
    let mut s = SharedSerializer::new();
    let r = a.serialize(&heap, &mut s);
    let buf = s.buf;
    let mut dheap = Heap::new();
    let mut d = SharedDeserializer::new();
    let id1 = d.deserialize_shared(&mut dheap, &buf, r.pos);
    let id2 = d.deserialize_shared(&mut dheap, &buf, r.pos);
    assert_eq!(id1, id2);
    assert_eq!(dheap.strong_count(id1), 3);
    assert_eq!(dheap.value(id1), 3);
    d.finish(&mut dheap);
    assert_eq!(dheap.strong_count(id1), 2);
}

#[test]
fn finish_on_empty_registry_is_a_no_op() {
    let mut dheap = Heap::new();
    let a = RcHandle::new(&mut dheap, 1);
    let d = SharedDeserializer::new();
    d.finish(&mut dheap);
    assert_eq!(dheap.strong_count(a.data_address()), 1);
}

#[test]
fn weak_of_distinct_pointee_stays_distinct() {
    let mut heap = Heap::new();
    let a = RcHandle::new(&mut heap, 1);
    let b = RcHandle::new(&mut heap, 2);
    let mut s = SharedSerializer::new();
    let pa = s.reserve();
    let pb = s.reserve();
    let ra = a.serialize(&heap, &mut s);
    let rb = b.serialize(&heap, &mut s);
    a.resolve(pa, &ra, &mut s);
    b.resolve(pb, &rb, &mut s);
    let buf = s.buf;
    let mut dheap = Heap::new();
    let mut d = SharedDeserializer::new();
    let a2 = ArchivedRc::read(&buf, pa).deserialize(&buf, &mut d, &mut dheap);
    let b2 = ArchivedRc::read(&buf, pb).deserialize(&buf, &mut d, &mut dheap);
    assert!(!a2.ptr_eq(&b2));
    assert_eq!(a2.value(&dheap), 1);
    assert_eq!(b2.value(&dheap), 2);
    d.finish(&mut dheap);
}

#[test]
fn pinned_mutation_changes_the_pointee_for_all_aliases() {
    let mut heap = Heap::new();
    let a = RcHandle::new(&mut heap, 1);
    let b = a.clone_in(&mut heap);
    let mut s = SharedSerializer::new();
    let pa = s.reserve();
    let pb = s.reserve();
    let ra = a.serialize(&heap, &mut s);
    let rb = b.serialize(&heap, &mut s);
    a.resolve(pa, &ra, &mut s);
    b.resolve(pb, &rb, &mut s);
    let mut buf = s.buf;
    let arc_a = ArchivedRc::read(&buf, pa);
    let arc_b = ArchivedRc::read(&buf, pb);
    arc_a.set_pointee(&mut buf, 2);
    // both archived pointers dereference to the one updated copy
    assert_eq!(arc_a.get(&buf), 2);
    assert_eq!(arc_b.get(&buf), 2);
}
