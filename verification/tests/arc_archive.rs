use shared_archive::arc::{ArcHandle, ArcWeakResolver, ArchivedArc, ArchivedArcWeak};
use shared_archive::de::SharedDeserializer;
use shared_archive::heap::Heap;
use shared_archive::ser::SharedSerializer;
use shared_archive::slot::Slot;

#[test]
fn arc_dedup_writes_pointee_once() {
    let mut heap = Heap::new();
    let a = ArcHandle::new(&mut heap, 42);
    let b = a.clone_in(&mut heap);
    let mut s = SharedSerializer::new();
    let ra = a.serialize(&heap, &mut s);
    let len_after_first = s.buf.len();
    let rb = b.serialize(&heap, &mut s);
    assert_eq!(ra.pos, rb.pos);
    assert_eq!(s.buf.len(), len_after_first);
}

#[test]
fn arc_round_trip_aliasing_is_pointer_equality() {
    let mut heap = Heap::new();
    let a = ArcHandle::new(&mut heap, 11);
    let b = a.clone_in(&mut heap);
    let mut s = SharedSerializer::new();
    let pa = s.reserve();
    let pb = s.reserve();
    let ra = a.serialize(&heap, &mut s);
    let rb = b.serialize(&heap, &mut s);
    a.resolve(pa, &ra, &mut s);
    b.resolve(pb, &rb, &mut s);

    let buf = s.buf;
    let mut dheap = Heap::new();
    let mut d = SharedDeserializer::new();
    let a2 = ArchivedArc::read(&buf, pa).deserialize(&buf, &mut d, &mut dheap);
    let b2 = ArchivedArc::read(&buf, pb).deserialize(&buf, &mut d, &mut dheap);
    assert!(a2.ptr_eq(&b2));
    assert_eq!(a2.value(&dheap), 11);
    d.finish(&mut dheap);
}

#[test]
fn arc_null_weak_round_trip() {
    let mut heap = Heap::new();
    let a = ArcHandle::new(&mut heap, 7);
    let w = a.downgrade(&mut heap);
    a.release(&mut heap);

    let mut s = SharedSerializer::new();
    let pos = s.reserve();
    let _pay = s.reserve();
    let r = w.serialize(&heap, &mut s);
    assert!(matches!(r, ArcWeakResolver::Null));
    w.resolve(pos, &r, &mut s);
    assert_eq!(s.buf[pos], Slot::TagNull);

    let buf = s.buf;
    let aw = ArchivedArcWeak::read(&buf, pos);
    assert!(aw.upgrade().is_none());
    let mut dheap = Heap::new();
    let mut d = SharedDeserializer::new();
    let w2 = aw.deserialize(&buf, &mut d, &mut dheap);
    assert!(w2.upgrade(&mut dheap).is_none());
    d.finish(&mut dheap);
}

#[test]
fn arc_live_weak_round_trip() {
    let mut heap = Heap::new();
    let a = ArcHandle::new(&mut heap, 42);
    let w = a.downgrade(&mut heap);

    let mut s = SharedSerializer::new();
    let pos = s.reserve();
    let _pay = s.reserve();
    let r = w.serialize(&heap, &mut s);
    assert!(matches!(r, ArcWeakResolver::Present(_)));
    w.resolve(pos, &r, &mut s);

    let buf = s.buf;
    let aw = ArchivedArcWeak::read(&buf, pos);
    let up_archived = aw.upgrade();
    assert!(up_archived.is_some());
    assert_eq!(up_archived.unwrap().get(&buf), 42);

    let mut dheap = Heap::new();
    let mut d = SharedDeserializer::new();
    let w2 = aw.deserialize(&buf, &mut d, &mut dheap);
    let up = w2.upgrade(&mut dheap);
    assert!(up.is_some());
    let h = up.unwrap();
    assert_eq!(h.value(&dheap), 42);
    h.release(&mut dheap);
    d.finish(&mut dheap);
}

#[test]
fn arc_example_two_strong_one_weak() {
    let mut heap = Heap::new();
    let a = ArcHandle::new(&mut heap, 42);
    let b = a.clone_in(&mut heap);
    let w = a.downgrade(&mut heap);

    let mut s = SharedSerializer::new();
    let pa = s.reserve();
    let pb = s.reserve();
    let pw = s.reserve();
    let _pay = s.reserve();
    let ra = a.serialize(&heap, &mut s);
    let rb = b.serialize(&heap, &mut s);
    let rw = w.serialize(&heap, &mut s);
    a.resolve(pa, &ra, &mut s);
    b.resolve(pb, &rb, &mut s);
    w.resolve(pw, &rw, &mut s);

    let buf = s.buf;
    let mut dheap = Heap::new();
    let mut d = SharedDeserializer::new();
    let a2 = ArchivedArc::read(&buf, pa).deserialize(&buf, &mut d, &mut dheap);
    let b2 = ArchivedArc::read(&buf, pb).deserialize(&buf, &mut d, &mut dheap);
    let aw = ArchivedArcWeak::read(&buf, pw);
    let w2 = aw.deserialize(&buf, &mut d, &mut dheap);

    assert!(a2.ptr_eq(&b2));
    assert_eq!(a2.value(&dheap), 42);
    let up = w2.upgrade(&mut dheap);
    assert!(up.is_some());
    let uh = up.unwrap();
    assert!(uh.ptr_eq(&a2));
    uh.release(&mut dheap);
    d.finish(&mut dheap);
    let id = a2.data_address();
    assert_eq!(dheap.strong_count(id), 2);
}

#[test]
fn arc_equality_follows_pointee_values() {
    let mut heap = Heap::new();
    let a = ArcHandle::new(&mut heap, 8);
    let mut s = SharedSerializer::new();
    let pa = s.reserve();
    let ra = a.serialize(&heap, &mut s);
    a.resolve(pa, &ra, &mut s);
    let buf = s.buf;
    let arc_a = ArchivedArc::read(&buf, pa);
    let mut other = Heap::new();
    let same = ArcHandle::new(&mut other, 8);
    let differs = ArcHandle::new(&mut other, 9);
    assert!(arc_a.value_eq(&buf, &other, &same));
    assert!(!arc_a.value_eq(&buf, &other, &differs));
}
