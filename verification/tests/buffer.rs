use shared_archive::heap::Heap;
use shared_archive::slot::{RelPtr, Slot};
use shared_archive::ser::SharedSerializer;

#[test]
fn rel_ptr_forward_and_backward() {
    let fwd = RelPtr::new(2, 5);
    assert_eq!(fwd.target(2), 5);
    let back = RelPtr::new(5, 2);
    assert_eq!(back.target(5), 2);
    let here = RelPtr::new(3, 3);
    assert_eq!(here.target(3), 3);
}

#[test]
fn serializer_reserve_and_writes() {
    let mut heap = Heap::new();
    let id = heap.allocate(77);
    let mut s = SharedSerializer::new();
    let p0 = s.reserve();
    let p1 = s.reserve();
    assert_eq!(p0, 0);
    assert_eq!(p1, 1);
    assert_eq!(s.buf[p0], Slot::Reserved);
    assert_eq!(s.buf[p1], Slot::Reserved);
    let vpos = s.serialize_shared(&heap, id);
    assert_eq!(s.buf[vpos], Slot::Value(77));
    s.write_tag(p0, true);
    assert_eq!(s.buf[p0], Slot::TagPresent);
    s.write_ptr(p1, vpos);
    assert!(matches!(s.buf[p1], Slot::Ptr(_)));
    // the payload's relative pointer resolves to the pointee's position
    match s.buf[p1] {
        Slot::Ptr(p) => assert_eq!(p.target(p1), vpos),
        _ => panic!("payload slot must hold a pointer"),
    }
}

#[test]
fn heap_counts_move_as_stated() {
    let mut heap = Heap::new();
    let id = heap.allocate(5);
    assert_eq!(heap.strong_count(id), 1);
    assert_eq!(heap.weak_count(id), 0);
    heap.incr_strong(id);
    assert_eq!(heap.strong_count(id), 2);
    heap.incr_weak(id);
    assert_eq!(heap.weak_count(id), 1);
    heap.decr_strong(id);
    heap.decr_strong(id);
    assert_eq!(heap.strong_count(id), 0);
    heap.decr_weak(id);
    assert_eq!(heap.weak_count(id), 0);
}
