use arenavec::rc::{Arena, InnerRef};
use arenavec::{ArenaBacking, SliceVec};
use std::rc::Rc;

const DEFAULT_CAPACITY: usize = 4096 << 16;
const BASE: usize = 0x1000_0000;

fn push<T>(vec: &mut SliceVec<T, InnerRef>, arena: &mut Arena, elem: T) {
    assert!(vec.has_room(arena, vec.push_room()));
    vec.push(arena, elem);
}

#[test]
fn rc_init_empty() {
    {
        let mut arena =
            Arena::init_capacity(ArenaBacking::MemoryMap, DEFAULT_CAPACITY, BASE).unwrap();

        let vec: SliceVec<usize, InnerRef> = SliceVec::new(arena.inner());

        assert_eq!(vec.len(), 0);
        assert_eq!(vec.capacity(), 0);
    }

    {
        let mut arena =
            Arena::init_capacity(ArenaBacking::SystemAllocation, DEFAULT_CAPACITY, BASE).unwrap();

        let vec: SliceVec<usize, InnerRef> = SliceVec::new(arena.inner());

        assert_eq!(vec.len(), 0);
        assert_eq!(vec.capacity(), 0);
    }
}

#[test]
fn rc_init_capacity() {
    let mut arena =
        Arena::init_capacity(ArenaBacking::SystemAllocation, DEFAULT_CAPACITY, BASE).unwrap();

    let mut vec = SliceVec::with_capacity(arena.inner(), &mut arena, 10);

    assert_eq!(vec.len(), 0);
    assert_eq!(vec.capacity(), 10);

    for i in 0..10 {
        push(&mut vec, &mut arena, i);
    }

    assert_eq!(vec.len(), 10);
    assert_eq!(vec.capacity(), 10);
}

#[test]
fn rc_init_empty_push() {
    let mut arena =
        Arena::init_capacity(ArenaBacking::SystemAllocation, DEFAULT_CAPACITY, BASE).unwrap();

    let mut vec = SliceVec::new(arena.inner());

    assert_eq!(vec.len(), 0);
    assert_eq!(vec.capacity(), 0);

    push(&mut vec, &mut arena, 1);

    assert_eq!(vec.len(), 1);
    assert_eq!(vec.capacity(), 4);

    push(&mut vec, &mut arena, 2);
    push(&mut vec, &mut arena, 3);
    push(&mut vec, &mut arena, 4);

    assert_eq!(vec.len(), 4);
    assert_eq!(vec.capacity(), 4);

    push(&mut vec, &mut arena, 5);

    assert_eq!(vec.len(), 5);
    assert_eq!(vec.capacity(), 8);
}

#[test]
fn rc_reserve_and_resize() {
    let mut arena =
        Arena::init_capacity(ArenaBacking::SystemAllocation, DEFAULT_CAPACITY, BASE).unwrap();

    let mut vec = SliceVec::new(arena.inner());

    assert_eq!(vec.len(), 0);
    assert_eq!(vec.capacity(), 0);

    for i in 0..5 {
        push(&mut vec, &mut arena, i);
    }

    assert_eq!(vec.len(), 5);
    assert_eq!(vec.capacity(), 8);

    assert!(vec.has_room(&arena, 2));
    vec.reserve(&mut arena, 2);

    assert_eq!(vec.capacity(), 8);

    assert!(vec.has_room(&arena, 9));
    vec.reserve(&mut arena, 9);

    assert_eq!(vec.capacity(), 16);

    assert!(vec.has_room(&arena, vec.resize_room(12)));
    vec.resize(&mut arena, 12, 1);

    assert_eq!(vec.len(), 12);
    assert_eq!(vec.capacity(), 16);

    for i in 5..12 {
        assert_eq!(vec[i], 1);
    }
}

#[test]
fn drop() {
    let rc = Rc::new(());
    let mut arena =
        Arena::init_capacity(ArenaBacking::SystemAllocation, DEFAULT_CAPACITY, BASE).unwrap();

    {
        let mut vec = SliceVec::with_capacity(arena.inner(), &mut arena, 15);

        for _ in 0..20 {
            push(&mut vec, &mut arena, rc.clone());
        }

        assert!(vec.has_room(&arena, vec.resize_room(10)));
        vec.resize(&mut arena, 10, Rc::new(()));
    }

    assert_eq!(Rc::strong_count(&rc), 1);
}
