use arenavec::rc::{Arena, InnerRef};
use arenavec::{AllocHandle, ArenaBacking, ArenaError, SliceVec};

const BASE: usize = 0x3000_0000;
const CAPACITY: usize = 1 << 20;

fn arena() -> Arena {
    Arena::init_capacity(ArenaBacking::SystemAllocation, CAPACITY, BASE).unwrap()
}

#[test]
fn rc_null_base_is_an_allocation_failure() {
    let res = Arena::init_capacity(ArenaBacking::SystemAllocation, CAPACITY, 0);
    assert_eq!(res.err(), Some(ArenaError::AllocationFailed));
}

#[test]
fn rc_new_arena_holds_the_only_reference() {
    let arena = arena();
    assert_eq!(arena.head(), BASE);
    assert_eq!(arena.capacity(), CAPACITY);
    assert_eq!(arena.backing(), ArenaBacking::SystemAllocation);
    assert_eq!(arena.position(), 0);
    assert_eq!(arena.strong_count(), 1);
}

#[test]
fn handles_are_counted() {
    let mut arena = arena();
    let a = arena.inner();
    let b = arena.inner();
    assert_eq!(arena.strong_count(), 3);
    arena.release(a);
    assert_eq!(arena.strong_count(), 2);
    arena.release(b);
    assert_eq!(arena.strong_count(), 1);
}

#[test]
fn clear_waits_for_every_handle() {
    let mut arena = arena();
    let a = arena.inner();
    let b = arena.inner();
    assert!(a.has_room::<u64>(&arena, 8));
    a.allocate::<u64>(&mut arena, 8);
    let used = arena.position();
    assert_eq!(used, 128);

    assert_eq!(arena.clear(), Err(ArenaError::CannotClear));
    assert_eq!(arena.position(), used);
    arena.release(a);
    assert_eq!(arena.clear(), Err(ArenaError::CannotClear));
    assert_eq!(arena.position(), used);
    arena.release(b);
    assert_eq!(arena.clear(), Ok(()));
    assert_eq!(arena.position(), 0);
    assert_eq!(arena.strong_count(), 1);
}

#[test]
fn clear_of_an_unshared_arena_always_succeeds() {
    let mut arena = arena();
    assert_eq!(arena.clear(), Ok(()));
    assert_eq!(arena.clear(), Ok(()));
}

#[test]
fn sequence_holds_the_arena_until_it_returns_its_handle() {
    let mut arena = arena();
    let mut vec: SliceVec<u8, InnerRef> = SliceVec::new(arena.inner());
    assert!(vec.has_room(&arena, vec.push_room()));
    vec.push(&mut arena, 7);
    assert_eq!(arena.clear(), Err(ArenaError::CannotClear));
    let handle = vec.into_handle();
    arena.release(handle);
    assert_eq!(arena.clear(), Ok(()));
    assert_eq!(arena.position(), 0);
}

#[test]
fn rc_arena_gives_its_bytes_back_once() {
    let arena = arena();
    assert_eq!(arena.into_backing(), (ArenaBacking::SystemAllocation, BASE, CAPACITY));
}
