use arenavec::region::{Arena, ArenaHandle};
use arenavec::{AllocHandle, ArenaBacking, ArenaError, SliceVec};

const BASE: usize = 0x2000_0000;
const CAPACITY: usize = 1 << 20;

fn arena() -> Arena {
    Arena::init_capacity(ArenaBacking::MemoryMap, CAPACITY, BASE).unwrap()
}

#[test]
fn null_base_is_an_allocation_failure() {
    let res = Arena::init_capacity(ArenaBacking::MemoryMap, CAPACITY, 0);
    assert_eq!(res.err(), Some(ArenaError::AllocationFailed));
}

#[test]
fn new_arena_is_empty_and_unlocked() {
    let arena = arena();
    assert_eq!(arena.head(), BASE);
    assert_eq!(arena.capacity(), CAPACITY);
    assert_eq!(arena.backing(), ArenaBacking::MemoryMap);
    assert_eq!(arena.position(), 0);
    assert_eq!(arena.generation(), 0);
    assert!(!arena.is_locked());
}

#[test]
fn second_token_is_refused_every_time() {
    let mut arena = arena();
    let token = arena.generation_token().unwrap();
    assert!(arena.is_locked());
    assert_eq!(arena.generation_token().err(), Some(ArenaError::AlreadyLocked));
    assert_eq!(arena.generation_token().err(), Some(ArenaError::AlreadyLocked));
    assert!(arena.is_locked());
    arena.release(token);
    assert!(!arena.is_locked());
    assert!(arena.generation_token().is_ok());
}

#[test]
fn release_resets_the_cursor() {
    let mut arena = arena();
    let token = arena.generation_token().unwrap();
    assert!(token.has_room::<u64>(&arena, 10));
    let first = token.allocate::<u64>(&mut arena, 10);
    assert_eq!(first, BASE + 64);
    assert_eq!(arena.position(), 144);
    arena.release(token);
    assert_eq!(arena.position(), 0);
    assert_eq!(arena.generation(), 1);

    let token = arena.generation_token().unwrap();
    assert_eq!(arena.position(), 0);
    let again = token.allocate::<u64>(&mut arena, 10);
    assert_eq!(again, first);
    arena.release(token);
    assert_eq!(arena.generation(), 2);
}

#[test]
fn weak_handle_allocates_as_the_token_does() {
    let mut arena = arena();
    let token = arena.generation_token().unwrap();
    let handle = token.weak();
    let copy = handle;
    assert!(handle.has_room::<u32>(&arena, 3));
    let a = handle.allocate::<u32>(&mut arena, 3);
    let end = arena.position();
    assert!(copy.has_room_to_extend::<u32>(&arena, Some(a), 3, 6));
    let b = copy.allocate_or_extend::<u32>(&mut arena, Some(a), 3, 6);
    assert_eq!(a, b);
    assert_eq!(arena.position(), end + 12);
    assert!(token.has_room_to_extend::<u32>(&arena, None, 0, 1));
    let c = token.allocate_or_extend::<u32>(&mut arena, None, 0, 1);
    assert!(c > b);
    arena.release(token);
}

#[test]
fn sequences_of_one_generation_share_the_arena() {
    let mut arena = arena();
    let token = arena.generation_token().unwrap();
    let mut a: SliceVec<u32, ArenaHandle> = SliceVec::new(token.weak());
    let mut b: SliceVec<u32, ArenaHandle> = SliceVec::new(token.weak());
    for i in 0..10 {
        assert!(a.has_room(&arena, a.push_room()));
        a.push(&mut arena, i);
        assert!(b.has_room(&arena, b.push_room()));
        b.push(&mut arena, 100 + i);
    }
    assert_eq!(&*a, &[0, 1, 2, 3, 4, 5, 6, 7, 8, 9]);
    assert_eq!(&*b, &[100, 101, 102, 103, 104, 105, 106, 107, 108, 109]);
    assert_ne!(a.ptr(), b.ptr());
    assert!(arena.position() > 0);
    arena.release(token);
    assert_eq!(arena.position(), 0);
}

#[test]
fn arena_gives_its_bytes_back_once() {
    let arena = arena();
    assert_eq!(arena.into_backing(), (ArenaBacking::MemoryMap, BASE, CAPACITY));
}
