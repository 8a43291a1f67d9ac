use arenavec::rc::{Arena, InnerRef};
use arenavec::{ArenaBacking, SliceVec};

const DEFAULT_CAPACITY: usize = 4096 << 16;
const BASE: usize = 0x4000_0000;

fn arena() -> Arena {
    Arena::init_capacity(ArenaBacking::SystemAllocation, DEFAULT_CAPACITY, BASE).unwrap()
}

fn push_checked(vec: &mut SliceVec<usize, InnerRef>, arena: &mut Arena, elem: usize) {
    assert!(vec.has_room(arena, vec.push_room()));
    vec.push(arena, elem);
}

fn resize_checked(vec: &mut SliceVec<usize, InnerRef>, arena: &mut Arena, len: usize, elem: usize) {
    assert!(vec.has_room(arena, vec.resize_room(len)));
    vec.resize(arena, len, elem);
}

fn reserve_checked(vec: &mut SliceVec<usize, InnerRef>, arena: &mut Arena, additional: usize) {
    assert!(vec.has_room(arena, additional));
    vec.reserve(arena, additional);
}

#[test]
fn basic_slicevec_init_empty() {
    let mut arena = arena();

    let vec: SliceVec<usize, InnerRef> = SliceVec::with_capacity(arena.inner(), &mut arena, 0);

    assert_eq!(vec.len(), 0);
    assert_eq!(vec.capacity(), 0);
}

#[test]
fn basic_slicevec_init_capacity() {
    let mut arena = arena();

    let mut vec = SliceVec::with_capacity(arena.inner(), &mut arena, 10);

    assert_eq!(vec.len(), 0);
    assert_eq!(vec.capacity(), 10);

    for i in 0..10 {
        push_checked(&mut vec, &mut arena, i);
    }

    assert_eq!(vec.len(), 10);
    assert_eq!(vec.capacity(), 10);
}

#[test]
fn basic_slicevec_init_empty_push() {
    let mut arena = arena();

    let mut vec = SliceVec::with_capacity(arena.inner(), &mut arena, 0);

    assert_eq!(vec.len(), 0);
    assert_eq!(vec.capacity(), 0);

    push_checked(&mut vec, &mut arena, 1);

    assert_eq!(vec.len(), 1);
    assert_eq!(vec.capacity(), 4);

    push_checked(&mut vec, &mut arena, 2);
    push_checked(&mut vec, &mut arena, 3);
    push_checked(&mut vec, &mut arena, 4);

    assert_eq!(vec.len(), 4);
    assert_eq!(vec.capacity(), 4);

    push_checked(&mut vec, &mut arena, 5);

    assert_eq!(vec.len(), 5);
    assert_eq!(vec.capacity(), 8);
}

#[test]
fn basic_slicevec_reserve_and_resize() {
    let mut arena = arena();

    let mut vec = SliceVec::with_capacity(arena.inner(), &mut arena, 0);

    assert_eq!(vec.len(), 0);
    assert_eq!(vec.capacity(), 0);

    for i in 0..5 {
        push_checked(&mut vec, &mut arena, i);
    }

    assert_eq!(vec.len(), 5);
    assert_eq!(vec.capacity(), 8);

    // Six more than the five elements do not fit in eight slots.
    reserve_checked(&mut vec, &mut arena, 6);

    assert_eq!(vec.capacity(), 16);

    reserve_checked(&mut vec, &mut arena, 9);

    assert_eq!(vec.capacity(), 16);

    resize_checked(&mut vec, &mut arena, 12, 1);

    assert_eq!(vec.len(), 12);
    assert_eq!(vec.capacity(), 16);

    for i in 5..12 {
        assert_eq!(vec[i], 1);
    }
}

/// A small generator of numbers that repeats from run to run.
struct Lcg(u64);

impl Lcg {
    fn next(&mut self) -> u64 {
        self.0 = self.0.wrapping_mul(6364136223846793005).wrapping_add(1442695040888963407);
        self.0 >> 33
    }

    fn below(&mut self, bound: u64) -> usize {
        (self.next() % bound) as usize
    }
}

#[test]
fn rand_static_mirrors_vec() {
    const NUM_VECS: usize = 8;
    const NUM_OPS: usize = 400;

    let mut rng = Lcg(0x5eed);
    let mut arena = arena();
    let mut vecs: Vec<Vec<usize>> = Vec::new();
    let mut slice_vecs: Vec<SliceVec<usize, InnerRef>> = Vec::new();

    for _ in 0..NUM_VECS {
        vecs.push(Vec::new());
        slice_vecs.push(SliceVec::new(arena.inner()));
    }

    for _ in 0..NUM_OPS {
        let v = rng.below(NUM_VECS as u64);
        let size = rng.below(100);
        let val = rng.next() as usize;
        match rng.below(3) {
            0 => {
                vecs[v].push(val);
                push_checked(&mut slice_vecs[v], &mut arena, val);
            }
            1 => {
                vecs[v].resize(size, val);
                resize_checked(&mut slice_vecs[v], &mut arena, size, val);
            }
            _ => {
                vecs[v].reserve(size);
                reserve_checked(&mut slice_vecs[v], &mut arena, size);
            }
        }

        for i in 0..NUM_VECS {
            assert_eq!(&*vecs[i], &*slice_vecs[i]);
            assert!(slice_vecs[i].len() <= slice_vecs[i].capacity());
        }
    }
}

#[test]
fn rand_dynamic_mirrors_vec() {
    const NUM_VECS: usize = 16;
    const NUM_OPS: usize = 800;

    let mut rng = Lcg(0xa11ce);
    let mut arena = arena();
    let mut vecs: Vec<Option<Vec<usize>>> = vec![None; NUM_VECS];
    let mut slice_vecs: Vec<Option<SliceVec<usize, InnerRef>>> = Vec::new();
    for _ in 0..NUM_VECS {
        slice_vecs.push(None);
    }

    for _ in 0..NUM_OPS {
        let v = rng.below(NUM_VECS as u64);
        let size = rng.below(100);
        let val = rng.next() as usize;
        let index = rng.below(NUM_VECS as u64);
        match rng.below(5) {
            0 => {
                if vecs[v].is_none() {
                    vecs[v] = Some(Vec::new());
                    slice_vecs[v] = Some(SliceVec::new(arena.inner()));
                }
                vecs[v].as_mut().unwrap().push(val);
                push_checked(slice_vecs[v].as_mut().unwrap(), &mut arena, val);
            }
            1 => {
                if vecs[v].is_none() {
                    vecs[v] = Some(Vec::new());
                    slice_vecs[v] = Some(SliceVec::new(arena.inner()));
                }
                vecs[v].as_mut().unwrap().resize(size, val);
                resize_checked(slice_vecs[v].as_mut().unwrap(), &mut arena, size, val);
            }
            2 => {
                if vecs[v].is_none() {
                    vecs[v] = Some(Vec::new());
                    slice_vecs[v] = Some(SliceVec::new(arena.inner()));
                }
                vecs[v].as_mut().unwrap().reserve(size);
                reserve_checked(slice_vecs[v].as_mut().unwrap(), &mut arena, size);
            }
            3 => {
                vecs[v] = None;
                if let Some(gone) = slice_vecs[v].take() {
                    arena.release(gone.into_handle());
                }
            }
            _ => {
                let copy = match &slice_vecs[index] {
                    Some(from) => {
                        let handle = arena.inner();
                        Some(from.clone(&mut arena, handle))
                    }
                    None => None,
                };
                vecs[v] = vecs[index].clone();
                if let Some(gone) = std::mem::replace(&mut slice_vecs[v], copy) {
                    arena.release(gone.into_handle());
                }
            }
        }

        for i in 0..NUM_VECS {
            match (&vecs[i], &slice_vecs[i]) {
                (Some(r), Some(r2)) => assert_eq!(&**r, &**r2),
                (None, None) => {}
                _ => panic!("missing vec"),
            }
        }
    }
}
