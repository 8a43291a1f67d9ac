//! What the arenas share: the error and backing kinds, the contract of an
//! allocation handle, and the sequences that live in an arena.
use crate::bump::{
    can_allocate, can_extend, extend_end, extend_ptr, law_cursor_never_moves_back,
    law_growth_composes, lemma_can_extend_to_less, run_end, run_start,
};
use crate::growth::{
    capacity_after_push, doubled_until, grown_capacity, law_reserve_one_more_is_push,
    lemma_doubled_until, lemma_grown_capacity_grows_with_need, shortfall,
};
use vstd::layout::{align_of, layout_for_type_is_valid, size_of};
use vstd::prelude::*;
use vstd::std_specs::cmp::{PartialEqSpec, PartialEqSpecImpl};

verus! {

/// What can go wrong when an arena is made or asked to change state.
#[derive(Debug, Clone, Copy, PartialEq, Eq, Structural)]
pub enum ArenaError {
    /// The backing storage for the arena could not be acquired.
    AllocationFailed,
    /// A generation token is outstanding: the arena gives out no second one.
    AlreadyLocked,
    /// Handles to the arena are still live: it cannot be cleared.
    CannotClear,
}

/// Where the bytes of an arena come from.
#[derive(Debug, Clone, Copy, PartialEq, Eq, Structural)]
pub enum ArenaBacking {
    /// A virtual memory mapping.
    MemoryMap,
    /// The system allocator.
    SystemAllocation,
}

/// The right to allocate from an arena.
///
/// The arena owns the cursor; a handle is the capability to move it. Each
/// allocating call presents the handle and borrows the arena mutably for the
/// call. Which handles an arena serves is the arena's liveness discipline.
pub trait AllocHandle: Sized {
    /// The arena that this kind of handle allocates from.
    type Arena;

    /// The address of the first byte of `arena`.
    spec fn head(arena: &Self::Arena) -> usize;

    /// The offset of the next free byte of `arena`.
    spec fn position(arena: &Self::Arena) -> usize;

    /// The number of bytes of `arena`.
    spec fn capacity(arena: &Self::Arena) -> usize;

    /// `after` is `before` in everything but the position of its cursor.
    spec fn same_but_position(before: &Self::Arena, after: &Self::Arena) -> bool;

    /// This handle is live in `arena`: it was given out by it and the arena
    /// has not been reset since.
    spec fn serves(&self, arena: &Self::Arena) -> bool;

    /// An arena that serves a handle is well formed: its cursor lies within
    /// its capacity, and its last byte has an address.
    proof fn lemma_served_arena_is_bounded(&self, arena: &Self::Arena)
        requires
            self.serves(arena),
        ensures
            Self::position(arena) <= Self::capacity(arena),
            Self::head(arena) + Self::capacity(arena) <= usize::MAX,
    ;

    /// Two moves of the cursor are one: what is the same but for the position
    /// twice over is the same but for the position.
    proof fn lemma_same_but_position_composes(
        first: &Self::Arena,
        second: &Self::Arena,
        third: &Self::Arena,
    )
        requires
            Self::same_but_position(first, second),
            Self::same_but_position(second, third),
        ensures
            Self::same_but_position(first, third),
    ;

    /// Whether `count` objects of type `T` can be allocated from `arena` as
    /// it stands.
    fn has_room<T>(&self, arena: &Self::Arena, count: usize) -> (ok: bool)
        requires
            self.serves(arena),
        ensures
            ok == can_allocate(
                Self::position(arena),
                Self::capacity(arena),
                size_of::<T>(),
                align_of::<T>() as usize,
                count,
            ),
    ;

    /// Whether the block of `old_count` objects of type `T` at `ptr` can grow
    /// to `count` objects in `arena` as it stands.
    fn has_room_to_extend<T>(
        &self,
        arena: &Self::Arena,
        ptr: Option<usize>,
        old_count: usize,
        count: usize,
    ) -> (ok: bool)
        requires
            self.serves(arena),
        ensures
            ok == can_extend(
                Self::head(arena),
                Self::position(arena),
                Self::capacity(arena),
                ptr,
                size_of::<T>(),
                align_of::<T>() as usize,
                old_count,
                count,
            ),
    ;

    /// Allocates `count` objects of type `T` from `arena` and returns their
    /// address. The cursor moves behind the run; nothing else changes.
    fn allocate<T>(&self, arena: &mut Self::Arena, count: usize) -> (ptr: usize)
        requires
            self.serves(old(arena)),
            can_allocate(
                Self::position(old(arena)),
                Self::capacity(old(arena)),
                size_of::<T>(),
                align_of::<T>() as usize,
                count,
            ),
        ensures
            ptr == Self::head(old(arena)) + run_start(
                Self::position(old(arena)),
                align_of::<T>() as usize,
            ),
            Self::position(final(arena)) == run_end(
                Self::position(old(arena)),
                size_of::<T>(),
                align_of::<T>() as usize,
                count,
            ),
            Self::same_but_position(old(arena), final(arena)),
            Self::head(final(arena)) == Self::head(old(arena)),
            Self::capacity(final(arena)) == Self::capacity(old(arena)),
            forall|h: Self| #[trigger] h.serves(old(arena)) ==> h.serves(final(arena)),
    ;

    /// Grows the block of `old_count` objects of type `T` at `ptr` to `count`
    /// objects and returns its address: the same one where the block ends at
    /// the cursor, that of a fresh run where it does not or where `ptr` is
    /// absent. The cursor moves accordingly; nothing else changes.
    fn allocate_or_extend<T>(
        &self,
        arena: &mut Self::Arena,
        ptr: Option<usize>,
        old_count: usize,
        count: usize,
    ) -> (new_ptr: usize)
        requires
            self.serves(old(arena)),
            can_extend(
                Self::head(old(arena)),
                Self::position(old(arena)),
                Self::capacity(old(arena)),
                ptr,
                size_of::<T>(),
                align_of::<T>() as usize,
                old_count,
                count,
            ),
        ensures
            new_ptr == extend_ptr(
                Self::head(old(arena)),
                Self::position(old(arena)),
                ptr,
                size_of::<T>(),
                align_of::<T>() as usize,
                old_count,
            ),
            Self::position(final(arena)) == extend_end(
                Self::head(old(arena)),
                Self::position(old(arena)),
                ptr,
                size_of::<T>(),
                align_of::<T>() as usize,
                old_count,
                count,
            ),
            Self::same_but_position(old(arena), final(arena)),
            Self::head(final(arena)) == Self::head(old(arena)),
            Self::capacity(final(arena)) == Self::capacity(old(arena)),
            forall|h: Self| #[trigger] h.serves(old(arena)) ==> h.serves(final(arena)),
    ;
}

/// `after` is `before` with its cursor moved forward to `position`: the new
/// position lies within the capacity, nothing but the position has changed,
/// and every handle that was served is served still.
pub open spec fn moved<H: AllocHandle>(before: &H::Arena, after: &H::Arena, position: int) -> bool {
    &&& H::position(before) <= position <= H::capacity(before)
    &&& H::position(after) == position
    &&& H::same_but_position(before, after)
    &&& H::head(after) == H::head(before)
    &&& H::capacity(after) == H::capacity(before)
    &&& forall|h: H| #[trigger] h.serves(before) ==> h.serves(after)
}

/// `count` objects of type `T` can be allocated from `arena`.
pub open spec fn allocatable<T, H: AllocHandle>(arena: &H::Arena, count: usize) -> bool {
    can_allocate(
        H::position(arena),
        H::capacity(arena),
        size_of::<T>(),
        align_of::<T>() as usize,
        count,
    )
}

/// The address of a run of objects of type `T` allocated from `arena`.
pub open spec fn allocated_ptr<T, H: AllocHandle>(arena: &H::Arena) -> int {
    H::head(arena) + run_start(H::position(arena), align_of::<T>() as usize)
}

/// The position of the cursor of `arena` after `count` objects of type `T`
/// were allocated from it.
pub open spec fn allocated_end<T, H: AllocHandle>(arena: &H::Arena, count: usize) -> int {
    run_end(H::position(arena), size_of::<T>(), align_of::<T>() as usize, count)
}

/// The block of `old_count` objects of type `T` at `ptr` can grow to `count`
/// objects in `arena`, where it stands or by a fresh allocation.
pub open spec fn extendable<T, H: AllocHandle>(
    arena: &H::Arena,
    ptr: Option<usize>,
    old_count: usize,
    count: usize,
) -> bool {
    can_extend(
        H::head(arena),
        H::position(arena),
        H::capacity(arena),
        ptr,
        size_of::<T>(),
        align_of::<T>() as usize,
        old_count,
        count,
    )
}

/// The address of the block of `old_count` objects of type `T` at `ptr` after
/// it has grown in `arena`.
pub open spec fn extended_ptr<T, H: AllocHandle>(
    arena: &H::Arena,
    ptr: Option<usize>,
    old_count: usize,
) -> int {
    extend_ptr(
        H::head(arena),
        H::position(arena),
        ptr,
        size_of::<T>(),
        align_of::<T>() as usize,
        old_count,
    )
}

/// The position of the cursor of `arena` after the block of `old_count`
/// objects of type `T` at `ptr` has grown to `count` objects.
pub open spec fn extended_end<T, H: AllocHandle>(
    arena: &H::Arena,
    ptr: Option<usize>,
    old_count: usize,
    count: usize,
) -> int {
    extend_end(
        H::head(arena),
        H::position(arena),
        ptr,
        size_of::<T>(),
        align_of::<T>() as usize,
        old_count,
        count,
    )
}

/// An arena-allocated sequence of fixed length.
///
/// It owns its elements, which go when it goes, and the address of the block
/// that holds them in the arena; the block itself stays with the arena until
/// the arena is reset. A sequence that never needed a block has none.
pub struct Slice<T, H> {
    /// Address of the block in the arena, if there is one.
    ptr: Option<usize>,
    /// The elements.
    items: Vec<T>,
    /// The handle that the block was allocated with.
    handle: H,
}

/// An arena-allocated sequence that grows.
///
/// The arena frees nothing, so a sequence that outgrows its block and cannot
/// extend it where it stands takes a new block and leaves the old one to the
/// arena, trading memory for speed.
pub struct SliceVec<T, H> {
    /// The elements and their block.
    slice: Slice<T, H>,
    /// The number of elements that the block has room for.
    capacity: usize,
}

impl<T, H> View for Slice<T, H> {
    type V = Seq<T>;

    closed spec fn view(&self) -> Seq<T> {
        self.items@
    }
}

impl<T, H> View for SliceVec<T, H> {
    type V = Seq<T>;

    closed spec fn view(&self) -> Seq<T> {
        self.slice@
    }
}

impl<T, H> Slice<T, H> {
    /// The address of the block in the arena, if there is one.
    pub closed spec fn spec_ptr(&self) -> Option<usize> {
        self.ptr
    }

    /// The handle that the block was allocated with.
    pub closed spec fn spec_handle(&self) -> H {
        self.handle
    }

    /// The number of elements.
    pub open spec fn spec_len(&self) -> usize {
        self@.len() as usize
    }

    /// The number of elements.
    #[verifier::when_used_as_spec(spec_len)]
    pub fn len(&self) -> (len: usize)
        ensures
            len == self@.len(),
    {
        self.items.len()
    }

    /// The address of the block in the arena, if there is one.
    #[verifier::when_used_as_spec(spec_ptr)]
    pub fn ptr(&self) -> (ptr: Option<usize>)
        ensures
            ptr == self.spec_ptr(),
    {
        self.ptr
    }

    /// The elements as a slice.
    pub fn as_slice(&self) -> (elems: &[T])
        ensures
            elems@ == self@,
    {
        self.items.as_slice()
    }

    /// The element at `index`, to be changed in its place. Nothing else
    /// changes.
    pub fn index_mut(&mut self, index: usize) -> (elem: &mut T)
        requires
            index < old(self)@.len(),
        ensures
            *elem == old(self)@[index as int],
            final(self)@ == old(self)@.update(index as int, *final(elem)),
            final(self).spec_ptr() == old(self).spec_ptr(),
            final(self).spec_handle() == old(self).spec_handle(),
    {
        &mut self.items[index]
    }

    /// The elements as a mutable slice: each can be changed in its place,
    /// and their number cannot.
    pub fn as_mut_slice(&mut self) -> (elems: &mut [T])
        ensures
            elems@ == old(self)@,
            final(self)@ == final(elems)@,
            final(self).spec_ptr() == old(self).spec_ptr(),
            final(self).spec_handle() == old(self).spec_handle(),
    {
        self.items.as_mut_slice()
    }

    /// Ends the sequence, dropping its elements, and hands back its handle.
    /// The block stays with the arena.
    pub fn into_handle(self) -> (handle: H)
        ensures
            handle == self.spec_handle(),
    {
        self.handle
    }
}

impl<T, H> core::ops::Deref for Slice<T, H> {
    type Target = [T];

    fn deref(&self) -> (elems: &[T])
        ensures
            elems@ == self@,
    {
        self.items.as_slice()
    }
}

impl<T, H: AllocHandle> Slice<T, H> {
    /// Makes a sequence of `len` default values over a fresh block, or an
    /// empty one over no block where `len` is zero.
    pub fn new(handle: H, arena: &mut H::Arena, len: usize) -> (res: Self) where T: Default
        requires
            handle.serves(old(arena)),
            len > 0 ==> allocatable::<T, H>(old(arena), len),
        ensures
            res@.len() == len,
            forall|i: int| 0 <= i < len ==> call_ensures(T::default, (), #[trigger] res@[i]),
            res.spec_handle() == handle,
            len == 0 ==> res.spec_ptr() is None && *final(arena) == *old(arena),
            len > 0 ==> res.spec_ptr() == Some(allocated_ptr::<T, H>(old(arena)) as usize)
                && moved::<H>(old(arena), final(arena), allocated_end::<T, H>(old(arena), len)),
            handle.serves(final(arena)),
    {
        let mut res: Self = Self::new_empty(handle, arena, len);
        let ghost block: Self = res;
        let mut i: usize = 0;
        while i < len
            invariant
                i <= len,
                res.ptr == block.ptr,
                res.handle == block.handle,
                res.items@.len() == i,
                forall|j: int| 0 <= j < i ==> call_ensures(T::default, (), #[trigger] res.items@[j]),
            decreases len - i,
        {
            res.items.push(T::default());
            i = i + 1;
        }
        res
    }

    /// Makes a sequence with `handle` over a fresh block and fills it with a
    /// clone of each element, in their order.
    pub fn clone(&self, arena: &mut H::Arena, handle: H) -> (res: Self) where T: Clone
        requires
            handle.serves(old(arena)),
            allocatable::<T, H>(old(arena), self.spec_len()),
        ensures
            res@.len() == self@.len(),
            forall|i: int| 0 <= i < self@.len() ==> cloned::<T>(self@[i], #[trigger] res@[i]),
            res.spec_handle() == handle,
            res.spec_ptr() == Some(allocated_ptr::<T, H>(old(arena)) as usize),
            moved::<H>(old(arena), final(arena), allocated_end::<T, H>(old(arena), self.spec_len())),
            handle.serves(final(arena)),
    {
        proof {
            handle.lemma_served_arena_is_bounded(arena);
            lemma_allocation_in_bounds::<T, H>(arena, self.spec_len());
        }
        let ptr: usize = handle.allocate::<T>(arena, self.items.len());
        let mut items: Vec<T> = Vec::new();
        let mut i: usize = 0;
        while i < self.items.len()
            invariant
                i <= self.items@.len(),
                items@.len() == i,
                forall|j: int| 0 <= j < i ==> cloned::<T>(self.items@[j], #[trigger] items@[j]),
            decreases self.items@.len() - i,
        {
            let elem: T = self.items[i].clone();
            items.push(elem);
            i = i + 1;
        }
        Slice { ptr: Some(ptr), items, handle }
    }

    /// Makes a sequence without elements over a fresh block with room for
    /// `real_len` of them, or over no block where `real_len` is zero.
    pub(crate) fn new_empty(handle: H, arena: &mut H::Arena, real_len: usize) -> (res: Self)
        requires
            handle.serves(old(arena)),
            real_len > 0 ==> allocatable::<T, H>(old(arena), real_len),
        ensures
            res@ == Seq::<T>::empty(),
            res.spec_handle() == handle,
            real_len == 0 ==> res.spec_ptr() is None && *final(arena) == *old(arena),
            real_len > 0 ==> res.spec_ptr() == Some(allocated_ptr::<T, H>(old(arena)) as usize)
                && moved::<H>(old(arena), final(arena), allocated_end::<T, H>(old(arena), real_len)),
            handle.serves(final(arena)),
    {
        let ptr: Option<usize> = if real_len == 0 {
            None
        } else {
            proof {
                handle.lemma_served_arena_is_bounded(arena);
                lemma_allocation_in_bounds::<T, H>(arena, real_len);
            }
            Some(handle.allocate::<T>(arena, real_len))
        };
        Slice { ptr, items: Vec::new(), handle }
    }
}

/// An allocation that fits ends within the capacity and starts at an address.
pub proof fn lemma_allocation_in_bounds<T, H: AllocHandle>(arena: &H::Arena, count: usize)
    requires
        allocatable::<T, H>(arena, count),
        H::position(arena) <= H::capacity(arena),
        H::head(arena) + H::capacity(arena) <= usize::MAX,
    ensures
        H::position(arena) <= allocated_end::<T, H>(arena, count) <= H::capacity(arena),
        H::head(arena) <= allocated_ptr::<T, H>(arena) <= usize::MAX,
{
    law_cursor_never_moves_back(
        H::head(arena),
        H::position(arena),
        H::capacity(arena),
        None,
        size_of::<T>(),
        align_of::<T>() as usize,
        0,
        count,
    );
    assert(size_of::<T>() * count >= 0) by (nonlinear_arith);
}

impl<T, H> SliceVec<T, H> {
    /// The number of elements that the block has room for.
    pub closed spec fn spec_capacity(&self) -> usize {
        self.capacity
    }

    /// The address of the block in the arena, if there is one.
    pub closed spec fn spec_ptr(&self) -> Option<usize> {
        self.slice.spec_ptr()
    }

    /// The handle that the block was allocated with.
    pub closed spec fn spec_handle(&self) -> H {
        self.slice.spec_handle()
    }

    /// The number of elements.
    pub open spec fn spec_len(&self) -> usize {
        self@.len() as usize
    }

    /// Whether the sequence holds no element.
    pub open spec fn spec_is_empty(&self) -> bool {
        self@.len() == 0
    }

    /// The invariant of a growable sequence: its elements fit in its block,
    /// and it has a block exactly when it has capacity.
    pub open spec fn wf(&self) -> bool {
        &&& self@.len() <= self.spec_capacity()
        &&& self.spec_ptr() is None <==> self.spec_capacity() == 0
    }

    /// Whether room for `additional` more elements takes a larger block.
    pub open spec fn grows_for(&self, additional: usize) -> bool {
        self.spec_capacity() < self@.len() + additional
    }

    /// The capacity once there is room for `additional` more elements.
    pub open spec fn capacity_for(&self, additional: usize) -> nat {
        grown_capacity(self.spec_capacity() as nat, (self@.len() + additional) as nat)
    }

    /// The room that a push asks for: none while the block has a free slot,
    /// else as much again as the block holds, or 4 where it holds nothing.
    pub open spec fn spec_push_room(&self) -> usize {
        if self@.len() != self.spec_capacity() {
            0
        } else if self.spec_capacity() == 0 {
            4
        } else {
            self.spec_capacity()
        }
    }

    /// The room that a push asks for.
    #[verifier::when_used_as_spec(spec_push_room)]
    pub fn push_room(&self) -> (room: usize)
        ensures
            room == self.spec_push_room(),
    {
        if self.slice.items.len() != self.capacity {
            0
        } else if self.capacity == 0 {
            4
        } else {
            self.capacity
        }
    }

    /// The room that a resize to `len` elements asks for: the elements that
    /// are missing where the block is too small for `len`, none otherwise.
    pub open spec fn spec_resize_room(&self, len: usize) -> usize {
        if self.spec_capacity() < len {
            (len - self@.len()) as usize
        } else {
            0
        }
    }

    /// The room that a resize to `len` elements asks for.
    #[verifier::when_used_as_spec(spec_resize_room)]
    pub fn resize_room(&self, len: usize) -> (room: usize)
        requires
            self.wf(),
        ensures
            room == self.spec_resize_room(len),
    {
        if self.capacity < len {
            len - self.slice.items.len()
        } else {
            0
        }
    }

    /// `self` has the block, the capacity and the handle of `before`.
    pub open spec fn same_block(&self, before: &Self) -> bool {
        &&& self.spec_handle() == before.spec_handle()
        &&& self.spec_capacity() == before.spec_capacity()
        &&& self.spec_ptr() == before.spec_ptr()
    }

    /// The address of the block in the arena, if there is one.
    #[verifier::when_used_as_spec(spec_ptr)]
    pub fn ptr(&self) -> (ptr: Option<usize>)
        ensures
            ptr == self.spec_ptr(),
    {
        self.slice.ptr
    }

    /// The number of elements that the block has room for.
    #[verifier::when_used_as_spec(spec_capacity)]
    pub fn capacity(&self) -> (capacity: usize)
        ensures
            capacity == self.spec_capacity(),
    {
        self.capacity
    }

    /// The number of elements.
    #[verifier::when_used_as_spec(spec_len)]
    pub fn len(&self) -> (len: usize)
        ensures
            len == self@.len(),
    {
        self.slice.items.len()
    }

    /// Whether the sequence holds no element.
    #[verifier::when_used_as_spec(spec_is_empty)]
    pub fn is_empty(&self) -> (empty: bool)
        ensures
            empty == (self@.len() == 0),
    {
        self.slice.items.len() == 0
    }
}

impl<T, H: AllocHandle> SliceVec<T, H> {
    /// Room for `additional` more elements can be made in `arena`: the
    /// numbers fit the machine, and where the block has to grow, the arena
    /// has the bytes.
    pub open spec fn can_reserve(&self, arena: &H::Arena, additional: usize) -> bool {
        &&& self@.len() + additional <= usize::MAX
        &&& self.grows_for(additional) ==> {
            &&& self.capacity_for(additional) <= usize::MAX
            &&& extendable::<T, H>(
                arena,
                self.spec_ptr(),
                self.spec_capacity(),
                self.capacity_for(additional) as usize,
            )
        }
    }

    /// `self` is `before` after room for `additional` more elements was made.
    /// Where `before` had the room, block and arena are as they were. Where
    /// it had not, the capacity has doubled until it has, the block has grown
    /// to it, where it stood or as a fresh run, and the cursor of the arena
    /// has moved accordingly. The elements are not spoken of.
    pub open spec fn reserved(
        &self,
        before: &Self,
        arena_before: &H::Arena,
        arena_after: &H::Arena,
        additional: usize,
    ) -> bool {
        &&& self.spec_handle() == before.spec_handle()
        &&& self.spec_capacity() == before.capacity_for(additional)
        &&& if before.grows_for(additional) {
            &&& self.spec_ptr() == Some(
                extended_ptr::<T, H>(arena_before, before.spec_ptr(), before.spec_capacity())
                    as usize,
            )
            &&& moved::<H>(
                arena_before,
                arena_after,
                extended_end::<T, H>(
                    arena_before,
                    before.spec_ptr(),
                    before.spec_capacity(),
                    before.capacity_for(additional) as usize,
                ),
            )
        } else {
            &&& self.spec_ptr() == before.spec_ptr()
            &&& *arena_after == *arena_before
        }
    }

    /// Whether room for `additional` more elements can be made in `arena`
    /// as it stands.
    pub fn has_room(&self, arena: &H::Arena, additional: usize) -> (ok: bool)
        requires
            self.wf(),
            self.spec_handle().serves(arena),
        ensures
            ok == self.can_reserve(arena, additional),
    {
        let size: usize = match self.slice.items.len().checked_add(additional) {
            None => {
                return false;
            },
            Some(size) => size,
        };
        if self.capacity >= size {
            return true;
        }
        let mut new_capacity: usize = if self.capacity > 0 {
            self.capacity
        } else {
            4
        };
        while new_capacity < size
            invariant
                new_capacity > 0,
                doubled_until(new_capacity as nat, size as nat) == self.capacity_for(additional),
            decreases shortfall(new_capacity as nat, size as nat),
        {
            proof {
                lemma_doubled_until(new_capacity as nat, size as nat);
            }
            new_capacity = match new_capacity.checked_mul(2) {
                None => {
                    return false;
                },
                Some(doubled) => doubled,
            };
        }
        proof {
            lemma_doubled_until(new_capacity as nat, size as nat);
        }
        self.slice.handle.has_room_to_extend::<T>(
            arena,
            self.slice.ptr,
            self.capacity,
            new_capacity,
        )
    }

    /// Makes an empty sequence without a block.
    pub fn new(handle: H) -> (res: Self)
        ensures
            res.wf(),
            res@ == Seq::<T>::empty(),
            res.spec_capacity() == 0,
            res.spec_ptr() is None,
            res.spec_handle() == handle,
    {
        SliceVec { slice: Slice { ptr: None, items: Vec::new(), handle }, capacity: 0 }
    }

    /// Makes an empty sequence over a fresh block with room for `capacity`
    /// elements, or without a block where `capacity` is zero.
    pub fn with_capacity(handle: H, arena: &mut H::Arena, capacity: usize) -> (res: Self)
        requires
            handle.serves(old(arena)),
            capacity > 0 ==> allocatable::<T, H>(old(arena), capacity),
        ensures
            res.wf(),
            res@ == Seq::<T>::empty(),
            res.spec_capacity() == capacity,
            res.spec_handle() == handle,
            capacity == 0 ==> res.spec_ptr() is None && *final(arena) == *old(arena),
            capacity > 0 ==> res.spec_ptr() == Some(allocated_ptr::<T, H>(old(arena)) as usize)
                && moved::<H>(old(arena), final(arena), allocated_end::<T, H>(old(arena), capacity)),
            handle.serves(final(arena)),
    {
        SliceVec { slice: Slice::new_empty(handle, arena, capacity), capacity }
    }

    /// Makes room for at least `additional` more elements. A block that is
    /// too small grows to the capacity doubled, from 4 on, until it is
    /// enough: where it stands if it is the last block of the arena, else as
    /// a fresh block to which the elements move.
    pub fn reserve(&mut self, arena: &mut H::Arena, additional: usize)
        requires
            old(self).wf(),
            old(self).spec_handle().serves(old(arena)),
            old(self).can_reserve(old(arena), additional),
        ensures
            final(self).wf(),
            final(self)@ == old(self)@,
            final(self).reserved(old(self), old(arena), final(arena), additional),
            final(self).spec_handle().serves(final(arena)),
            final(self).spec_capacity() >= old(self)@.len() + additional,
    {
        let ptr: Option<usize> = self.slice.ptr;
        let size: usize = self.slice.items.len() + additional;

        if self.capacity >= size {
            return ;
        }
        let ghost target: nat = self.capacity_for(additional);
        let mut new_capacity: usize = if self.capacity > 0 {
            self.capacity
        } else {
            4
        };

        while new_capacity < size
            invariant
                new_capacity > 0,
                target <= usize::MAX,
                doubled_until(new_capacity as nat, size as nat) == target,
            decreases shortfall(new_capacity as nat, size as nat),
        {
            proof {
                lemma_doubled_until(new_capacity as nat, size as nat);
            }
            new_capacity = new_capacity * 2;
        }
        proof {
            lemma_doubled_until(new_capacity as nat, size as nat);
        }

        let new_ptr: usize = self.slice.handle.allocate_or_extend::<T>(
            arena,
            ptr,
            self.capacity,
            new_capacity,
        );
        // A block that moved takes its elements along; one that grew where it
        // stood has them already.
        self.slice.ptr = Some(new_ptr);
        self.capacity = new_capacity;
    }

    /// Shortens the sequence to its first `len` elements and drops the rest.
    /// A `len` that is not less than the length changes nothing. The block
    /// stays as it is.
    pub fn truncate(&mut self, len: usize)
        requires
            old(self).wf(),
        ensures
            final(self).wf(),
            final(self).same_block(old(self)),
            len < old(self)@.len() ==> final(self)@ == old(self)@.subrange(0, len as int),
            len >= old(self)@.len() ==> final(self)@ == old(self)@,
    {
        let old_len: usize = self.slice.items.len();
        if len < old_len {
            self.slice.items.truncate(len);
        }
    }

    /// Removes the element at `index` and returns it. The last element takes
    /// its place: the order is not kept, and nothing else moves.
    pub fn swap_remove(&mut self, index: usize) -> (elem: T)
        requires
            old(self).wf(),
            index < old(self)@.len(),
        ensures
            final(self).wf(),
            final(self).same_block(old(self)),
            elem == old(self)@[index as int],
            final(self)@ == old(self)@.update(index as int, old(self)@.last()).drop_last(),
    {
        self.slice.items.swap_remove(index)
    }

    /// Appends `elem`. A full block grows first: to 4 slots from none, else
    /// to twice as many.
    pub fn push(&mut self, arena: &mut H::Arena, elem: T)
        requires
            old(self).wf(),
            old(self).spec_handle().serves(old(arena)),
            old(self).can_reserve(old(arena), old(self).push_room()),
        ensures
            final(self).wf(),
            final(self)@ == old(self)@.push(elem),
            final(self).reserved(old(self), old(arena), final(arena), old(self).push_room()),
            final(self).spec_handle().serves(final(arena)),
            final(self).spec_capacity() == capacity_after_push(
                old(self).spec_capacity() as nat,
                old(self)@.len(),
            ),
    {
        if self.slice.items.len() == self.capacity {
            let new_capacity: usize = if self.capacity == 0 {
                4
            } else {
                self.capacity * 2
            };
            proof {
                lemma_doubled_until(4, 4);
                if self.capacity > 0 {
                    lemma_doubled_until(self.capacity as nat, (2 * self.capacity) as nat);
                    lemma_doubled_until((2 * self.capacity) as nat, (2 * self.capacity) as nat);
                }
            }
            self.reserve(arena, new_capacity - self.capacity);
        }
        self.slice.items.push(elem);
    }

    /// Removes the last element and returns it, or returns `None` where there
    /// is none. The block stays as it is.
    pub fn pop(&mut self) -> (elem: Option<T>)
        requires
            old(self).wf(),
        ensures
            final(self).wf(),
            final(self).same_block(old(self)),
            old(self)@.len() == 0 ==> elem == None::<T> && final(self)@ == old(self)@,
            old(self)@.len() > 0 ==> elem == Some(old(self)@.last()) && final(self)@ == old(
                self,
            )@.drop_last(),
    {
        if self.is_empty() {
            return None;
        }
        self.slice.items.pop()
    }

    /// Moves all elements of `other` behind those of `self`, in their order,
    /// and leaves `other` empty, with its block.
    pub fn append(&mut self, arena: &mut H::Arena, other: &mut Self)
        requires
            old(self).wf(),
            old(other).wf(),
            old(self).spec_handle().serves(old(arena)),
            old(self).can_reserve(old(arena), old(other).spec_len()),
        ensures
            final(self).wf(),
            final(other).wf(),
            final(self)@ == old(self)@ + old(other)@,
            final(other)@ == Seq::<T>::empty(),
            final(other).same_block(old(other)),
            final(self).reserved(old(self), old(arena), final(arena), old(other).spec_len()),
            final(self).spec_handle().serves(final(arena)),
    {
        let count: usize = other.len();
        self.reserve(arena, count);
        self.slice.items.append(&mut other.slice.items);
    }

    /// Drops all elements. Capacity and block stay.
    pub fn clear(&mut self)
        requires
            old(self).wf(),
        ensures
            final(self).wf(),
            final(self).same_block(old(self)),
            final(self)@ == Seq::<T>::empty(),
    {
        self.slice.items.clear();
    }

    /// Splits the sequence at `at`: `self` keeps the elements before `at`,
    /// and those from `at` on move, in their order, to a new sequence with
    /// `handle` and exactly the room for them, which is returned. The
    /// capacity of `self` stays.
    pub fn split_off(&mut self, arena: &mut H::Arena, at: usize, handle: H) -> (tail: Self)
        requires
            old(self).wf(),
            at <= old(self)@.len(),
            handle.serves(old(arena)),
            at < old(self)@.len() ==> allocatable::<T, H>(
                old(arena),
                (old(self)@.len() - at) as usize,
            ),
        ensures
            final(self).wf(),
            tail.wf(),
            final(self).same_block(old(self)),
            final(self)@ == old(self)@.subrange(0, at as int),
            tail@ == old(self)@.subrange(at as int, old(self)@.len() as int),
            tail.spec_capacity() == old(self)@.len() - at,
            tail.spec_handle() == handle,
            at == old(self)@.len() ==> tail.spec_ptr() is None && *final(arena) == *old(arena),
            at < old(self)@.len() ==> tail.spec_ptr() == Some(
                allocated_ptr::<T, H>(old(arena)) as usize,
            ) && moved::<H>(
                old(arena),
                final(arena),
                allocated_end::<T, H>(old(arena), (old(self)@.len() - at) as usize),
            ),
            handle.serves(final(arena)),
    {
        let mut ret: Self = Self::with_capacity(handle, arena, self.slice.items.len() - at);
        ret.slice.items = self.slice.items.split_off(at);
        ret
    }

    /// Resizes the sequence to `len` elements. A longer sequence keeps its
    /// elements and gets one result of `f` in each new slot, in the order of
    /// the calls; a shorter one drops its tail. The block grows only where it
    /// is too small for `len`.
    pub fn resize_with<F>(&mut self, arena: &mut H::Arena, len: usize, mut f: F) where
        F: FnMut() -> T,

        requires
            old(self).wf(),
            old(self).spec_handle().serves(old(arena)),
            old(self).can_reserve(old(arena), old(self).resize_room(len)),
            call_requires(f, ()),
        ensures
            final(self).wf(),
            final(self).reserved(old(self), old(arena), final(arena), old(self).resize_room(len)),
            final(self).spec_handle().serves(final(arena)),
            final(self)@.len() == len,
            len <= old(self)@.len() ==> final(self)@ == old(self)@.subrange(0, len as int),
            len > old(self)@.len() ==> final(self)@.subrange(0, old(self)@.len() as int) == old(
                self,
            )@,
            forall|i: int|
                old(self)@.len() <= i < len ==> call_ensures(f, (), #[trigger] final(self)@[i]),
    {
        let old_len: usize = self.slice.items.len();
        if self.capacity < len {
            self.reserve(arena, len - old_len);
        }
        if len < old_len {
            self.slice.items.truncate(len);
        }
        let ghost kept: Seq<T> = self@;
        let ghost block: Self = *self;
        let ghost make: F = f;
        if len > old_len {
            let mut i: usize = old_len;
            while i < len
                invariant
                    old_len <= i <= len,
                    f == make,
                    call_requires(f, ()),
                    self.same_block(&block),
                    self.slice.items@.len() == i,
                    self.slice.items@.subrange(0, old_len as int) =~= kept,
                    forall|j: int|
                        old_len <= j < i ==> call_ensures(f, (), #[trigger] self.slice.items@[j]),
                decreases len - i,
            {
                let elem: T = f();
                self.slice.items.push(elem);
                i = i + 1;
            }
        }
    }

    /// Resizes the sequence to `len` elements. A longer sequence keeps its
    /// elements and gets `value` in its last slot and a clone of it in every
    /// other new one; a shorter one drops its tail. The block grows only
    /// where it is too small for `len`.
    pub fn resize(&mut self, arena: &mut H::Arena, len: usize, value: T) where T: Clone
        requires
            old(self).wf(),
            old(self).spec_handle().serves(old(arena)),
            old(self).can_reserve(old(arena), old(self).resize_room(len)),
        ensures
            final(self).wf(),
            final(self).reserved(old(self), old(arena), final(arena), old(self).resize_room(len)),
            final(self).spec_handle().serves(final(arena)),
            final(self)@.len() == len,
            len <= old(self)@.len() ==> final(self)@ == old(self)@.subrange(0, len as int),
            len > old(self)@.len() ==> final(self)@.subrange(0, old(self)@.len() as int) == old(
                self,
            )@ && final(self)@.last() == value,
            forall|i: int|
                old(self)@.len() <= i < len - 1 ==> cloned::<T>(value, #[trigger] final(self)@[i]),
    {
        let old_len: usize = self.slice.items.len();
        if self.capacity < len {
            self.reserve(arena, len - old_len);
        }
        if len < old_len {
            self.slice.items.truncate(len);
        }
        let ghost kept: Seq<T> = self@;
        let ghost block: Self = *self;
        if len > old_len {
            let mut i: usize = old_len;
            while i < len - 1
                invariant
                    old_len < len,
                    old_len <= i <= len - 1,
                    self.same_block(&block),
                    self.slice.items@.len() == i,
                    self.slice.items@.subrange(0, old_len as int) =~= kept,
                    forall|j: int|
                        old_len <= j < i ==> cloned::<T>(value, #[trigger] self.slice.items@[j]),
                decreases len - i,
            {
                let elem: T = value.clone();
                self.slice.items.push(elem);
                i = i + 1;
            }
            self.slice.items.push(value);
            assert(self.slice.items@.subrange(0, old_len as int) =~= kept);
        }
    }

    /// Room that can be made for some elements can be made for fewer.
    pub proof fn lemma_can_reserve_less(&self, arena: &H::Arena, less: usize, additional: usize)
        requires
            self.wf(),
            less <= additional,
            self.can_reserve(arena, additional),
        ensures
            self.can_reserve(arena, less),
    {
        let len = self@.len();
        lemma_grown_capacity_grows_with_need(
            self.spec_capacity() as nat,
            (len + less) as nat,
            (len + additional) as nat,
        );
        if self.grows_for(less) {
            lemma_can_extend_to_less(
                H::head(arena),
                H::position(arena),
                H::capacity(arena),
                self.spec_ptr(),
                size_of::<T>(),
                align_of::<T>() as usize,
                self.spec_capacity(),
                self.capacity_for(less) as usize,
                self.capacity_for(additional) as usize,
            );
        }
    }

    /// A push continues a reserve. Of a sequence `mid` that is `start` after
    /// room for `count` more elements was made and filled: a push onto it
    /// finds the room it asks for wherever `start` could have made room for
    /// `count + 1` elements; and after the push, block, capacity and arena
    /// are what they would be had `start` made room for `count + 1` elements
    /// at once.
    pub proof fn law_push_continues_reserve(
        start: &Self,
        mid: &Self,
        after: &Self,
        arena_start: &H::Arena,
        arena_mid: &H::Arena,
        arena_after: &H::Arena,
        count: usize,
    )
        requires
            count < usize::MAX,
            start.wf(),
            start.spec_handle().serves(arena_start),
            start.can_reserve(arena_start, (count + 1) as usize),
            mid.wf(),
            mid@.len() == start@.len() + count,
            mid.reserved(start, arena_start, arena_mid, count),
        ensures
            mid.can_reserve(arena_mid, mid.push_room()),
            after.reserved(mid, arena_mid, arena_after, mid.push_room()) ==> after.reserved(
                start,
                arena_start,
                arena_after,
                (count + 1) as usize,
            ),
    {
        let len = start@.len();
        let cap = start.spec_capacity() as nat;
        let need = (len + count) as nat;
        let more = (count + 1) as usize;
        let room = mid.push_room();
        let size = size_of::<T>();
        let align = align_of::<T>() as usize;
        start.spec_handle().lemma_served_arena_is_bounded(arena_start);
        start.lemma_can_reserve_less(arena_start, count, more);
        law_reserve_one_more_is_push(cap, need);
        lemma_grown_capacity_grows_with_need(cap, need, need + 1);
        lemma_doubled_until(4, 4);
        if mid.spec_capacity() > 0 {
            lemma_doubled_until(mid.spec_capacity() as nat, (2 * mid.spec_capacity()) as nat);
            lemma_doubled_until((2 * mid.spec_capacity()) as nat, (2 * mid.spec_capacity()) as nat);
        }
        assert(mid.capacity_for(room) == start.capacity_for(more));
        if start.grows_for(count) && mid.grows_for(room) {
            law_growth_composes(
                H::head(arena_start),
                H::position(arena_start),
                H::capacity(arena_start),
                start.spec_ptr(),
                size,
                align,
                start.spec_capacity(),
                mid.spec_capacity(),
                start.capacity_for(more) as usize,
            );
            if after.reserved(mid, arena_mid, arena_after, room) {
                H::lemma_same_but_position_composes(arena_start, arena_mid, arena_after);
            }
        }
    }

    /// Appends a clone of each element of `other`, in their order. The block
    /// grows as for a reserve of as many elements.
    pub fn extend_from_slice(&mut self, arena: &mut H::Arena, other: &[T]) where T: Clone
        requires
            old(self).wf(),
            old(self).spec_handle().serves(old(arena)),
            old(self).can_reserve(old(arena), other@.len() as usize),
        ensures
            final(self).wf(),
            final(self).reserved(old(self), old(arena), final(arena), other@.len() as usize),
            final(self).spec_handle().serves(final(arena)),
            final(self)@.len() == old(self)@.len() + other@.len(),
            final(self)@.subrange(0, old(self)@.len() as int) == old(self)@,
            forall|i: int|
                0 <= i < other@.len() ==> cloned::<T>(
                    other@[i],
                    #[trigger] final(self)@[old(self)@.len() + i],
                ),
    {
        let ghost start: Self = *self;
        let ghost arena_start: H::Arena = *arena;
        let ghost old_len: nat = self@.len();
        proof {
            lemma_grown_capacity_grows_with_need(
                self.spec_capacity() as nat,
                old_len,
                old_len,
            );
        }
        let mut i: usize = 0;
        while i < other.len()
            invariant
                i <= other@.len(),
                start.wf(),
                start@.len() == old_len,
                start.spec_handle().serves(&arena_start),
                start.can_reserve(&arena_start, other@.len() as usize),
                self.wf(),
                self.spec_handle().serves(arena),
                self.reserved(&start, &arena_start, arena, i),
                self@.len() == old_len + i,
                self@.subrange(0, old_len as int) =~= start@,
                forall|j: int|
                    0 <= j < i ==> cloned::<T>(other@[j], #[trigger] self@[old_len + j]),
            decreases other@.len() - i,
        {
            let ghost mid: Self = *self;
            let ghost arena_mid: H::Arena = *arena;
            proof {
                start.lemma_can_reserve_less(&arena_start, (i + 1) as usize, other@.len() as usize);
                Self::law_push_continues_reserve(
                    &start,
                    &mid,
                    &mid,
                    &arena_start,
                    &arena_mid,
                    &arena_mid,
                    i,
                );
            }
            let elem: T = other[i].clone();
            self.push(arena, elem);
            proof {
                Self::law_push_continues_reserve(
                    &start,
                    &mid,
                    self,
                    &arena_start,
                    &arena_mid,
                    arena,
                    i,
                );
            }
            i = i + 1;
        }
    }

    /// Makes a sequence with `handle` over a fresh block of the same capacity
    /// and fills it with a clone of each element, in their order.
    pub fn clone(&self, arena: &mut H::Arena, handle: H) -> (res: Self) where T: Clone
        requires
            self.wf(),
            handle.serves(old(arena)),
            self.spec_capacity() > 0 ==> allocatable::<T, H>(old(arena), self.spec_capacity()),
        ensures
            res.wf(),
            res.spec_capacity() == self.spec_capacity(),
            res.spec_handle() == handle,
            res@.len() == self@.len(),
            forall|i: int| 0 <= i < self@.len() ==> cloned::<T>(self@[i], #[trigger] res@[i]),
            self.spec_capacity() == 0 ==> res.spec_ptr() is None && *final(arena) == *old(arena),
            self.spec_capacity() > 0 ==> res.spec_ptr() == Some(
                allocated_ptr::<T, H>(old(arena)) as usize,
            ) && moved::<H>(
                old(arena),
                final(arena),
                allocated_end::<T, H>(old(arena), self.spec_capacity()),
            ),
            handle.serves(final(arena)),
    {
        let mut vec: SliceVec<T, H> = SliceVec::with_capacity(handle, arena, self.capacity);
        let ghost block: Self = vec;
        let mut i: usize = 0;
        while i < self.slice.items.len()
            invariant
                i <= self.slice.items@.len(),
                vec.same_block(&block),
                vec.slice.items@.len() == i,
                forall|j: int|
                    0 <= j < i ==> cloned::<T>(self.slice.items@[j], #[trigger] vec.slice.items@[j]),
            decreases self.slice.items@.len() - i,
        {
            let elem: T = self.slice.items[i].clone();
            vec.slice.items.push(elem);
            i = i + 1;
        }
        vec
    }

    /// Ends the sequence, dropping its elements, and hands back its handle.
    /// The block stays with the arena.
    pub fn into_handle(self) -> (handle: H)
        ensures
            handle == self.spec_handle(),
    {
        self.slice.handle
    }
}

impl<T, H> SliceVec<T, H> {
    /// The elements as a slice.
    pub fn as_slice(&self) -> (elems: &[T])
        ensures
            elems@ == self@,
    {
        self.slice.items.as_slice()
    }

    /// An iterator over the elements, first to last.
    pub fn iter<'a>(&'a self) -> (it: core::slice::Iter<'a, T>)
        ensures
            vstd::std_specs::slice::into_iter_elts(it) == self@,
    {
        self.slice.items.as_slice().iter()
    }

    /// The element at `index`, to be changed in its place. Nothing else
    /// changes.
    pub fn index_mut(&mut self, index: usize) -> (elem: &mut T)
        requires
            index < old(self)@.len(),
        ensures
            *elem == old(self)@[index as int],
            final(self)@ == old(self)@.update(index as int, *final(elem)),
            final(self).same_block(old(self)),
    {
        &mut self.slice.items[index]
    }

    /// The elements as a mutable slice: each can be changed in its place,
    /// and their number cannot.
    pub fn iter_mut(&mut self) -> (elems: &mut [T])
        ensures
            elems@ == old(self)@,
            final(self)@ == final(elems)@,
            final(self).same_block(old(self)),
    {
        self.slice.items.as_mut_slice()
    }
}

impl<T, H> core::ops::Deref for SliceVec<T, H> {
    type Target = [T];

    fn deref(&self) -> (elems: &[T])
        ensures
            elems@ == self@,
    {
        self.slice.items.as_slice()
    }
}

impl<T: PartialEq + PartialEqSpec, H> PartialEq for SliceVec<T, H> {
    /// Two sequences are equal when their elements are, one by one; blocks
    /// and handles are not compared.
    fn eq(&self, other: &Self) -> (equal: bool) {
        self.slice.items == other.slice.items
    }
}

impl<T: PartialEq + PartialEqSpec, H> PartialEqSpecImpl for SliceVec<T, H> {
    open spec fn obeys_eq_spec() -> bool {
        T::obeys_eq_spec()
    }

    open spec fn eq_spec(&self, other: &Self) -> bool {
        &&& self@.len() == other@.len()
        &&& forall|i: int| #![auto] 0 <= i < self@.len() ==> self@[i].eq_spec(&other@[i])
    }
}

impl<T: PartialEq + PartialEqSpec, H> PartialEq for Slice<T, H> {
    /// Two sequences are equal when their elements are, one by one; blocks
    /// and handles are not compared.
    fn eq(&self, other: &Self) -> (equal: bool) {
        self.items == other.items
    }
}

impl<T: PartialEq + PartialEqSpec, H> PartialEqSpecImpl for Slice<T, H> {
    open spec fn obeys_eq_spec() -> bool {
        T::obeys_eq_spec()
    }

    open spec fn eq_spec(&self, other: &Self) -> bool {
        &&& self@.len() == other@.len()
        &&& forall|i: int| #![auto] 0 <= i < self@.len() ==> self@[i].eq_spec(&other@[i])
    }
}

impl<T: Eq + PartialEqSpec, H> Eq for SliceVec<T, H> {

}

impl<T: Eq + PartialEqSpec, H> Eq for Slice<T, H> {

}

} // verus!
