//! The arena with shared ownership: it counts the handles it has given out
//! and can be cleared only while none but its own is live.
use crate::bump::{allocate_inner, allocate_or_extend_inner, fits, fits_extended};
use crate::common::{AllocHandle, ArenaBacking, ArenaError};
use vstd::prelude::*;

verus! {

/// An arena that counts its handles.
///
/// The arena holds one reference to itself. Each handle it gives out is one
/// more, each handle it takes back one less. It is the only object that can
/// clear the cursor, and it does so only while its own reference is the only
/// one.
#[derive(Debug)]
pub struct Arena {
    /// Address of the first byte.
    head: usize,
    /// Offset of the next free byte.
    pos: usize,
    /// Number of bytes.
    cap: usize,
    /// Where the bytes came from.
    backing: ArenaBacking,
    /// Live references: the arena's own and one for each handle.
    refs: usize,
}

/// A handle to a reference-counted arena.
///
/// Its holder can allocate from the arena. While it is live, the arena cannot
/// be cleared.
#[derive(Debug)]
pub struct InnerRef {
    /// Address of the first byte of the arena that gave the handle out.
    arena: usize,
}

impl Arena {
    /// The arena's invariant: a non-null base, a cursor within the capacity, a
    /// last byte with an address, and at least the arena's own reference.
    pub closed spec fn wf(&self) -> bool {
        &&& self.head != 0
        &&& self.pos <= self.cap
        &&& self.head + self.cap <= usize::MAX
        &&& self.refs >= 1
    }

    /// The address of the first byte.
    pub closed spec fn spec_head(&self) -> usize {
        self.head
    }

    /// The offset of the next free byte.
    pub closed spec fn spec_position(&self) -> usize {
        self.pos
    }

    /// The number of bytes.
    pub closed spec fn spec_capacity(&self) -> usize {
        self.cap
    }

    /// Where the bytes came from.
    pub closed spec fn spec_backing(&self) -> ArenaBacking {
        self.backing
    }

    /// The number of live references, the arena's own included.
    pub closed spec fn spec_strong_count(&self) -> usize {
        self.refs
    }

    /// This arena is `before` in everything but the position of its cursor.
    pub open spec fn same_but_position(&self, before: &Arena) -> bool {
        &&& self.spec_head() == before.spec_head()
        &&& self.spec_capacity() == before.spec_capacity()
        &&& self.spec_backing() == before.spec_backing()
        &&& self.spec_strong_count() == before.spec_strong_count()
    }

    /// This arena is `before` in everything but the number of its live
    /// references.
    pub open spec fn same_but_count(&self, before: &Arena) -> bool {
        &&& self.spec_head() == before.spec_head()
        &&& self.spec_capacity() == before.spec_capacity()
        &&& self.spec_backing() == before.spec_backing()
        &&& self.spec_position() == before.spec_position()
    }

    /// Makes an arena over the `cap` bytes at `head`, which the caller has
    /// acquired in the way that `backing` names. A null `head` says that the
    /// acquisition failed, and so does this function. The new arena has its
    /// cursor at zero and holds the only reference to itself.
    pub fn init_capacity(backing: ArenaBacking, cap: usize, head: usize) -> (res: Result<
        Arena,
        ArenaError,
    >)
        requires
            head + cap <= usize::MAX,
        ensures
            head == 0 <==> res is Err,
            res is Err ==> res == Err::<Arena, ArenaError>(ArenaError::AllocationFailed),
            res matches Ok(arena) ==> {
                &&& arena.wf()
                &&& arena.spec_head() == head
                &&& arena.spec_capacity() == cap
                &&& arena.spec_backing() == backing
                &&& arena.spec_position() == 0
                &&& arena.spec_strong_count() == 1
            },
    {
        if head == 0 {
            Err(ArenaError::AllocationFailed)
        } else {
            Ok(Arena { head, pos: 0, cap, backing, refs: 1 })
        }
    }

    /// Gives out another handle to the arena: one more live reference.
    pub fn inner(&mut self) -> (handle: InnerRef)
        requires
            old(self).wf(),
            old(self).spec_strong_count() < usize::MAX,
        ensures
            final(self).wf(),
            final(self).same_but_count(old(self)),
            final(self).spec_strong_count() == old(self).spec_strong_count() + 1,
            handle.spec_arena() == old(self).spec_head(),
            handle.serves(final(self)),
    {
        self.refs = self.refs + 1;
        InnerRef { arena: self.head }
    }

    /// Takes a handle back: one live reference less.
    pub fn release(&mut self, handle: InnerRef)
        requires
            handle.serves(old(self)),
        ensures
            final(self).wf(),
            final(self).same_but_count(old(self)),
            final(self).spec_strong_count() == old(self).spec_strong_count() - 1,
    {
        self.refs = self.refs - 1;
    }

    /// Resets the cursor to zero if no handle is live, and refuses with
    /// `CannotClear`, changing nothing, if one is.
    pub fn clear(&mut self) -> (res: Result<(), ArenaError>)
        requires
            old(self).wf(),
        ensures
            final(self).wf(),
            old(self).spec_strong_count() == 1 ==> res == Ok::<(), ArenaError>(())
                && final(self).spec_position() == 0 && final(self).same_but_position(old(self)),
            old(self).spec_strong_count() != 1 ==> res == Err::<(), ArenaError>(
                ArenaError::CannotClear,
            ) && *final(self) == *old(self),
    {
        if self.refs == 1 {
            self.pos = 0;
            Ok(())
        } else {
            Err(ArenaError::CannotClear)
        }
    }

    /// Ends the arena and hands back what its owner has to release, once: the
    /// kind of backing, the address of the first byte and the number of bytes.
    /// Handles that are still out are dead from here on.
    pub fn into_backing(self) -> (parts: (ArenaBacking, usize, usize))
        ensures
            parts == (self.spec_backing(), self.spec_head(), self.spec_capacity()),
    {
        (self.backing, self.head, self.cap)
    }

    /// The address of the first byte.
    #[verifier::when_used_as_spec(spec_head)]
    pub fn head(&self) -> (head: usize)
        ensures
            head == self.spec_head(),
    {
        self.head
    }

    /// The offset of the next free byte.
    #[verifier::when_used_as_spec(spec_position)]
    pub fn position(&self) -> (position: usize)
        ensures
            position == self.spec_position(),
    {
        self.pos
    }

    /// The number of bytes.
    #[verifier::when_used_as_spec(spec_capacity)]
    pub fn capacity(&self) -> (capacity: usize)
        ensures
            capacity == self.spec_capacity(),
    {
        self.cap
    }

    /// Where the bytes came from.
    #[verifier::when_used_as_spec(spec_backing)]
    pub fn backing(&self) -> (backing: ArenaBacking)
        ensures
            backing == self.spec_backing(),
    {
        self.backing
    }

    /// The number of live references, the arena's own included.
    #[verifier::when_used_as_spec(spec_strong_count)]
    pub fn strong_count(&self) -> (count: usize)
        ensures
            count == self.spec_strong_count(),
    {
        self.refs
    }

    /// A handle holds the arena back from clearing, and a cleared arena has
    /// outlived every handle: an arena that serves a handle counts more than
    /// its own reference, so `clear` refuses; and an arena that counts only
    /// its own reference, as every arena does that `clear` has reset, serves
    /// no handle.
    pub proof fn law_clear_waits_for_handles(self, handle: InnerRef)
        ensures
            handle.serves(&self) ==> self.spec_strong_count() > 1,
            self.spec_strong_count() == 1 ==> !handle.serves(&self),
    {
    }
}

impl InnerRef {
    /// The address of the first byte of the arena that gave the handle out.
    pub closed spec fn spec_arena(&self) -> usize {
        self.arena
    }
}

impl AllocHandle for InnerRef {
    type Arena = Arena;

    open spec fn head(arena: &Arena) -> usize {
        arena.spec_head()
    }

    open spec fn position(arena: &Arena) -> usize {
        arena.spec_position()
    }

    open spec fn capacity(arena: &Arena) -> usize {
        arena.spec_capacity()
    }

    open spec fn same_but_position(before: &Arena, after: &Arena) -> bool {
        after.same_but_position(before)
    }

    open spec fn serves(&self, arena: &Arena) -> bool {
        &&& arena.wf()
        &&& self.spec_arena() == arena.spec_head()
        &&& arena.spec_strong_count() >= 2
    }

    proof fn lemma_served_arena_is_bounded(&self, arena: &Arena) {
    }

    proof fn lemma_same_but_position_composes(first: &Arena, second: &Arena, third: &Arena) {
    }

    fn has_room<T>(&self, arena: &Arena, count: usize) -> (ok: bool) {
        fits::<T>(arena.pos, arena.cap, count)
    }

    fn has_room_to_extend<T>(
        &self,
        arena: &Arena,
        ptr: Option<usize>,
        old_count: usize,
        count: usize,
    ) -> (ok: bool) {
        fits_extended::<T>(arena.head, arena.pos, arena.cap, ptr, old_count, count)
    }

    fn allocate<T>(&self, arena: &mut Arena, count: usize) -> (ptr: usize) {
        allocate_inner::<T>(arena.head, &mut arena.pos, arena.cap, count)
    }

    fn allocate_or_extend<T>(
        &self,
        arena: &mut Arena,
        ptr: Option<usize>,
        old_count: usize,
        count: usize,
    ) -> (new_ptr: usize) {
        allocate_or_extend_inner::<T>(arena.head, &mut arena.pos, arena.cap, ptr, old_count, count)
    }
}

} // verus!
