//! The arena with exclusive scopes: it gives out one generation token at a
//! time, and everything allocated belongs to the generation of that token.
use crate::bump::{allocate_inner, allocate_or_extend_inner, fits, fits_extended};
use crate::common::{AllocHandle, ArenaBacking, ArenaError};
use vstd::prelude::*;

verus! {

/// An arena whose objects live in generations.
///
/// At every moment the live objects of the arena belong to one generation,
/// which begins when the arena gives out its token and ends when it takes the
/// token back. Taking it back resets the cursor, so each generation starts in
/// an empty arena. Handles carry the number of their generation: a handle of
/// a generation that has ended is served no more.
#[derive(Debug)]
pub struct Arena {
    /// Address of the first byte.
    head: usize,
    /// Offset of the next free byte.
    pos: usize,
    /// Number of bytes.
    cap: usize,
    /// Where the bytes came from.
    backing: ArenaBacking,
    /// Whether the token of the current generation is out.
    locked: bool,
    /// The number of generations that have ended.
    generation: u64,
}

/// The token of a generation: the exclusive right to allocate in it. At most
/// one is out for an arena at any time.
#[derive(Debug)]
pub struct ArenaToken {
    /// Address of the first byte of the arena that gave the token out.
    arena: usize,
    /// The generation that the token opened.
    generation: u64,
}

/// A handle to the current generation of an arena. It allocates as the token
/// does, can be copied, and ends nothing when it goes away: it lives as long
/// as the token's generation and no longer.
#[derive(Debug, Clone, Copy)]
pub struct ArenaHandle {
    /// Address of the first byte of the arena.
    arena: usize,
    /// The generation that the handle belongs to.
    generation: u64,
}

impl Arena {
    /// The arena's invariant: a non-null base, a cursor within the capacity, a
    /// last byte with an address, and an empty arena between generations.
    pub closed spec fn wf(&self) -> bool {
        &&& self.head != 0
        &&& self.pos <= self.cap
        &&& self.head + self.cap <= usize::MAX
        &&& !self.locked ==> self.pos == 0
    }

    /// The address of the first byte.
    pub closed spec fn spec_head(&self) -> usize {
        self.head
    }

    /// The offset of the next free byte.
    pub closed spec fn spec_position(&self) -> usize {
        self.pos
    }

    /// The number of bytes.
    pub closed spec fn spec_capacity(&self) -> usize {
        self.cap
    }

    /// Where the bytes came from.
    pub closed spec fn spec_backing(&self) -> ArenaBacking {
        self.backing
    }

    /// Whether the token of the current generation is out.
    pub closed spec fn spec_is_locked(&self) -> bool {
        self.locked
    }

    /// The number of generations that have ended.
    pub closed spec fn spec_generation(&self) -> u64 {
        self.generation
    }

    /// This arena is `before` in everything but the position of its cursor.
    pub open spec fn same_but_position(&self, before: &Arena) -> bool {
        &&& self.spec_head() == before.spec_head()
        &&& self.spec_capacity() == before.spec_capacity()
        &&& self.spec_backing() == before.spec_backing()
        &&& self.spec_is_locked() == before.spec_is_locked()
        &&& self.spec_generation() == before.spec_generation()
    }

    /// This arena has the bytes of `before`: the same base, capacity and
    /// backing.
    pub open spec fn same_bytes(&self, before: &Arena) -> bool {
        &&& self.spec_head() == before.spec_head()
        &&& self.spec_capacity() == before.spec_capacity()
        &&& self.spec_backing() == before.spec_backing()
    }

    /// Makes an arena over the `cap` bytes at `head`, which the caller has
    /// acquired in the way that `backing` names. A null `head` says that the
    /// acquisition failed, and so does this function. The new arena is empty
    /// and unlocked, before its first generation.
    pub fn init_capacity(backing: ArenaBacking, cap: usize, head: usize) -> (res: Result<
        Arena,
        ArenaError,
    >)
        requires
            head + cap <= usize::MAX,
        ensures
            head == 0 <==> res is Err,
            res is Err ==> res == Err::<Arena, ArenaError>(ArenaError::AllocationFailed),
            res matches Ok(arena) ==> {
                &&& arena.wf()
                &&& arena.spec_head() == head
                &&& arena.spec_capacity() == cap
                &&& arena.spec_backing() == backing
                &&& arena.spec_position() == 0
                &&& !arena.spec_is_locked()
                &&& arena.spec_generation() == 0
            },
    {
        if head == 0 {
            Err(ArenaError::AllocationFailed)
        } else {
            Ok(Arena { head, pos: 0, cap, backing, locked: false, generation: 0 })
        }
    }

    /// Opens a generation and gives out its token, or refuses with
    /// `AlreadyLocked`, changing nothing, while the token of the current
    /// generation is out.
    pub fn generation_token(&mut self) -> (res: Result<ArenaToken, ArenaError>)
        requires
            old(self).wf(),
        ensures
            final(self).wf(),
            old(self).spec_is_locked() ==> res == Err::<ArenaToken, ArenaError>(
                ArenaError::AlreadyLocked,
            ) && *final(self) == *old(self),
            !old(self).spec_is_locked() ==> res is Ok && final(self).spec_is_locked()
                && final(self).same_bytes(old(self)) && final(self).spec_generation() == old(
                self,
            ).spec_generation(),
            res matches Ok(token) ==> {
                &&& token.spec_arena() == old(self).spec_head()
                &&& token.spec_generation() == old(self).spec_generation()
                &&& token.serves(final(self))
                &&& final(self).spec_position() == 0
            },
    {
        if self.locked {
            Err(ArenaError::AlreadyLocked)
        } else {
            self.locked = true;
            Ok(ArenaToken { arena: self.head, generation: self.generation })
        }
    }

    /// Takes the token back and ends its generation: the cursor returns to
    /// zero, the arena is unlocked, and the handles of the generation are
    /// served no more.
    pub fn release(&mut self, token: ArenaToken)
        requires
            token.serves(old(self)),
            old(self).spec_generation() < u64::MAX,
        ensures
            final(self).wf(),
            final(self).same_bytes(old(self)),
            !final(self).spec_is_locked(),
            final(self).spec_position() == 0,
            final(self).spec_generation() == old(self).spec_generation() + 1,
    {
        self.pos = 0;
        self.locked = false;
        self.generation = self.generation + 1;
    }

    /// Ends the arena and hands back what its owner has to release, once: the
    /// kind of backing, the address of the first byte and the number of bytes.
    pub fn into_backing(self) -> (parts: (ArenaBacking, usize, usize))
        ensures
            parts == (self.spec_backing(), self.spec_head(), self.spec_capacity()),
    {
        (self.backing, self.head, self.cap)
    }

    /// The address of the first byte.
    #[verifier::when_used_as_spec(spec_head)]
    pub fn head(&self) -> (head: usize)
        ensures
            head == self.spec_head(),
    {
        self.head
    }

    /// The offset of the next free byte.
    #[verifier::when_used_as_spec(spec_position)]
    pub fn position(&self) -> (position: usize)
        ensures
            position == self.spec_position(),
    {
        self.pos
    }

    /// The number of bytes.
    #[verifier::when_used_as_spec(spec_capacity)]
    pub fn capacity(&self) -> (capacity: usize)
        ensures
            capacity == self.spec_capacity(),
    {
        self.cap
    }

    /// Where the bytes came from.
    #[verifier::when_used_as_spec(spec_backing)]
    pub fn backing(&self) -> (backing: ArenaBacking)
        ensures
            backing == self.spec_backing(),
    {
        self.backing
    }

    /// Whether the token of the current generation is out.
    #[verifier::when_used_as_spec(spec_is_locked)]
    pub fn is_locked(&self) -> (locked: bool)
        ensures
            locked == self.spec_is_locked(),
    {
        self.locked
    }

    /// The number of generations that have ended.
    #[verifier::when_used_as_spec(spec_generation)]
    pub fn generation(&self) -> (generation: u64)
        ensures
            generation == self.spec_generation(),
    {
        self.generation
    }
}

impl Arena {
    /// No two tokens are live at once. An arena that serves a token or a
    /// handle is locked, so it refuses to give out another token; and an
    /// arena that is not locked serves none, so the token it gives out is the
    /// only one.
    pub proof fn law_one_token_at_a_time(self, token: ArenaToken, handle: ArenaHandle)
        ensures
            token.serves(&self) ==> self.spec_is_locked(),
            handle.serves(&self) ==> self.spec_is_locked(),
            !self.spec_is_locked() ==> !token.serves(&self) && !handle.serves(&self),
    {
    }

    /// A generation that has ended stays ended: what an arena served is not
    /// served by the same arena in a later generation, be it locked or not.
    pub proof fn law_ended_generation_is_served_no_more(
        self,
        later: Arena,
        token: ArenaToken,
        handle: ArenaHandle,
    )
        requires
            self.spec_generation() < later.spec_generation(),
        ensures
            token.serves(&self) ==> !token.serves(&later),
            handle.serves(&self) ==> !handle.serves(&later),
    {
    }

    /// Two tokens that the same arena serves are tokens of the same
    /// generation.
    pub proof fn law_served_tokens_share_generation(self, first: ArenaToken, second: ArenaToken)
        requires
            first.serves(&self),
            second.serves(&self),
        ensures
            first.spec_generation() == second.spec_generation(),
            first.spec_arena() == second.spec_arena(),
    {
    }
}

impl ArenaToken {
    /// The address of the first byte of the arena that gave the token out.
    pub closed spec fn spec_arena(&self) -> usize {
        self.arena
    }

    /// The generation that the token opened.
    pub closed spec fn spec_generation(&self) -> u64 {
        self.generation
    }

    /// A handle to the token's generation.
    pub fn weak(&self) -> (handle: ArenaHandle)
        ensures
            handle.spec_arena() == self.spec_arena(),
            handle.spec_generation() == self.spec_generation(),
            forall|arena: Arena| self.serves(&arena) <==> #[trigger] handle.serves(&arena),
    {
        ArenaHandle { arena: self.arena, generation: self.generation }
    }
}

impl ArenaHandle {
    /// The address of the first byte of the handle's arena.
    pub closed spec fn spec_arena(&self) -> usize {
        self.arena
    }

    /// The generation that the handle belongs to.
    pub closed spec fn spec_generation(&self) -> u64 {
        self.generation
    }
}

/// What token and handle alike need of an arena: it is the one that gave them
/// out, its token is out, and its generation is theirs.
pub open spec fn in_generation(arena: &Arena, of_arena: usize, generation: u64) -> bool {
    &&& arena.wf()
    &&& arena.spec_is_locked()
    &&& arena.spec_head() == of_arena
    &&& arena.spec_generation() == generation
}

impl AllocHandle for ArenaToken {
    type Arena = Arena;

    open spec fn head(arena: &Arena) -> usize {
        arena.spec_head()
    }

    open spec fn position(arena: &Arena) -> usize {
        arena.spec_position()
    }

    open spec fn capacity(arena: &Arena) -> usize {
        arena.spec_capacity()
    }

    open spec fn same_but_position(before: &Arena, after: &Arena) -> bool {
        after.same_but_position(before)
    }

    open spec fn serves(&self, arena: &Arena) -> bool {
        in_generation(arena, self.spec_arena(), self.spec_generation())
    }

    proof fn lemma_served_arena_is_bounded(&self, arena: &Arena) {
    }

    proof fn lemma_same_but_position_composes(first: &Arena, second: &Arena, third: &Arena) {
    }

    fn has_room<T>(&self, arena: &Arena, count: usize) -> (ok: bool) {
        fits::<T>(arena.pos, arena.cap, count)
    }

    fn has_room_to_extend<T>(
        &self,
        arena: &Arena,
        ptr: Option<usize>,
        old_count: usize,
        count: usize,
    ) -> (ok: bool) {
        fits_extended::<T>(arena.head, arena.pos, arena.cap, ptr, old_count, count)
    }

    fn allocate<T>(&self, arena: &mut Arena, count: usize) -> (ptr: usize) {
        allocate_inner::<T>(arena.head, &mut arena.pos, arena.cap, count)
    }

    fn allocate_or_extend<T>(
        &self,
        arena: &mut Arena,
        ptr: Option<usize>,
        old_count: usize,
        count: usize,
    ) -> (new_ptr: usize) {
        allocate_or_extend_inner::<T>(arena.head, &mut arena.pos, arena.cap, ptr, old_count, count)
    }
}

impl AllocHandle for ArenaHandle {
    type Arena = Arena;

    open spec fn head(arena: &Arena) -> usize {
        arena.spec_head()
    }

    open spec fn position(arena: &Arena) -> usize {
        arena.spec_position()
    }

    open spec fn capacity(arena: &Arena) -> usize {
        arena.spec_capacity()
    }

    open spec fn same_but_position(before: &Arena, after: &Arena) -> bool {
        after.same_but_position(before)
    }

    open spec fn serves(&self, arena: &Arena) -> bool {
        in_generation(arena, self.spec_arena(), self.spec_generation())
    }

    proof fn lemma_served_arena_is_bounded(&self, arena: &Arena) {
    }

    proof fn lemma_same_but_position_composes(first: &Arena, second: &Arena, third: &Arena) {
    }

    fn has_room<T>(&self, arena: &Arena, count: usize) -> (ok: bool) {
        fits::<T>(arena.pos, arena.cap, count)
    }

    fn has_room_to_extend<T>(
        &self,
        arena: &Arena,
        ptr: Option<usize>,
        old_count: usize,
        count: usize,
    ) -> (ok: bool) {
        fits_extended::<T>(arena.head, arena.pos, arena.cap, ptr, old_count, count)
    }

    fn allocate<T>(&self, arena: &mut Arena, count: usize) -> (ptr: usize) {
        allocate_inner::<T>(arena.head, &mut arena.pos, arena.cap, count)
    }

    fn allocate_or_extend<T>(
        &self,
        arena: &mut Arena,
        ptr: Option<usize>,
        old_count: usize,
        count: usize,
    ) -> (new_ptr: usize) {
        allocate_or_extend_inner::<T>(arena.head, &mut arena.pos, arena.cap, ptr, old_count, count)
    }
}

} // verus!
