//! The bump cursor: where the next run of objects starts, how far the cursor
//! moves, and when a block can grow where it stands.
use vstd::layout::{align_of, layout_for_type_is_valid, size_of};
use vstd::prelude::*;

verus! {

/// The padding quantum of the cursor, in bytes.
pub const QUANTUM: usize = 64;

/// The part of `pos` below the alignment: `pos & (align - 1)`.
pub open spec fn misalignment(pos: usize, align: usize) -> usize
    recommends
        align > 0,
{
    pos & ((align - 1) as usize)
}

/// The padding placed before a run that is allocated at `pos`: the distance
/// from the misaligned part of `pos` to the quantum, or nothing where that
/// distance is the alignment itself.
pub open spec fn skip_for(pos: usize, align: usize) -> int
    recommends
        align > 0,
        misalignment(pos, align) <= QUANTUM,
{
    let gap = QUANTUM - misalignment(pos, align);
    if gap == align {
        0
    } else {
        gap
    }
}

/// The offset at which a run allocated at `pos` starts.
pub open spec fn run_start(pos: usize, align: usize) -> int {
    pos + skip_for(pos, align)
}

/// The offset just behind `count` objects of `size` bytes allocated at `pos`:
/// the cursor's position after the allocation.
pub open spec fn run_end(pos: usize, size: nat, align: usize, count: usize) -> int {
    run_start(pos, align) + size * count
}

/// An allocation of `count` objects at `pos` stays inside `cap` bytes, and its
/// padding can be computed.
pub open spec fn can_allocate(pos: usize, cap: usize, size: nat, align: usize, count: usize) -> bool {
    &&& align > 0
    &&& misalignment(pos, align) <= QUANTUM
    &&& run_end(pos, size, align, count) <= cap
}

/// The block of `old_count` objects at `ptr` ends exactly at the cursor, so
/// nothing was allocated behind it.
pub open spec fn ends_at_cursor(
    head: usize,
    pos: usize,
    ptr: Option<usize>,
    size: nat,
    old_count: usize,
) -> bool {
    match ptr {
        Some(p) => head + pos == p + old_count * size,
        None => false,
    }
}

/// Growing the block at `ptr` from `old_count` to `count` objects stays inside
/// `cap` bytes: by moving the cursor where the block ends at it, by a fresh
/// allocation where it does not.
pub open spec fn can_extend(
    head: usize,
    pos: usize,
    cap: usize,
    ptr: Option<usize>,
    size: nat,
    align: usize,
    old_count: usize,
    count: usize,
) -> bool {
    if ends_at_cursor(head, pos, ptr, size, old_count) {
        old_count <= count && pos + (count - old_count) * size <= cap
    } else {
        can_allocate(pos, cap, size, align, count)
    }
}

/// The address of the block after growing it from `old_count` to `count`
/// objects: its old address where it ends at the cursor, a fresh run otherwise.
pub open spec fn extend_ptr(
    head: usize,
    pos: usize,
    ptr: Option<usize>,
    size: nat,
    align: usize,
    old_count: usize,
) -> int {
    if ends_at_cursor(head, pos, ptr, size, old_count) {
        ptr->0 as int
    } else {
        head + run_start(pos, align)
    }
}

/// The cursor's position after growing the block at `ptr` from `old_count` to
/// `count` objects.
pub open spec fn extend_end(
    head: usize,
    pos: usize,
    ptr: Option<usize>,
    size: nat,
    align: usize,
    old_count: usize,
    count: usize,
) -> int {
    if ends_at_cursor(head, pos, ptr, size, old_count) {
        pos + (count - old_count) * size
    } else {
        run_end(pos, size, align, count)
    }
}

/// Allocates `count` objects of type `T` from the range of `cap` bytes at
/// `head`, moving `position` behind them, and returns their address.
pub fn allocate_inner<T>(head: usize, position: &mut usize, cap: usize, count: usize) -> (ptr:
    usize)
    requires
        head + cap <= usize::MAX,
        *old(position) <= cap,
        can_allocate(*old(position), cap, size_of::<T>(), align_of::<T>() as usize, count),
    ensures
        *final(position) == run_end(
            *old(position),
            size_of::<T>(),
            align_of::<T>() as usize,
            count,
        ),
        ptr == head + run_start(*old(position), align_of::<T>() as usize),
        *old(position) <= *final(position) <= cap,
        head <= ptr <= head + cap,
{
    layout_for_type_is_valid::<T>();
    let size: usize = core::mem::size_of::<T>();
    let align: usize = core::mem::align_of::<T>();
    let mask: usize = align - 1;
    let pos: usize = *position;

    let mut skip: usize = QUANTUM - (pos & mask);
    if skip == align {
        skip = 0;
    }
    assert(skip == skip_for(pos, align));
    assert(size * count <= cap) by (nonlinear_arith)
        requires
            pos + skip + size * count <= cap,
            0 <= pos,
            0 <= skip,
    ;

    let additional: usize = skip + size * count;
    *position = pos + additional;
    head + (pos + skip)
}

/// Grows the block of `old_count` objects of type `T` at `ptr` to `count`
/// objects. A block that ends at the cursor grows where it stands: the cursor
/// moves and the same address comes back. Any other block, and an absent one,
/// gets a fresh run of `count` objects; the caller moves the contents.
pub fn allocate_or_extend_inner<T>(
    head: usize,
    position: &mut usize,
    cap: usize,
    ptr: Option<usize>,
    old_count: usize,
    count: usize,
) -> (new_ptr: usize)
    requires
        head + cap <= usize::MAX,
        *old(position) <= cap,
        can_extend(
            head,
            *old(position),
            cap,
            ptr,
            size_of::<T>(),
            align_of::<T>() as usize,
            old_count,
            count,
        ),
    ensures
        new_ptr == extend_ptr(
            head,
            *old(position),
            ptr,
            size_of::<T>(),
            align_of::<T>() as usize,
            old_count,
        ),
        *final(position) == extend_end(
            head,
            *old(position),
            ptr,
            size_of::<T>(),
            align_of::<T>() as usize,
            old_count,
            count,
        ),
        *old(position) <= *final(position) <= cap,
{
    layout_for_type_is_valid::<T>();
    let pos: usize = *position;
    if block_ends_at::<T>(head + pos, ptr, old_count) {
        let size: usize = core::mem::size_of::<T>();
        let grown: usize = count - old_count;
        assert(grown * size <= cap) by (nonlinear_arith)
            requires
                pos + grown * size <= cap,
                0 <= pos,
        ;
        *position = pos + grown * size;
        ptr.unwrap()
    } else {
        allocate_inner::<T>(head, position, cap, count)
    }
}

/// Whether the block of `old_count` objects of type `T` at `ptr` ends at the
/// address `next`. An absent block ends nowhere, and neither does one whose
/// end lies beyond the address space.
fn block_ends_at<T>(next: usize, ptr: Option<usize>, old_count: usize) -> (at_cursor: bool)
    ensures
        at_cursor == match ptr {
            Some(p) => next == p + old_count * size_of::<T>(),
            None => false,
        },
{
    layout_for_type_is_valid::<T>();
    let size: usize = core::mem::size_of::<T>();
    match ptr {
        None => false,
        Some(p) => match old_count.checked_mul(size) {
            None => false,
            Some(bytes) => match p.checked_add(bytes) {
                None => false,
                Some(end) => end == next,
            },
        },
    }
}

/// Whether `count` objects of type `T` can be allocated at `pos` in an arena
/// of `cap` bytes.
pub fn fits<T>(pos: usize, cap: usize, count: usize) -> (ok: bool)
    ensures
        ok == can_allocate(pos, cap, size_of::<T>(), align_of::<T>() as usize, count),
{
    layout_for_type_is_valid::<T>();
    let size: usize = core::mem::size_of::<T>();
    let align: usize = core::mem::align_of::<T>();
    let low: usize = pos & (align - 1);
    if low > QUANTUM {
        return false;
    }
    let gap: usize = QUANTUM - low;
    let skip: usize = if gap == align { 0 } else { gap };
    assert(skip == skip_for(pos, align));
    match size.checked_mul(count) {
        None => false,
        Some(bytes) => match pos.checked_add(skip) {
            None => false,
            Some(start) => match start.checked_add(bytes) {
                None => false,
                Some(end) => end <= cap,
            },
        },
    }
}

/// Whether the block of `old_count` objects of type `T` at `ptr` can grow to
/// `count` objects in the arena of `cap` bytes at `head` whose cursor is at
/// `pos`.
pub fn fits_extended<T>(
    head: usize,
    pos: usize,
    cap: usize,
    ptr: Option<usize>,
    old_count: usize,
    count: usize,
) -> (ok: bool)
    requires
        head + pos <= usize::MAX,
    ensures
        ok == can_extend(
            head,
            pos,
            cap,
            ptr,
            size_of::<T>(),
            align_of::<T>() as usize,
            old_count,
            count,
        ),
{
    layout_for_type_is_valid::<T>();
    if block_ends_at::<T>(head + pos, ptr, old_count) {
        if old_count > count {
            return false;
        }
        let size: usize = core::mem::size_of::<T>();
        match (count - old_count).checked_mul(size) {
            None => false,
            Some(bytes) => match pos.checked_add(bytes) {
                None => false,
                Some(end) => end <= cap,
            },
        }
    } else {
        fits::<T>(pos, cap, count)
    }
}

/// A run never starts before the cursor: the padding is not negative.
pub proof fn lemma_run_starts_at_or_after_cursor(pos: usize, align: usize)
    requires
        align > 0,
        misalignment(pos, align) <= QUANTUM,
    ensures
        0 <= skip_for(pos, align) <= QUANTUM,
        pos <= run_start(pos, align),
{
}

/// Allocations never alias. A run lies between the cursor before the
/// allocation and the cursor after it, so it shares no byte with any run
/// allocated earlier, all of which end at or before the old cursor, nor with
/// any allocated later, all of which start at or behind the new one.
pub proof fn law_allocations_never_alias(
    pos: usize,
    cap: usize,
    size: nat,
    align: usize,
    count: usize,
)
    requires
        can_allocate(pos, cap, size, align, count),
    ensures
        pos <= run_start(pos, align),
        run_start(pos, align) + size * count == run_end(pos, size, align, count),
        run_start(pos, align) <= run_end(pos, size, align, count) <= cap,
{
    lemma_run_starts_at_or_after_cursor(pos, align);
    assert(size * count >= 0) by (nonlinear_arith);
}

/// The block that was allocated last ends at the cursor: asked to grow, it
/// grows where it stands and keeps its address.
pub proof fn law_last_block_grows_in_place(
    head: usize,
    pos: usize,
    cap: usize,
    size: nat,
    align: usize,
    count: usize,
)
    requires
        head + cap <= usize::MAX,
        can_allocate(pos, cap, size, align, count),
    ensures
        ends_at_cursor(
            head,
            run_end(pos, size, align, count) as usize,
            Some((head + run_start(pos, align)) as usize),
            size,
            count,
        ),
        extend_ptr(
            head,
            run_end(pos, size, align, count) as usize,
            Some((head + run_start(pos, align)) as usize),
            size,
            align,
            count,
        ) == head + run_start(pos, align),
{
    lemma_run_starts_at_or_after_cursor(pos, align);
    assert(size * count >= 0) by (nonlinear_arith);
}

/// An allocation that takes at least one byte leaves no earlier block at the
/// cursor: the block that ended at `pos` does not end at the cursor behind
/// the new run.
pub proof fn law_interposed_allocation_ends_growth_in_place(
    head: usize,
    pos: usize,
    cap: usize,
    ptr: usize,
    size: nat,
    old_count: usize,
    other_size: nat,
    other_align: usize,
    other_count: usize,
)
    requires
        head + cap <= usize::MAX,
        ends_at_cursor(head, pos, Some(ptr), size, old_count),
        can_allocate(pos, cap, other_size, other_align, other_count),
        run_end(pos, other_size, other_align, other_count) > pos,
    ensures
        !ends_at_cursor(
            head,
            run_end(pos, other_size, other_align, other_count) as usize,
            Some(ptr),
            size,
            old_count,
        ),
{
}

/// Of a block that lies before the cursor, growing returns the old address
/// exactly when the block ends at the cursor. In every other case the
/// address changes, and the contents have to be moved.
pub proof fn law_address_kept_iff_block_is_last(
    head: usize,
    pos: usize,
    ptr: usize,
    size: nat,
    align: usize,
    old_count: usize,
)
    requires
        align > 0,
        misalignment(pos, align) <= QUANTUM,
        ptr + old_count * size <= head + pos,
    ensures
        extend_ptr(head, pos, Some(ptr), size, align, old_count) == ptr <==> ends_at_cursor(
            head,
            pos,
            Some(ptr),
            size,
            old_count,
        ),
{
    lemma_run_starts_at_or_after_cursor(pos, align);
    assert(old_count * size >= 0) by (nonlinear_arith);
}

/// The cursor never moves back: an allocation and a growth leave it where it
/// was or further on.
pub proof fn law_cursor_never_moves_back(
    head: usize,
    pos: usize,
    cap: usize,
    ptr: Option<usize>,
    size: nat,
    align: usize,
    old_count: usize,
    count: usize,
)
    ensures
        can_allocate(pos, cap, size, align, count) ==> pos <= run_end(pos, size, align, count),
        can_extend(head, pos, cap, ptr, size, align, old_count, count) ==> pos <= extend_end(
            head,
            pos,
            ptr,
            size,
            align,
            old_count,
            count,
        ) <= cap,
{
    assert(size * count >= 0) by (nonlinear_arith);
    if old_count <= count {
        assert((count - old_count) * size >= 0) by (nonlinear_arith)
            requires
                old_count <= count,
        ;
    }
}

/// What can grow to a count can grow to any smaller count that is no less
/// than what the block holds.
pub proof fn lemma_can_extend_to_less(
    head: usize,
    pos: usize,
    cap: usize,
    ptr: Option<usize>,
    size: nat,
    align: usize,
    old_count: usize,
    less: usize,
    count: usize,
)
    requires
        old_count <= less <= count,
        can_extend(head, pos, cap, ptr, size, align, old_count, count),
    ensures
        can_extend(head, pos, cap, ptr, size, align, old_count, less),
        extend_end(head, pos, ptr, size, align, old_count, less) <= extend_end(
            head,
            pos,
            ptr,
            size,
            align,
            old_count,
            count,
        ),
{
    assert((less - old_count) * size <= (count - old_count) * size) by (nonlinear_arith)
        requires
            old_count <= less <= count,
    ;
    assert(size * less <= size * count) by (nonlinear_arith)
        requires
            less <= count,
    ;
}

/// Growth in two steps is growth in one. A block that has grown is the last
/// block of the arena, wherever it stood before: it grows on where it
/// stands, to the same address and the same cursor position as if it had
/// grown to the final count at once.
pub proof fn law_growth_composes(
    head: usize,
    pos: usize,
    cap: usize,
    ptr: Option<usize>,
    size: nat,
    align: usize,
    old_count: usize,
    count: usize,
    more: usize,
)
    requires
        head + cap <= usize::MAX,
        pos <= cap,
        old_count <= count <= more,
        can_extend(head, pos, cap, ptr, size, align, old_count, more),
    ensures
        can_extend(head, pos, cap, ptr, size, align, old_count, count),
        0 <= extend_ptr(head, pos, ptr, size, align, old_count) <= usize::MAX,
        pos <= extend_end(head, pos, ptr, size, align, old_count, count) <= cap,
        ({
            let grown_ptr = Some(extend_ptr(head, pos, ptr, size, align, old_count) as usize);
            let grown_end = extend_end(head, pos, ptr, size, align, old_count, count) as usize;
            &&& ends_at_cursor(head, grown_end, grown_ptr, size, count)
            &&& can_extend(head, grown_end, cap, grown_ptr, size, align, count, more)
            &&& extend_ptr(head, grown_end, grown_ptr, size, align, count) == extend_ptr(
                head,
                pos,
                ptr,
                size,
                align,
                old_count,
            )
            &&& extend_end(head, grown_end, grown_ptr, size, align, count, more) == extend_end(
                head,
                pos,
                ptr,
                size,
                align,
                old_count,
                more,
            )
        }),
{
    lemma_can_extend_to_less(head, pos, cap, ptr, size, align, old_count, count, more);
    law_cursor_never_moves_back(head, pos, cap, ptr, size, align, old_count, count);
    assert(size * count >= 0) by (nonlinear_arith);
    assert(old_count * size >= 0) by (nonlinear_arith);
    assert((count - old_count) * size == count * size - old_count * size) by (nonlinear_arith);
    assert((more - old_count) * size == more * size - old_count * size) by (nonlinear_arith);
    assert((more - count) * size == more * size - count * size) by (nonlinear_arith);
    assert(size * count == count * size) by (nonlinear_arith);
    assert(size * more == more * size) by (nonlinear_arith);
    if !ends_at_cursor(head, pos, ptr, size, old_count) {
        lemma_run_starts_at_or_after_cursor(pos, align);
    }
}

/// Alignments up to the quantum are respected. For an alignment of 1, 2, 4,
/// 8, 16, 32 or 64 bytes the padding can always be computed, and the run
/// starts at an offset that is a multiple of the alignment: in an arena
/// whose base is aligned, so is every address it gives out.
pub proof fn law_alignment_up_to_quantum(pos: usize, align: usize)
    requires
        align == 1 || align == 2 || align == 4 || align == 8 || align == 16 || align == 32
            || align == 64,
    ensures
        misalignment(pos, align) < align,
        run_start(pos, align) % (align as int) == 0,
{
    let low = misalignment(pos, align);
    assert(low < align && (pos - low) % (align as int) == 0) by {
        lemma_low_bits(pos, align);
    }
    let base = pos - low;
    if QUANTUM - low == align {
        assert(run_start(pos, align) == pos);
        assert(low == 0);
    } else {
        assert(run_start(pos, align) == base + 64);
        assert((base + 64) % (align as int) == 0) by {
            if align == 1 {
                assert((base + 64) % 1 == 0);
            } else if align == 2 {
                assert(base % 2 == 0 ==> (base + 64) % 2 == 0);
            } else if align == 4 {
                assert(base % 4 == 0 ==> (base + 64) % 4 == 0);
            } else if align == 8 {
                assert(base % 8 == 0 ==> (base + 64) % 8 == 0);
            } else if align == 16 {
                assert(base % 16 == 0 ==> (base + 64) % 16 == 0);
            } else if align == 32 {
                assert(base % 32 == 0 ==> (base + 64) % 32 == 0);
            } else {
                assert(base % 64 == 0 ==> (base + 64) % 64 == 0);
            }
        }
    }
}

/// The low bits of `pos` under a small power of two are its remainder: less
/// than the power, and what is left of `pos` is a multiple of it.
proof fn lemma_low_bits(pos: usize, align: usize)
    requires
        align == 1 || align == 2 || align == 4 || align == 8 || align == 16 || align == 32
            || align == 64,
    ensures
        (pos & ((align - 1) as usize)) < align,
        (pos - (pos & ((align - 1) as usize))) % (align as int) == 0,
{
    if align == 1 {
        assert((pos & 0) < 1 && (pos & 0) <= pos && (pos - (pos & 0)) as usize % 1 == 0)
            by (bit_vector);
    } else if align == 2 {
        assert((pos & 1) < 2 && (pos & 1) <= pos && (pos - (pos & 1)) as usize % 2 == 0)
            by (bit_vector);
    } else if align == 4 {
        assert((pos & 3) < 4 && (pos & 3) <= pos && (pos - (pos & 3)) as usize % 4 == 0)
            by (bit_vector);
    } else if align == 8 {
        assert((pos & 7) < 8 && (pos & 7) <= pos && (pos - (pos & 7)) as usize % 8 == 0)
            by (bit_vector);
    } else if align == 16 {
        assert((pos & 15) < 16 && (pos & 15) <= pos && (pos - (pos & 15)) as usize % 16 == 0)
            by (bit_vector);
    } else if align == 32 {
        assert((pos & 31) < 32 && (pos & 31) <= pos && (pos - (pos & 31)) as usize % 32 == 0)
            by (bit_vector);
    } else {
        assert((pos & 63) < 64 && (pos & 63) <= pos && (pos - (pos & 63)) as usize % 64 == 0)
            by (bit_vector);
    }
}

} // verus!
