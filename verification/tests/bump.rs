use arenavec::bump::{allocate_inner, allocate_or_extend_inner, fits, fits_extended, QUANTUM};

const HEAD: usize = 0x10_0000;
const CAP: usize = 4096;

#[test]
fn quantum_is_a_cache_line() {
    assert_eq!(QUANTUM, 64);
}

#[test]
fn first_run_starts_one_quantum_in() {
    let mut pos = 0;
    assert!(fits::<u64>(pos, CAP, 4));
    let ptr = allocate_inner::<u64>(HEAD, &mut pos, CAP, 4);
    assert_eq!(ptr, HEAD + 64);
    assert_eq!(pos, 64 + 4 * 8);
}

#[test]
fn misaligned_cursor_is_padded_to_the_quantum() {
    // 4 & 7 is 4, so the padding is 60 and the run starts at 64.
    let mut pos = 4;
    assert!(fits::<u64>(pos, CAP, 1));
    let ptr = allocate_inner::<u64>(HEAD, &mut pos, CAP, 1);
    assert_eq!(ptr, HEAD + 64);
    assert_eq!(pos, 72);
}

#[test]
fn bytes_are_padded_by_a_whole_quantum() {
    let mut pos = 10;
    assert!(fits::<u8>(pos, CAP, 3));
    let ptr = allocate_inner::<u8>(HEAD, &mut pos, CAP, 3);
    assert_eq!(ptr, HEAD + 74);
    assert_eq!(pos, 77);
}

#[test]
fn empty_run_still_takes_its_padding() {
    let mut pos = 0;
    assert!(fits::<u32>(pos, CAP, 0));
    let ptr = allocate_inner::<u32>(HEAD, &mut pos, CAP, 0);
    assert_eq!(ptr, HEAD + 64);
    assert_eq!(pos, 64);
}

#[test]
fn fits_up_to_the_last_byte() {
    // 64 bytes of padding and 8 elements of 8 bytes are 128 bytes.
    assert!(fits::<u64>(0, 128, 8));
    assert!(!fits::<u64>(0, 127, 8));
    assert!(!fits::<u64>(0, 128, 9));
    assert!(fits::<u64>(0, 64, 0));
    assert!(!fits::<u64>(0, 63, 0));
}

#[test]
fn fits_refuses_counts_beyond_the_machine() {
    assert!(!fits::<u64>(0, usize::MAX, usize::MAX));
    assert!(!fits::<u64>(usize::MAX - 8, usize::MAX, 1));
}

#[test]
fn last_block_grows_where_it_stands() {
    let mut pos = 0;
    let ptr = allocate_inner::<u32>(HEAD, &mut pos, CAP, 5);
    let end = pos;
    assert!(fits_extended::<u32>(HEAD, pos, CAP, Some(ptr), 5, 9));
    let grown = allocate_or_extend_inner::<u32>(HEAD, &mut pos, CAP, Some(ptr), 5, 9);
    assert_eq!(grown, ptr);
    assert_eq!(pos, end + 4 * 4);
}

#[test]
fn interposed_allocation_forces_a_move() {
    let mut pos = 0;
    let ptr = allocate_inner::<u32>(HEAD, &mut pos, CAP, 5);
    let other = allocate_inner::<u8>(HEAD, &mut pos, CAP, 1);
    assert!(other > ptr);
    let before = pos;
    assert!(fits_extended::<u32>(HEAD, pos, CAP, Some(ptr), 5, 9));
    let grown = allocate_or_extend_inner::<u32>(HEAD, &mut pos, CAP, Some(ptr), 5, 9);
    assert_ne!(grown, ptr);
    // The byte lies a quantum behind the block, at 148, and 149 & 3 is 1, so
    // the padding of the new run is 63.
    assert_eq!(other, HEAD + 148);
    assert_eq!(before, 149);
    assert_eq!(grown, HEAD + 212);
    assert_eq!(pos, 212 + 9 * 4);
}

#[test]
fn absent_block_is_allocated_afresh() {
    let mut pos = 0;
    assert!(fits_extended::<u16>(HEAD, pos, CAP, None, 0, 4));
    let ptr = allocate_or_extend_inner::<u16>(HEAD, &mut pos, CAP, None, 0, 4);
    assert_eq!(ptr, HEAD + 64);
    assert_eq!(pos, 72);
}

#[test]
fn growth_in_place_needs_only_the_difference() {
    // The block of 4 ends at the cursor, 96: 4 more elements of 8 bytes fit
    // in 128 bytes, though a fresh run of 8 would not.
    let mut pos = 0;
    let ptr = allocate_inner::<u64>(HEAD, &mut pos, 128, 4);
    assert_eq!(pos, 96);
    assert!(fits_extended::<u64>(HEAD, pos, 128, Some(ptr), 4, 8));
    assert!(!fits::<u64>(pos, 128, 8));
    assert!(!fits_extended::<u64>(HEAD, pos, 128, Some(ptr), 4, 9));
    assert!(!fits_extended::<u64>(HEAD, pos, 128, Some(ptr), 4, 3));
    let grown = allocate_or_extend_inner::<u64>(HEAD, &mut pos, 128, Some(ptr), 4, 8);
    assert_eq!(grown, ptr);
    assert_eq!(pos, 128);
}

#[test]
fn block_beyond_the_address_space_ends_nowhere() {
    let mut pos = 0;
    assert!(fits_extended::<u64>(HEAD, pos, CAP, Some(usize::MAX - 4), 1, 2));
    let ptr = allocate_or_extend_inner::<u64>(HEAD, &mut pos, CAP, Some(usize::MAX - 4), 1, 2);
    assert_eq!(ptr, HEAD + 64);
    assert_eq!(pos, 80);
}
