//! Bump-allocated arenas with two liveness disciplines, and the fixed and
//! growable sequences that draw their storage from them.
//!
//! An arena is a fixed range of addresses `[head, head + capacity)` and a
//! cursor that only moves forward. Nothing is freed one by one: the cursor goes
//! back to zero when the arena's liveness rule allows it. The `rc` arena counts
//! the handles it has given out; the `region` arena gives out one generation
//! token at a time.
//!
//! The arena owns the cursor. A handle is the right to move it: every
//! allocating call takes the handle and borrows the arena mutably for the
//! duration of the call.
//!
//! Addresses are numbers here. The library decides where each block lies and
//! proves that the decisions are the right ones; it never reads or writes the
//! bytes. A sequence keeps its elements in a vector of its own, and its block
//! is the range of addresses in the arena that those elements are entitled
//! to. Whoever owns the bytes hands their address to `init_capacity` and gets
//! it back from `into_backing`.
//!
//! No function of this library panics. Where an arena has no room for an
//! allocation, the allocation is not to be asked for: the functions that
//! allocate require the room, and `has_room` tells whether it is there.
pub mod bump;
pub mod common;
pub mod growth;
pub mod rc;
pub mod region;

pub use crate::common::{AllocHandle, ArenaBacking, ArenaError, Slice, SliceVec};
