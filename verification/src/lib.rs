//! A fixed-capacity binary tree built on an index-based node arena.
//!
//! All structural relationships (tree to root, parent to child) are stored as
//! `u32` slot indices into a single arena, never as memory addresses, so a
//! tree value is relocatable as a whole. A reserved index, [`SENTINEL`],
//! stands for "no reference" everywhere: an empty tree's root, a missing
//! child, and the arena's exhaustion signal.

pub mod ast;
pub mod node_allocator;

use vstd::prelude::*;

verus! {

/// Reserved `u32` value meaning "no reference". No valid slot index ever
/// equals it: an arena's capacity must be strictly below this value.
pub const SENTINEL: u32 = 0xFFFF_FFFF;

} // verus!
