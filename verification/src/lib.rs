//! Verified core of a printed-circuit-board autorouter: an exact fixed-point
//! geometry kernel, a board model, a grid-based multi-layer router, and a
//! permutation search over net orderings.

use vstd::prelude::*;

pub mod contains;
pub mod distance;
pub mod driver;
pub mod dsn;
pub mod grid;
pub mod index;
pub mod intersects;
pub mod laws;
pub mod math;
pub mod pcb;
pub mod perm;
pub mod primitive;
pub mod ratsnest;
pub mod router;
pub mod shape;

verus! {

/// Largest coordinate magnitude (in internal fixed-point units) the kernel
/// accepts; keeps every intermediate product within `i128` comfortably.
pub const COORD_MAX: i64 = 1_000_000_000;

/// A coordinate within the kernel's working range.
pub open spec fn coord_ok(v: int) -> bool {
    -COORD_MAX <= v <= COORD_MAX
}

} // verus!
