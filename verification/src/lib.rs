#![allow(non_snake_case)]

//! A hierarchical hexagonal grid on the icosahedron: the 64-bit cell index,
//! its digit arithmetic, neighbour traversal, disks and rings, directed edges
//! and the parent/child hierarchy.
//!
//! Every executable function carries a contract over the spec functions of
//! its module; the laws that relate several functions are proof functions
//! next to them. The spherical side of the grid, which is floating point,
//! is no part of this library: it takes a coordinate on a face of the
//! icosahedron and gives one back.

use vstd::prelude::*;

pub mod algos;
pub mod base_cells;
pub mod constants;
pub mod error;
pub mod coord_ijk;
pub mod directed_edge;
pub mod face_ijk;
pub mod h3_index;
pub mod iterators;

verus! {

/// The index value that names no cell and no edge.
pub const H3_NULL: u64 = 0;

} // verus!
