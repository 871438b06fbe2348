use vstd::prelude::*;

verus! {

/// The finest resolution; resolutions are numbered 0 through 15.
pub const MAX_H3_RES: i32 = 15;

/// The number of faces of an icosahedron.
pub const NUM_ICOSA_FACES: i32 = 20;

/// The number of resolution-0 cells.
pub const NUM_BASE_CELLS: i32 = 122;

/// The number of vertices of a hexagon.
pub const NUM_HEX_VERTS: i32 = 6;

/// The number of vertices of a pentagon.
pub const NUM_PENT_VERTS: i32 = 5;

/// The number of pentagons at each resolution.
pub const NUM_PENTAGONS: i32 = 12;

/// Mode of an index that names a cell.
pub const H3_CELL_MODE: i32 = 1;

/// Mode of an index that names a directed edge.
pub const H3_DIRECTEDEDGE_MODE: i32 = 2;

/// Mode of an index that names an undirected edge.
pub const H3_EDGE_MODE: i32 = 3;

/// Mode of an index that names a vertex.
pub const H3_VERTEX_MODE: i32 = 4;

} // verus!
