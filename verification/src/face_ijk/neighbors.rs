use vstd::prelude::*;
use crate::coord_ijk::CoordIJK;
use crate::face_ijk::FaceOrientIJK;

verus! {

/// The largest sum of components that still lies on a face, by Class II
/// resolution; the odd entries stand for no grid.
pub const MAX_DIM_BY_CII_RES: [i32; 17] = [
    2, -1, 14, -1, 98, -1, 686, -1, 4802, -1, 33614, -1, 235298, -1, 1647086, -1, 11529602,
];

/// The length of a resolution-0 unit, by Class II resolution; the odd
/// entries stand for no grid.
pub const UNIT_SCALE_BY_CII_RES: [i32; 17] = [
    1, -1, 7, -1, 49, -1, 343, -1, 2401, -1, 16807, -1, 117649, -1, 823543, -1, 5764801,
];

/// For each face and each quadrant (the face itself, then `IJ`, `KI`, `JK`):
/// the adjacent face, the three components of the translation into its
/// frame, and the number of counter-clockwise turns.
pub const FACE_NEIGHBORS: [[[i32; 5]; 4]; 20] = [
    [[0, 0, 0, 0, 0], [4, 2, 0, 2, 1], [1, 2, 2, 0, 5], [5, 0, 2, 2, 3]],
    [[1, 0, 0, 0, 0], [0, 2, 0, 2, 1], [2, 2, 2, 0, 5], [6, 0, 2, 2, 3]],
    [[2, 0, 0, 0, 0], [1, 2, 0, 2, 1], [3, 2, 2, 0, 5], [7, 0, 2, 2, 3]],
    [[3, 0, 0, 0, 0], [2, 2, 0, 2, 1], [4, 2, 2, 0, 5], [8, 0, 2, 2, 3]],
    [[4, 0, 0, 0, 0], [3, 2, 0, 2, 1], [0, 2, 2, 0, 5], [9, 0, 2, 2, 3]],
    [[5, 0, 0, 0, 0], [10, 2, 2, 0, 3], [14, 2, 0, 2, 3], [0, 0, 2, 2, 3]],
    [[6, 0, 0, 0, 0], [11, 2, 2, 0, 3], [10, 2, 0, 2, 3], [1, 0, 2, 2, 3]],
    [[7, 0, 0, 0, 0], [12, 2, 2, 0, 3], [11, 2, 0, 2, 3], [2, 0, 2, 2, 3]],
    [[8, 0, 0, 0, 0], [13, 2, 2, 0, 3], [12, 2, 0, 2, 3], [3, 0, 2, 2, 3]],
    [[9, 0, 0, 0, 0], [14, 2, 2, 0, 3], [13, 2, 0, 2, 3], [4, 0, 2, 2, 3]],
    [[10, 0, 0, 0, 0], [5, 2, 2, 0, 3], [6, 2, 0, 2, 3], [15, 0, 2, 2, 3]],
    [[11, 0, 0, 0, 0], [6, 2, 2, 0, 3], [7, 2, 0, 2, 3], [16, 0, 2, 2, 3]],
    [[12, 0, 0, 0, 0], [7, 2, 2, 0, 3], [8, 2, 0, 2, 3], [17, 0, 2, 2, 3]],
    [[13, 0, 0, 0, 0], [8, 2, 2, 0, 3], [9, 2, 0, 2, 3], [18, 0, 2, 2, 3]],
    [[14, 0, 0, 0, 0], [9, 2, 2, 0, 3], [5, 2, 0, 2, 3], [19, 0, 2, 2, 3]],
    [[15, 0, 0, 0, 0], [16, 2, 0, 2, 1], [19, 2, 2, 0, 5], [10, 0, 2, 2, 3]],
    [[16, 0, 0, 0, 0], [17, 2, 0, 2, 1], [15, 2, 2, 0, 5], [11, 0, 2, 2, 3]],
    [[17, 0, 0, 0, 0], [18, 2, 0, 2, 1], [16, 2, 2, 0, 5], [12, 0, 2, 2, 3]],
    [[18, 0, 0, 0, 0], [19, 2, 0, 2, 1], [17, 2, 2, 0, 5], [13, 0, 2, 2, 3]],
    [[19, 0, 0, 0, 0], [15, 2, 0, 2, 1], [18, 2, 2, 0, 5], [14, 0, 2, 2, 3]],
];

/// The entry of the neighbour table for a face and a quadrant.
#[verifier::opaque]
pub open spec fn face_neighbor(face: int, quadrant: int) -> FaceOrientIJK {
    FaceOrientIJK {
        face: FACE_NEIGHBORS[face][quadrant][0],
        translate: CoordIJK {
            i: FACE_NEIGHBORS[face][quadrant][1],
            j: FACE_NEIGHBORS[face][quadrant][2],
            k: FACE_NEIGHBORS[face][quadrant][3],
        },
        ccwRot60: FACE_NEIGHBORS[face][quadrant][4],
    }
}

/// The largest sum of components on a face of the grid of resolution `res`,
/// or of its substrate grid, which is three times as fine.
#[verifier::opaque]
pub open spec fn max_dim(res: int, substrate: bool) -> int {
    if substrate {
        3 * MAX_DIM_BY_CII_RES[res]
    } else {
        MAX_DIM_BY_CII_RES[res] as int
    }
}

/// The length of a resolution-0 unit in the grid of resolution `res`, or in
/// its substrate grid.
#[verifier::opaque]
pub open spec fn unit_scale(res: int, substrate: bool) -> int {
    if substrate {
        3 * UNIT_SCALE_BY_CII_RES[res]
    } else {
        UNIT_SCALE_BY_CII_RES[res] as int
    }
}

/// Every entry of the neighbour table names a face, a translation of at
/// most two units on each axis, and at most five turns.
pub proof fn lemma_face_neighbors_bounded(face: int, quadrant: int)
    requires
        0 <= face < 20,
        0 <= quadrant < 4,
    ensures
        0 <= face_neighbor(face, quadrant).face < 20,
        0 <= face_neighbor(face, quadrant).translate.i <= 2,
        0 <= face_neighbor(face, quadrant).translate.j <= 2,
        0 <= face_neighbor(face, quadrant).translate.k <= 2,
        0 <= face_neighbor(face, quadrant).ccwRot60 <= 5,
{
    reveal(face_neighbor);
}

/// How large the grids are: up to resolution 16 a face is no wider than
/// 11529602 cells and a unit no longer than 5764801, and three times that
/// in a substrate grid.
pub proof fn lemma_grid_sizes(res: int, substrate: bool)
    requires
        0 <= res <= 16,
    ensures
        -1 <= max_dim(res, false) <= 11529602,
        -1 <= unit_scale(res, false) <= 5764801,
        max_dim(res, true) == 3 * max_dim(res, false),
        unit_scale(res, true) == 3 * unit_scale(res, false),
        -3 <= max_dim(res, substrate) <= 34588806,
        -3 <= unit_scale(res, substrate) <= 17294403,
{
    reveal(max_dim);
    reveal(unit_scale);
}

/// The entry of the neighbour table for a face and a quadrant.
pub fn faceNeighbor(face: i32, quadrant: usize) -> (orient: FaceOrientIJK)
    requires
        0 <= face < 20,
        quadrant < 4,
    ensures
        orient == face_neighbor(face as int, quadrant as int),
        0 <= orient.face < 20,
        0 <= orient.translate.i <= 2,
        0 <= orient.translate.j <= 2,
        0 <= orient.translate.k <= 2,
        0 <= orient.ccwRot60 <= 5,
{
    proof {
        reveal(face_neighbor);
    }
    proof {
        lemma_face_neighbors_bounded(face as int, quadrant as int);
    }
    let entry: [i32; 5] = FACE_NEIGHBORS[face as usize][quadrant];
    FaceOrientIJK {
        face: entry[0],
        translate: CoordIJK { i: entry[1], j: entry[2], k: entry[3] },
        ccwRot60: entry[4],
    }
}

/// The largest sum of components on a face of the grid.
pub fn max_dim_of(res: i32, substrate: bool) -> (d: i32)
    requires
        0 <= res <= 16,
    ensures
        d == max_dim(res as int, substrate),
        -3 <= d <= 34588806,
{
    proof {
        reveal(max_dim);
    }
    let d: i32 = MAX_DIM_BY_CII_RES[res as usize];
    if substrate {
        d * 3
    } else {
        d
    }
}

/// The length of a resolution-0 unit in the grid.
pub fn unit_scale_of(res: i32, substrate: bool) -> (u: i32)
    requires
        0 <= res <= 16,
    ensures
        u == unit_scale(res as int, substrate),
        -3 <= u <= 17294403,
{
    proof {
        reveal(unit_scale);
    }
    let u: i32 = UNIT_SCALE_BY_CII_RES[res as usize];
    if substrate {
        u * 3
    } else {
        u
    }
}

} // verus!
