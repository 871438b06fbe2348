use vstd::prelude::*;
use crate::base_cells::face_cells::is_face_lookup;
use crate::face_ijk::FaceIJK;

verus! {

/// The number of counter-clockwise turns from the frame of a face into the
/// frame of the base cell at each of its resolution-0 coordinates.
pub const FACE_IJK_BASE_CELL_ROTATIONS: [[[[i32; 3]; 3]; 3]; 20] = [
    [
        [[0, 0, 0], [0, 0, 3], [1, 3, 3]],
        [[0, 5, 5], [0, 0, 0], [1, 0, 0]],
        [[0, 5, 5], [1, 0, 5], [1, 0, 0]],
    ],
    [
        [[0, 0, 0], [0, 0, 3], [1, 3, 3]],
        [[0, 5, 5], [0, 0, 0], [1, 0, 0]],
        [[1, 5, 5], [1, 0, 5], [1, 0, 0]],
    ],
    [
        [[0, 0, 0], [0, 0, 3], [1, 3, 3]],
        [[0, 5, 5], [0, 0, 0], [1, 0, 0]],
        [[2, 5, 5], [1, 0, 5], [1, 0, 0]],
    ],
    [
        [[0, 0, 0], [0, 0, 3], [1, 3, 3]],
        [[0, 5, 5], [0, 0, 0], [1, 0, 0]],
        [[3, 5, 5], [1, 0, 5], [1, 0, 0]],
    ],
    [
        [[0, 0, 0], [0, 0, 3], [1, 3, 3]],
        [[0, 5, 5], [0, 0, 0], [1, 0, 0]],
        [[4, 5, 5], [1, 0, 5], [1, 0, 0]],
    ],
    [
        [[0, 0, 3], [0, 3, 3], [3, 3, 3]],
        [[0, 0, 3], [3, 0, 0], [3, 0, 3]],
        [[0, 3, 3], [3, 0, 0], [1, 3, 0]],
    ],
    [
        [[0, 0, 3], [0, 3, 3], [3, 3, 3]],
        [[0, 0, 3], [3, 0, 0], [3, 0, 3]],
        [[0, 3, 3], [3, 0, 0], [3, 3, 0]],
    ],
    [
        [[0, 0, 3], [0, 3, 3], [3, 3, 3]],
        [[0, 0, 3], [3, 0, 0], [3, 0, 3]],
        [[0, 3, 3], [3, 0, 0], [3, 3, 0]],
    ],
    [
        [[0, 0, 3], [0, 3, 3], [3, 3, 3]],
        [[0, 0, 3], [3, 0, 0], [3, 0, 3]],
        [[0, 3, 3], [3, 0, 0], [3, 3, 0]],
    ],
    [
        [[0, 0, 3], [0, 3, 3], [3, 3, 3]],
        [[0, 0, 3], [3, 0, 0], [3, 0, 3]],
        [[0, 3, 3], [3, 0, 0], [3, 3, 0]],
    ],
    [
        [[0, 0, 3], [0, 3, 3], [3, 3, 3]],
        [[0, 3, 3], [0, 0, 0], [3, 0, 3]],
        [[0, 3, 3], [3, 0, 3], [3, 0, 0]],
    ],
    [
        [[0, 0, 3], [0, 3, 3], [3, 3, 3]],
        [[0, 3, 3], [0, 0, 0], [3, 0, 3]],
        [[0, 3, 3], [3, 0, 3], [3, 0, 0]],
    ],
    [
        [[0, 0, 3], [0, 3, 3], [3, 3, 3]],
        [[0, 3, 3], [0, 0, 0], [3, 0, 3]],
        [[0, 3, 3], [3, 0, 3], [3, 0, 0]],
    ],
    [
        [[0, 0, 3], [0, 3, 3], [3, 3, 3]],
        [[0, 3, 3], [0, 0, 0], [3, 0, 3]],
        [[0, 3, 3], [3, 0, 3], [3, 0, 0]],
    ],
    [
        [[0, 0, 3], [0, 3, 3], [3, 3, 3]],
        [[0, 3, 3], [0, 0, 0], [3, 0, 3]],
        [[0, 3, 3], [3, 0, 3], [3, 0, 0]],
    ],
    [
        [[0, 0, 0], [0, 0, 3], [1, 3, 3]],
        [[0, 0, 5], [1, 0, 0], [1, 0, 0]],
        [[4, 5, 5], [1, 0, 0], [1, 1, 0]],
    ],
    [
        [[0, 0, 0], [0, 0, 3], [1, 3, 3]],
        [[0, 0, 5], [1, 0, 0], [1, 0, 0]],
        [[3, 5, 5], [1, 0, 0], [1, 1, 0]],
    ],
    [
        [[0, 0, 0], [0, 0, 3], [1, 3, 3]],
        [[0, 0, 5], [1, 0, 0], [1, 0, 0]],
        [[2, 5, 5], [1, 0, 0], [1, 1, 0]],
    ],
    [
        [[0, 0, 0], [0, 0, 3], [1, 3, 3]],
        [[0, 0, 5], [1, 0, 0], [1, 0, 0]],
        [[1, 5, 5], [1, 0, 0], [1, 1, 0]],
    ],
    [
        [[0, 0, 0], [0, 0, 3], [1, 3, 3]],
        [[0, 0, 5], [1, 0, 0], [1, 0, 0]],
        [[0, 5, 5], [1, 0, 0], [1, 1, 0]],
    ],
];

/// The turns from the frame of a face into the frame of the base cell at one
/// of its resolution-0 coordinates, as the table has them.
#[verifier::opaque]
pub open spec fn face_ijk_base_cell_rotations(h: FaceIJK) -> int {
    FACE_IJK_BASE_CELL_ROTATIONS[h.face as int][h.coord.i as int][h.coord.j as int][h.coord.k as int] as int
}

/// At every lookup coordinate of every face stand fewer than six turns.
pub proof fn lemma_face_rotations(h: FaceIJK)
    requires
        is_face_lookup(h),
    ensures
        0 <= face_ijk_base_cell_rotations(h) <= 5,
{
    reveal(face_ijk_base_cell_rotations);
}

/// The number of counter-clockwise turns from the frame of a face into the
/// frame of the base cell at one of its resolution-0 coordinates.
pub fn _faceIjkToBaseCellCCWrot60(h: &FaceIJK) -> (turns: i32)
    requires
        is_face_lookup(*h),
    ensures
        turns == face_ijk_base_cell_rotations(*h),
        0 <= turns <= 5,
{
    proof {
        reveal(face_ijk_base_cell_rotations);
    }
    proof {
        lemma_face_rotations(*h);
    }
    FACE_IJK_BASE_CELL_ROTATIONS[h.face as usize][h.coord.i as usize][h.coord.j as usize][h.coord.k as usize]
}

} // verus!
