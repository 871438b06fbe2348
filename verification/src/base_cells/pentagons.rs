use vstd::prelude::*;
use crate::constants::NUM_BASE_CELLS;

verus! {

/// For each base cell, 1 where it is a pentagon and 0 where it is a hexagon.
pub const BASE_CELL_IS_PENTAGON: [i32; 122] = [
    0, 0, 0, 0, 1, 0, 0, 0, 0, 0, 0, 0, 0, 0, 1, 0,
    0, 0, 0, 0, 0, 0, 0, 0, 1, 0, 0, 0, 0, 0, 0, 0,
    0, 0, 0, 0, 0, 0, 1, 0, 0, 0, 0, 0, 0, 0, 0, 0,
    0, 1, 0, 0, 0, 0, 0, 0, 0, 0, 1, 0, 0, 0, 0, 1,
    0, 0, 0, 0, 0, 0, 0, 0, 1, 0, 0, 0, 0, 0, 0, 0,
    0, 0, 0, 1, 0, 0, 0, 0, 0, 0, 0, 0, 0, 0, 0, 0,
    0, 1, 0, 0, 0, 0, 0, 0, 0, 0, 0, 1, 0, 0, 0, 0,
    0, 0, 0, 0, 0, 1, 0, 0, 0, 0,
];

/// For each pentagon, the two faces on which it is met clockwise; -1 twice
/// for the two polar pentagons, which have none.
pub const BASE_CELL_CW_OFFSET_PENT: [[i32; 2]; 122] = [
    [0, 0],
    [0, 0],
    [0, 0],
    [0, 0],
    [-1, -1],
    [0, 0],
    [0, 0],
    [0, 0],
    [0, 0],
    [0, 0],
    [0, 0],
    [0, 0],
    [0, 0],
    [0, 0],
    [2, 6],
    [0, 0],
    [0, 0],
    [0, 0],
    [0, 0],
    [0, 0],
    [0, 0],
    [0, 0],
    [0, 0],
    [0, 0],
    [1, 5],
    [0, 0],
    [0, 0],
    [0, 0],
    [0, 0],
    [0, 0],
    [0, 0],
    [0, 0],
    [0, 0],
    [0, 0],
    [0, 0],
    [0, 0],
    [0, 0],
    [0, 0],
    [3, 7],
    [0, 0],
    [0, 0],
    [0, 0],
    [0, 0],
    [0, 0],
    [0, 0],
    [0, 0],
    [0, 0],
    [0, 0],
    [0, 0],
    [0, 9],
    [0, 0],
    [0, 0],
    [0, 0],
    [0, 0],
    [0, 0],
    [0, 0],
    [0, 0],
    [0, 0],
    [4, 8],
    [0, 0],
    [0, 0],
    [0, 0],
    [0, 0],
    [11, 15],
    [0, 0],
    [0, 0],
    [0, 0],
    [0, 0],
    [0, 0],
    [0, 0],
    [0, 0],
    [0, 0],
    [12, 16],
    [0, 0],
    [0, 0],
    [0, 0],
    [0, 0],
    [0, 0],
    [0, 0],
    [0, 0],
    [0, 0],
    [0, 0],
    [0, 0],
    [10, 19],
    [0, 0],
    [0, 0],
    [0, 0],
    [0, 0],
    [0, 0],
    [0, 0],
    [0, 0],
    [0, 0],
    [0, 0],
    [0, 0],
    [0, 0],
    [0, 0],
    [0, 0],
    [13, 17],
    [0, 0],
    [0, 0],
    [0, 0],
    [0, 0],
    [0, 0],
    [0, 0],
    [0, 0],
    [0, 0],
    [0, 0],
    [14, 18],
    [0, 0],
    [0, 0],
    [0, 0],
    [0, 0],
    [0, 0],
    [0, 0],
    [0, 0],
    [0, 0],
    [0, 0],
    [-1, -1],
    [0, 0],
    [0, 0],
    [0, 0],
    [0, 0],
];

/// Whether a base cell is one of the twelve pentagons. No number that names
/// no base cell is one.
pub open spec fn is_base_cell_pentagon(base_cell: int) -> bool {
    base_cell == 4 || base_cell == 14 || base_cell == 24 || base_cell == 38 || base_cell == 49
        || base_cell == 58 || base_cell == 63 || base_cell == 72 || base_cell == 83 || base_cell
        == 97 || base_cell == 107 || base_cell == 117
}

/// The two faces on which a pentagon is met clockwise, as the table has
/// them.
#[verifier::opaque]
pub open spec fn cw_offset_faces(base_cell: int) -> (int, int) {
    (BASE_CELL_CW_OFFSET_PENT[base_cell][0] as int, BASE_CELL_CW_OFFSET_PENT[base_cell][1] as int)
}

/// Whether a pentagon is met clockwise on a face.
pub open spec fn is_cw_offset(base_cell: int, face: int) -> bool {
    cw_offset_faces(base_cell).0 == face || cw_offset_faces(base_cell).1 == face
}

/// The table of pentagons marks the twelve pentagons and no other base
/// cell.
pub proof fn lemma_pentagon_table(base_cell: int)
    requires
        0 <= base_cell < 122,
    ensures
        (BASE_CELL_IS_PENTAGON[base_cell] != 0) == is_base_cell_pentagon(base_cell),
{
}

/// The faces on which a pentagon is met clockwise are faces, but for the
/// two polar pentagons, which are met clockwise on no face.
pub proof fn lemma_cw_offset_faces(base_cell: int)
    requires
        is_base_cell_pentagon(base_cell),
    ensures
        (base_cell == 4 || base_cell == 117) ==> cw_offset_faces(base_cell) == (-1 as int, -1 as int),
        (base_cell != 4 && base_cell != 117) ==> 0 <= cw_offset_faces(base_cell).0 < 20 && 0
            <= cw_offset_faces(base_cell).1 < 20,
{
    reveal(cw_offset_faces);
}

/// Whether a base cell is a pentagon.
pub fn _isBaseCellPentagon(baseCell: i32) -> (pentagon: bool)
    ensures
        pentagon == is_base_cell_pentagon(baseCell as int),
{
    if baseCell < 0 || baseCell >= NUM_BASE_CELLS {
        // Base cells less than zero can not be represented in an index
        return false;
    }
    proof {
        lemma_pentagon_table(baseCell as int);
    }
    BASE_CELL_IS_PENTAGON[baseCell as usize] != 0
}

/// Whether a pentagon is met clockwise on a face.
pub fn _baseCellIsCwOffset(baseCell: i32, testFace: i32) -> (offset: bool)
    requires
        0 <= baseCell < 122,
    ensures
        offset == is_cw_offset(baseCell as int, testFace as int),
{
    proof {
        reveal(cw_offset_faces);
    }
    BASE_CELL_CW_OFFSET_PENT[baseCell as usize][0] == testFace
        || BASE_CELL_CW_OFFSET_PENT[baseCell as usize][1] == testFace
}

/// The two faces on which a pentagon is met clockwise.
pub fn cwOffsetPent(baseCell: i32) -> (faces: [i32; 2])
    requires
        0 <= baseCell < 122,
    ensures
        (faces[0] as int, faces[1] as int) == cw_offset_faces(baseCell as int),
{
    proof {
        reveal(cw_offset_faces);
    }
    BASE_CELL_CW_OFFSET_PENT[baseCell as usize]
}

} // verus!
