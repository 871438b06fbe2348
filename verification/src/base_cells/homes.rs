use vstd::prelude::*;
use crate::base_cells::face_cells::{face_ijk_base_cell, is_face_lookup};
use crate::base_cells::face_rotations::face_ijk_base_cell_rotations;
use crate::coord_ijk::CoordIJK;
use crate::face_ijk::FaceIJK;

verus! {

/// The home of each base cell: its face, then the three components of its
/// coordinate on that face.
pub const BASE_CELL_HOME: [[i32; 4]; 122] = [
    [1, 1, 0, 0],
    [2, 1, 1, 0],
    [1, 0, 0, 0],
    [2, 1, 0, 0],
    [0, 2, 0, 0],
    [1, 1, 1, 0],
    [1, 0, 0, 1],
    [2, 0, 0, 0],
    [0, 1, 0, 0],
    [2, 0, 1, 0],
    [1, 0, 1, 0],
    [1, 0, 1, 1],
    [3, 1, 0, 0],
    [3, 1, 1, 0],
    [11, 2, 0, 0],
    [4, 1, 0, 0],
    [0, 0, 0, 0],
    [6, 0, 1, 0],
    [0, 0, 0, 1],
    [2, 0, 1, 1],
    [7, 0, 0, 1],
    [2, 0, 0, 1],
    [0, 1, 1, 0],
    [6, 0, 0, 1],
    [10, 2, 0, 0],
    [6, 0, 0, 0],
    [3, 0, 0, 0],
    [11, 1, 0, 0],
    [4, 1, 1, 0],
    [3, 0, 1, 0],
    [0, 0, 1, 1],
    [4, 0, 0, 0],
    [5, 0, 1, 0],
    [0, 0, 1, 0],
    [7, 0, 1, 0],
    [11, 1, 1, 0],
    [7, 0, 0, 0],
    [10, 1, 0, 0],
    [12, 2, 0, 0],
    [6, 1, 0, 1],
    [7, 1, 0, 1],
    [4, 0, 0, 1],
    [3, 0, 0, 1],
    [3, 0, 1, 1],
    [4, 0, 1, 0],
    [6, 1, 0, 0],
    [11, 0, 0, 0],
    [8, 0, 0, 1],
    [5, 0, 0, 1],
    [14, 2, 0, 0],
    [5, 0, 0, 0],
    [12, 1, 0, 0],
    [10, 1, 1, 0],
    [4, 0, 1, 1],
    [12, 1, 1, 0],
    [7, 1, 0, 0],
    [11, 0, 1, 0],
    [10, 0, 0, 0],
    [13, 2, 0, 0],
    [10, 0, 0, 1],
    [11, 0, 0, 1],
    [9, 0, 1, 0],
    [8, 0, 1, 0],
    [6, 2, 0, 0],
    [8, 0, 0, 0],
    [9, 0, 0, 1],
    [14, 1, 0, 0],
    [5, 1, 0, 1],
    [16, 0, 1, 1],
    [8, 1, 0, 1],
    [5, 1, 0, 0],
    [12, 0, 0, 0],
    [7, 2, 0, 0],
    [12, 0, 1, 0],
    [10, 0, 1, 0],
    [9, 0, 0, 0],
    [13, 1, 0, 0],
    [16, 0, 0, 1],
    [15, 0, 1, 1],
    [15, 0, 1, 0],
    [16, 0, 1, 0],
    [14, 1, 1, 0],
    [13, 1, 1, 0],
    [5, 2, 0, 0],
    [8, 1, 0, 0],
    [14, 0, 0, 0],
    [9, 1, 0, 1],
    [14, 0, 0, 1],
    [17, 0, 0, 1],
    [12, 0, 0, 1],
    [16, 0, 0, 0],
    [17, 0, 1, 1],
    [15, 0, 0, 1],
    [16, 1, 0, 1],
    [9, 1, 0, 0],
    [15, 0, 0, 0],
    [13, 0, 0, 0],
    [8, 2, 0, 0],
    [13, 0, 1, 0],
    [17, 1, 0, 1],
    [19, 0, 1, 0],
    [14, 0, 1, 0],
    [19, 0, 1, 1],
    [17, 0, 1, 0],
    [13, 0, 0, 1],
    [17, 0, 0, 0],
    [16, 1, 0, 0],
    [9, 2, 0, 0],
    [15, 1, 0, 1],
    [15, 1, 0, 0],
    [18, 0, 1, 1],
    [18, 0, 0, 1],
    [19, 0, 0, 1],
    [17, 1, 0, 0],
    [19, 0, 0, 0],
    [18, 0, 1, 0],
    [18, 1, 0, 1],
    [19, 2, 0, 0],
    [19, 1, 0, 0],
    [18, 0, 0, 0],
    [19, 1, 0, 1],
    [18, 1, 0, 0],
];

/// The home of a base cell, its face and its coordinate there, as the table
/// has it.
#[verifier::opaque]
pub open spec fn home_fijk(base_cell: int) -> FaceIJK {
    FaceIJK {
        face: BASE_CELL_HOME[base_cell][0],
        coord: CoordIJK {
            i: BASE_CELL_HOME[base_cell][1],
            j: BASE_CELL_HOME[base_cell][2],
            k: BASE_CELL_HOME[base_cell][3],
        },
    }
}

/// Every home is a lookup coordinate, in normal form.
pub proof fn lemma_home_is_lookup(base_cell: int)
    requires
        0 <= base_cell < 122,
    ensures
        is_face_lookup(home_fijk(base_cell)),
        home_fijk(base_cell).coord@.is_normal(),
{
    reveal(home_fijk);
}

/// At the home of a base cell the tables of the faces hold that base cell,
/// in its own frame; and the home lies on its face.
pub proof fn lemma_home_base_cell(base_cell: int)
    requires
        0 <= base_cell < 122,
    ensures
        face_ijk_base_cell(home_fijk(base_cell)) == base_cell,
        face_ijk_base_cell_rotations(home_fijk(base_cell)) == 0,
        home_fijk(base_cell).coord@.sum() <= 2,
{
    reveal(home_fijk);
    reveal(face_ijk_base_cell);
    reveal(face_ijk_base_cell_rotations);
}

/// The home of a base cell.
pub fn homeFijk(baseCell: i32) -> (home: FaceIJK)
    requires
        0 <= baseCell < 122,
    ensures
        home == home_fijk(baseCell as int),
        is_face_lookup(home),
        home.coord@.is_normal(),
{
    proof {
        reveal(home_fijk);
    }
    proof {
        lemma_home_is_lookup(baseCell as int);
    }
    let home: [i32; 4] = BASE_CELL_HOME[baseCell as usize];
    FaceIJK { face: home[0], coord: CoordIJK { i: home[1], j: home[2], k: home[3] } }
}

} // verus!
