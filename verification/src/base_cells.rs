use vstd::prelude::*;
use crate::base_cells::face_cells::{face_ijk_base_cell, is_face_lookup};
use crate::base_cells::face_rotations::face_ijk_base_cell_rotations;
use crate::base_cells::homes::{home_fijk, homeFijk};
use crate::base_cells::neighbor_rotations::{
    base_cell_neighbor_rotations, lemma_neighbor_rotations_k, lemma_neighbor_rotations_range,
};
use crate::base_cells::neighbors::{
    base_cell_neighbor, lemma_neighbor_k, lemma_neighbor_of_center, lemma_neighbor_range,
};
use crate::base_cells::pentagons::{cwOffsetPent, cw_offset_faces, is_base_cell_pentagon};
use crate::constants::{H3_CELL_MODE, NUM_BASE_CELLS};
use crate::error::Error;
use crate::face_ijk::FaceIJK;
use crate::coord_ijk::Direction;
use crate::h3_index::{
    H3Index, H3_INIT, H3_SET_BASE_CELL, H3_SET_MODE, base_cell, index_digit, is_valid_cell,
    leading_non_zero_digit, resolution, with_base_cell, with_mode,
};

pub mod face_cells;
pub mod face_rotations;
pub mod homes;
pub mod neighbor_rotations;
pub mod neighbors;
pub mod pentagons;

pub use crate::base_cells::face_cells::_faceIjkToBaseCell;
pub use crate::base_cells::face_rotations::_faceIjkToBaseCellCCWrot60;
pub use crate::base_cells::pentagons::{_baseCellIsCwOffset, _isBaseCellPentagon};

verus! {

/// What is known of one base cell.
#[derive(Clone, Copy, Debug)]
pub struct BaseCellData {
    /// The home face of the cell and its coordinate on that face.
    pub homeFijk: FaceIJK,
    /// Not zero where the cell is a pentagon.
    pub isPentagon: i32,
    /// For a pentagon, the two faces on which it is met clockwise.
    pub cwOffsetPent: [i32; 2],
}

/// A base cell, and the number of counter-clockwise turns of 60 degrees that
/// lead from the frame of a face into the frame of the cell.
#[derive(Clone, Copy, Debug, PartialEq, Eq, Structural)]
pub struct BaseCellOrient {
    pub baseCell: i32,
    pub ccwRot60: i32,
}

/// The number that stands where a base cell has no neighbour.
pub const INVALID_BASE_CELL: i32 = 127;

/// The largest component at which the faces' tables can be looked up.
pub const MAX_FACE_COORD: i32 = 2;

/// Whether a number names a base cell.
pub open spec fn is_base_cell(base_cell: int) -> bool {
    0 <= base_cell < 122
}

/// Whether a base cell is one of the two pentagons at the poles of the
/// icosahedron.
pub open spec fn is_base_cell_polar_pentagon(base_cell: int) -> bool {
    base_cell == 4 || base_cell == 117
}

/// The cell of resolution 0 that a base cell is.
pub open spec fn res0_cell(base_cell: int) -> u64 {
    with_base_cell(with_mode(H3_INIT, 1), base_cell as u64)
}

/// What the tables of the base cells hold: the cell itself stands in the
/// direction of the centre; a neighbour is a base cell, with fewer than six
/// turns into its frame, or it is missing, and it is missing exactly in the
/// `k` direction of a pentagon.
pub proof fn lemma_base_cell_neighbors(base_cell: int, dir: int)
    requires
        is_base_cell(base_cell),
        0 <= dir <= 6,
    ensures
        base_cell_neighbor(base_cell, 0) == base_cell,
        base_cell_neighbor(base_cell, dir) == INVALID_BASE_CELL <==> (is_base_cell_pentagon(
            base_cell,
        ) && dir == 1),
        base_cell_neighbor(base_cell, dir) != INVALID_BASE_CELL ==> is_base_cell(
            base_cell_neighbor(base_cell, dir),
        ) && 0 <= base_cell_neighbor_rotations(base_cell, dir) <= 5,
{
    lemma_neighbor_of_center(base_cell);
    if dir == 1 {
        lemma_neighbor_k(base_cell);
        lemma_neighbor_rotations_k(base_cell);
    } else {
        lemma_neighbor_range(base_cell, dir);
        lemma_neighbor_rotations_range(base_cell, dir);
    }
}

/// The cell of resolution 0 of a base cell is a cell, of that base cell.
pub proof fn lemma_res0_cell(base_cell: int)
    requires
        is_base_cell(base_cell),
    ensures
        is_valid_cell(res0_cell(base_cell)),
        self::base_cell(res0_cell(base_cell)) == base_cell,
        resolution(res0_cell(base_cell)) == 0,
{
    let set = with_mode(H3_INIT, 1);
    let cell = res0_cell(base_cell);
    crate::h3_index::lemma_init_index();
    crate::h3_index::lemma_with_mode(H3_INIT, 1);
    crate::h3_index::lemma_with_base_cell(set, base_cell as u64);
    crate::h3_index::lemma_same_digits(set, H3_INIT);
    crate::h3_index::lemma_same_digits(cell, set);
    assert forall|r: int| 0 < r <= 15 implies index_digit(cell, r) == Direction::InvalidDigit by {
        crate::h3_index::lemma_digit_shift(r);
    }
}

/// Whether a base cell is a pentagon at a pole, all of whose neighbours
/// face it.
pub fn _isBaseCellPolarPentagon(baseCell: i32) -> (polar: bool)
    ensures
        polar == is_base_cell_polar_pentagon(baseCell as int),
{
    baseCell == 4 || baseCell == 117
}

/// The base cell at a resolution-0 coordinate of a face, with the turns
/// from the frame of the face into the frame of the base cell.
pub fn faceIjkBaseCells(h: &FaceIJK) -> (orient: BaseCellOrient)
    requires
        is_face_lookup(*h),
    ensures
        orient.baseCell == face_ijk_base_cell(*h),
        orient.ccwRot60 == face_ijk_base_cell_rotations(*h),
        is_base_cell(orient.baseCell as int),
        0 <= orient.ccwRot60 <= 5,
{
    BaseCellOrient { baseCell: _faceIjkToBaseCell(h), ccwRot60: _faceIjkToBaseCellCCWrot60(h) }
}

/// What is known of a base cell.
pub fn baseCellData(baseCell: i32) -> (data: BaseCellData)
    requires
        is_base_cell(baseCell as int),
    ensures
        data.homeFijk == home_fijk(baseCell as int),
        (data.isPentagon != 0) == is_base_cell_pentagon(baseCell as int),
        (data.cwOffsetPent[0] as int, data.cwOffsetPent[1] as int) == cw_offset_faces(
            baseCell as int,
        ),
        is_face_lookup(data.homeFijk),
{
    BaseCellData {
        homeFijk: homeFijk(baseCell),
        isPentagon: if _isBaseCellPentagon(baseCell) {
            1
        } else {
            0
        },
        cwOffsetPent: cwOffsetPent(baseCell),
    }
}

/// The number of cells of resolution 0.
pub fn res0CellCount() -> (count: i32)
    ensures
        count == 122,
{
    NUM_BASE_CELLS
}

/// All the cells of resolution 0, by base cell.
pub fn getRes0Cells() -> (cells: Result<Vec<H3Index>, Error>)
    ensures
        cells is Ok,
        cells->Ok_0@.len() == 122,
        forall|bc: int| 0 <= bc < 122 ==> #[trigger] cells->Ok_0@[bc] == res0_cell(bc),
        forall|bc: int|
            0 <= bc < 122 ==> is_valid_cell(#[trigger] cells->Ok_0@[bc]) && base_cell(
                cells->Ok_0@[bc],
            ) == bc && resolution(cells->Ok_0@[bc]) == 0,
{
    proof {
        assert forall|bc: int| 0 <= bc < 122 implies is_valid_cell(#[trigger] res0_cell(bc))
            && base_cell(res0_cell(bc)) == bc && resolution(res0_cell(bc)) == 0 by {
            lemma_res0_cell(bc);
        }
    }
    let mut out: Vec<H3Index> = Vec::new();
    let mut bc: i32 = 0;
    while bc < NUM_BASE_CELLS
        invariant
            0 <= bc <= 122,
            out@.len() == bc,
            forall|b: int| 0 <= b < bc ==> #[trigger] out@[b] == res0_cell(b),
        decreases 122 - bc,
    {
        let mut baseCell: H3Index = H3_INIT;
        H3_SET_MODE(&mut baseCell, H3_CELL_MODE);
        H3_SET_BASE_CELL(&mut baseCell, bc);
        out.push(baseCell);
        bc = bc + 1;
    }
    Ok(out)
}

} // verus!
