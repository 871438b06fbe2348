use vstd::prelude::*;
use crate::face_ijk::FaceIJK;

verus! {

/// The base cell at each resolution-0 coordinate of each face: by face, then
/// by `i`, `j` and `k`, each from 0 to 2.
pub const FACE_IJK_BASE_CELLS: [[[[i32; 3]; 3]; 3]; 20] = [
    [
        [[16, 18, 24], [33, 30, 32], [49, 48, 50]],
        [[8, 5, 10], [22, 16, 18], [41, 33, 30]],
        [[4, 0, 2], [15, 8, 5], [31, 22, 16]],
    ],
    [
        [[2, 6, 14], [10, 11, 17], [24, 23, 25]],
        [[0, 1, 9], [5, 2, 6], [18, 10, 11]],
        [[4, 3, 7], [8, 0, 1], [16, 5, 2]],
    ],
    [
        [[7, 21, 38], [9, 19, 34], [14, 20, 36]],
        [[3, 13, 29], [1, 7, 21], [6, 9, 19]],
        [[4, 12, 26], [0, 3, 13], [2, 1, 7]],
    ],
    [
        [[26, 42, 58], [29, 43, 62], [38, 47, 64]],
        [[12, 28, 44], [13, 26, 42], [21, 29, 43]],
        [[4, 15, 31], [3, 12, 28], [7, 13, 26]],
    ],
    [
        [[31, 41, 49], [44, 53, 61], [58, 65, 75]],
        [[15, 22, 33], [28, 31, 41], [42, 44, 53]],
        [[4, 8, 16], [12, 15, 22], [26, 28, 31]],
    ],
    [
        [[50, 48, 49], [32, 30, 33], [24, 18, 16]],
        [[70, 67, 66], [52, 50, 48], [37, 32, 30]],
        [[83, 87, 85], [74, 70, 67], [57, 52, 50]],
    ],
    [
        [[25, 23, 24], [17, 11, 10], [14, 6, 2]],
        [[45, 39, 37], [35, 25, 23], [27, 17, 11]],
        [[63, 59, 57], [56, 45, 39], [46, 35, 25]],
    ],
    [
        [[36, 20, 14], [34, 19, 9], [38, 21, 7]],
        [[55, 40, 27], [54, 36, 20], [51, 34, 19]],
        [[72, 60, 46], [73, 55, 40], [71, 54, 36]],
    ],
    [
        [[64, 47, 38], [62, 43, 29], [58, 42, 26]],
        [[84, 69, 51], [82, 64, 47], [76, 62, 43]],
        [[97, 89, 71], [98, 84, 69], [96, 82, 64]],
    ],
    [
        [[75, 65, 58], [61, 53, 44], [49, 41, 31]],
        [[94, 86, 76], [81, 75, 65], [66, 61, 53]],
        [[107, 104, 96], [101, 94, 86], [85, 81, 75]],
    ],
    [
        [[57, 59, 63], [74, 78, 79], [83, 92, 95]],
        [[37, 39, 45], [52, 57, 59], [70, 74, 78]],
        [[24, 23, 25], [32, 37, 39], [50, 52, 57]],
    ],
    [
        [[46, 60, 72], [56, 68, 80], [63, 77, 90]],
        [[27, 40, 55], [35, 46, 60], [45, 56, 68]],
        [[14, 20, 36], [17, 27, 40], [25, 35, 46]],
    ],
    [
        [[71, 89, 97], [73, 91, 103], [72, 88, 105]],
        [[51, 69, 84], [54, 71, 89], [55, 73, 91]],
        [[38, 47, 64], [34, 51, 69], [36, 54, 71]],
    ],
    [
        [[96, 104, 107], [98, 110, 115], [97, 111, 119]],
        [[76, 86, 94], [82, 96, 104], [84, 98, 110]],
        [[58, 65, 75], [62, 76, 86], [64, 82, 96]],
    ],
    [
        [[85, 87, 83], [101, 102, 100], [107, 112, 114]],
        [[66, 67, 70], [81, 85, 87], [94, 101, 102]],
        [[49, 48, 50], [61, 66, 67], [75, 81, 85]],
    ],
    [
        [[95, 92, 83], [79, 78, 74], [63, 59, 57]],
        [[109, 108, 100], [93, 95, 92], [77, 79, 78]],
        [[117, 118, 114], [106, 109, 108], [90, 93, 95]],
    ],
    [
        [[90, 77, 63], [80, 68, 56], [72, 60, 46]],
        [[106, 93, 79], [99, 90, 77], [88, 80, 68]],
        [[117, 109, 95], [113, 106, 93], [105, 99, 90]],
    ],
    [
        [[105, 88, 72], [103, 91, 73], [97, 89, 71]],
        [[113, 99, 80], [116, 105, 88], [111, 103, 91]],
        [[117, 106, 90], [121, 113, 99], [119, 116, 105]],
    ],
    [
        [[119, 111, 97], [115, 110, 98], [107, 104, 96]],
        [[121, 116, 103], [120, 119, 111], [112, 115, 110]],
        [[117, 113, 105], [118, 121, 116], [114, 120, 119]],
    ],
    [
        [[114, 112, 107], [100, 102, 101], [83, 87, 85]],
        [[118, 120, 115], [108, 114, 112], [92, 100, 102]],
        [[117, 121, 119], [109, 118, 120], [95, 108, 114]],
    ],
];

/// Whether the faces' tables can be looked up at a coordinate.
pub open spec fn is_face_lookup(h: FaceIJK) -> bool {
    &&& 0 <= h.face < 20
    &&& 0 <= h.coord.i <= 2
    &&& 0 <= h.coord.j <= 2
    &&& 0 <= h.coord.k <= 2
}

/// The base cell at a resolution-0 coordinate of a face, as the table has
/// it.
#[verifier::opaque]
pub open spec fn face_ijk_base_cell(h: FaceIJK) -> int {
    FACE_IJK_BASE_CELLS[h.face as int][h.coord.i as int][h.coord.j as int][h.coord.k as int] as int
}

/// At every lookup coordinate of every face stands a base cell.
pub proof fn lemma_face_base_cells(h: FaceIJK)
    requires
        is_face_lookup(h),
    ensures
        0 <= face_ijk_base_cell(h) < 122,
{
    reveal(face_ijk_base_cell);
}

/// The base cell at a resolution-0 coordinate of a face.
pub fn _faceIjkToBaseCell(h: &FaceIJK) -> (baseCell: i32)
    requires
        is_face_lookup(*h),
    ensures
        baseCell == face_ijk_base_cell(*h),
        0 <= baseCell < 122,
{
    proof {
        reveal(face_ijk_base_cell);
    }
    proof {
        lemma_face_base_cells(*h);
    }
    FACE_IJK_BASE_CELLS[h.face as usize][h.coord.i as usize][h.coord.j as usize][h.coord.k as usize]
}

} // verus!
