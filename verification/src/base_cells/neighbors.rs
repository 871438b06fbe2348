use vstd::prelude::*;

verus! {

/// The neighbour of each base cell in each of the seven directions; 127
/// where there is none.
pub const BASE_CELL_NEIGHBORS: [[i32; 7]; 122] = [
    [0, 1, 5, 2, 4, 3, 8],
    [1, 7, 6, 9, 0, 3, 2],
    [2, 6, 10, 11, 0, 1, 5],
    [3, 13, 1, 7, 4, 12, 0],
    [4, 127, 15, 8, 3, 0, 12],
    [5, 2, 18, 10, 8, 0, 16],
    [6, 14, 11, 17, 1, 9, 2],
    [7, 21, 9, 19, 3, 13, 1],
    [8, 5, 22, 16, 4, 0, 15],
    [9, 19, 14, 20, 1, 7, 6],
    [10, 11, 24, 23, 5, 2, 18],
    [11, 17, 23, 25, 2, 6, 10],
    [12, 28, 13, 26, 4, 15, 3],
    [13, 26, 21, 29, 3, 12, 7],
    [14, 127, 17, 27, 9, 20, 6],
    [15, 22, 28, 31, 4, 8, 12],
    [16, 18, 33, 30, 8, 5, 22],
    [17, 11, 14, 6, 35, 25, 27],
    [18, 24, 30, 32, 5, 10, 16],
    [19, 34, 20, 36, 7, 21, 9],
    [20, 14, 19, 9, 40, 27, 36],
    [21, 38, 19, 34, 13, 29, 7],
    [22, 16, 41, 33, 15, 8, 31],
    [23, 24, 11, 10, 39, 37, 25],
    [24, 127, 32, 37, 10, 23, 18],
    [25, 23, 17, 11, 45, 39, 35],
    [26, 42, 29, 43, 12, 28, 13],
    [27, 40, 35, 46, 14, 20, 17],
    [28, 31, 42, 44, 12, 15, 26],
    [29, 43, 38, 47, 13, 26, 21],
    [30, 32, 48, 50, 16, 18, 33],
    [31, 41, 44, 53, 15, 22, 28],
    [32, 30, 24, 18, 52, 50, 37],
    [33, 30, 49, 48, 22, 16, 41],
    [34, 19, 38, 21, 54, 36, 51],
    [35, 46, 45, 56, 17, 27, 25],
    [36, 20, 34, 19, 55, 40, 54],
    [37, 39, 52, 57, 24, 23, 32],
    [38, 127, 34, 51, 29, 47, 21],
    [39, 37, 25, 23, 59, 57, 45],
    [40, 27, 36, 20, 60, 46, 55],
    [41, 49, 53, 61, 22, 33, 31],
    [42, 58, 43, 62, 28, 44, 26],
    [43, 62, 47, 64, 26, 42, 29],
    [44, 53, 58, 65, 28, 31, 42],
    [45, 39, 35, 25, 63, 59, 56],
    [46, 60, 56, 68, 27, 40, 35],
    [47, 38, 43, 29, 69, 51, 64],
    [48, 49, 30, 33, 67, 66, 50],
    [49, 127, 61, 66, 33, 48, 41],
    [50, 48, 32, 30, 70, 67, 52],
    [51, 69, 54, 71, 38, 47, 34],
    [52, 57, 70, 74, 32, 37, 50],
    [53, 61, 65, 75, 31, 41, 44],
    [54, 71, 55, 73, 34, 51, 36],
    [55, 40, 54, 36, 72, 60, 73],
    [56, 68, 63, 77, 35, 46, 45],
    [57, 59, 74, 78, 37, 39, 52],
    [58, 127, 62, 76, 44, 65, 42],
    [59, 63, 78, 79, 39, 45, 57],
    [60, 72, 68, 80, 40, 55, 46],
    [61, 53, 49, 41, 81, 75, 66],
    [62, 43, 58, 42, 82, 64, 76],
    [63, 127, 56, 45, 79, 59, 77],
    [64, 47, 62, 43, 84, 69, 82],
    [65, 58, 53, 44, 86, 76, 75],
    [66, 67, 81, 85, 49, 48, 61],
    [67, 66, 50, 48, 87, 85, 70],
    [68, 56, 60, 46, 90, 77, 80],
    [69, 51, 64, 47, 89, 71, 84],
    [70, 67, 52, 50, 83, 87, 74],
    [71, 89, 73, 91, 51, 69, 54],
    [72, 127, 73, 55, 80, 60, 88],
    [73, 91, 72, 88, 54, 71, 55],
    [74, 78, 83, 92, 52, 57, 70],
    [75, 65, 61, 53, 94, 86, 81],
    [76, 86, 82, 96, 58, 65, 62],
    [77, 63, 68, 56, 93, 79, 90],
    [78, 74, 59, 57, 95, 92, 79],
    [79, 78, 63, 59, 93, 95, 77],
    [80, 68, 72, 60, 99, 90, 88],
    [81, 85, 94, 101, 61, 66, 75],
    [82, 96, 84, 98, 62, 76, 64],
    [83, 127, 74, 70, 100, 87, 92],
    [84, 69, 82, 64, 97, 89, 98],
    [85, 87, 101, 102, 66, 67, 81],
    [86, 76, 75, 65, 104, 96, 94],
    [87, 83, 102, 100, 67, 70, 85],
    [88, 72, 91, 73, 99, 80, 105],
    [89, 97, 91, 103, 69, 84, 71],
    [90, 77, 80, 68, 106, 93, 99],
    [91, 73, 89, 71, 105, 88, 103],
    [92, 83, 78, 74, 108, 100, 95],
    [93, 79, 90, 77, 109, 95, 106],
    [94, 86, 81, 75, 107, 104, 101],
    [95, 92, 79, 78, 109, 108, 93],
    [96, 104, 98, 110, 76, 86, 82],
    [97, 127, 98, 84, 103, 89, 111],
    [98, 110, 97, 111, 82, 96, 84],
    [99, 80, 105, 88, 106, 90, 113],
    [100, 102, 83, 87, 108, 114, 92],
    [101, 102, 107, 112, 81, 85, 94],
    [102, 101, 87, 85, 114, 112, 100],
    [103, 91, 97, 89, 116, 105, 111],
    [104, 107, 110, 115, 86, 94, 96],
    [105, 88, 103, 91, 113, 99, 116],
    [106, 93, 99, 90, 117, 109, 113],
    [107, 127, 101, 94, 115, 104, 112],
    [108, 100, 95, 92, 118, 114, 109],
    [109, 108, 93, 95, 117, 118, 106],
    [110, 98, 104, 96, 119, 111, 115],
    [111, 97, 110, 98, 116, 103, 119],
    [112, 107, 102, 101, 120, 115, 114],
    [113, 99, 116, 105, 117, 106, 121],
    [114, 112, 100, 102, 118, 120, 108],
    [115, 110, 107, 104, 120, 119, 112],
    [116, 103, 119, 111, 113, 105, 121],
    [117, 127, 109, 118, 113, 121, 106],
    [118, 120, 108, 114, 117, 121, 109],
    [119, 111, 115, 110, 121, 116, 120],
    [120, 115, 114, 112, 121, 119, 118],
    [121, 116, 120, 119, 117, 113, 118],
];

/// The neighbour of a base cell in a direction, as the table has it.
#[verifier::opaque]
pub open spec fn base_cell_neighbor(base_cell: int, dir: int) -> int {
    BASE_CELL_NEIGHBORS[base_cell][dir] as int
}

/// Every base cell is its own neighbour in the direction of the centre.
pub proof fn lemma_neighbor_of_center(base_cell: int)
    requires
        0 <= base_cell < 122,
    ensures
        base_cell_neighbor(base_cell, 0) == base_cell,
{
    reveal(base_cell_neighbor);
}

/// In every direction but `k` a base cell has a neighbour.
pub proof fn lemma_neighbor_range(base_cell: int, dir: int)
    requires
        0 <= base_cell < 122,
        0 <= dir <= 6,
        dir != 1,
    ensures
        0 <= base_cell_neighbor(base_cell, dir) < 122,
{
    reveal(base_cell_neighbor);
}

/// In the `k` direction twelve base cells have no neighbour, and the others
/// have one.
pub proof fn lemma_neighbor_k(base_cell: int)
    requires
        0 <= base_cell < 122,
    ensures
        0 <= base_cell_neighbor(base_cell, 1) < 122 || base_cell_neighbor(base_cell, 1) == 127,
        base_cell_neighbor(base_cell, 1) == 127 <==> (base_cell == 4 || base_cell == 14
            || base_cell == 24 || base_cell == 38 || base_cell == 49 || base_cell == 58
            || base_cell == 63 || base_cell == 72 || base_cell == 83 || base_cell == 97
            || base_cell == 107 || base_cell == 117),
{
    reveal(base_cell_neighbor);
}

/// The neighbour of a base cell in a direction, 127 where there is none.
pub fn baseCellNeighbors(baseCell: i32, dir: usize) -> (neighbor: i32)
    requires
        0 <= baseCell < 122,
        dir <= 6,
    ensures
        neighbor == base_cell_neighbor(baseCell as int, dir as int),
        0 <= neighbor < 122 || (dir == 1 && neighbor == 127),
{
    proof {
        reveal(base_cell_neighbor);
    }
    proof {
        if dir == 1 {
            lemma_neighbor_k(baseCell as int);
        } else {
            lemma_neighbor_range(baseCell as int, dir as int);
        }
    }
    BASE_CELL_NEIGHBORS[baseCell as usize][dir]
}

} // verus!
