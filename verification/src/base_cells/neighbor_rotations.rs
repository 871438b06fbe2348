use vstd::prelude::*;

verus! {

/// The number of counter-clockwise turns from the frame of each base cell
/// into the frame of its neighbour in each direction; -1 where there is no
/// neighbour.
pub const BASE_CELL_NEIGHBOR_60CCW_ROTS: [[i32; 7]; 122] = [
    [0, 5, 0, 0, 1, 5, 1],
    [0, 0, 1, 0, 1, 0, 1],
    [0, 0, 0, 0, 0, 5, 0],
    [0, 5, 0, 0, 2, 5, 1],
    [0, -1, 1, 0, 3, 4, 2],
    [0, 0, 1, 0, 1, 0, 1],
    [0, 0, 0, 3, 5, 5, 0],
    [0, 0, 0, 0, 0, 5, 0],
    [0, 5, 0, 0, 0, 5, 1],
    [0, 0, 1, 3, 0, 0, 1],
    [0, 0, 1, 3, 0, 0, 1],
    [0, 3, 3, 3, 0, 0, 0],
    [0, 5, 0, 0, 3, 5, 1],
    [0, 0, 1, 0, 1, 0, 1],
    [0, -1, 3, 0, 5, 2, 0],
    [0, 5, 0, 0, 4, 5, 1],
    [0, 0, 0, 0, 0, 5, 0],
    [0, 3, 3, 3, 3, 0, 3],
    [0, 0, 0, 3, 5, 5, 0],
    [0, 3, 3, 3, 0, 0, 0],
    [0, 3, 3, 3, 0, 3, 0],
    [0, 0, 0, 3, 5, 5, 0],
    [0, 0, 1, 0, 1, 0, 1],
    [0, 3, 3, 3, 0, 3, 0],
    [0, -1, 3, 0, 5, 2, 0],
    [0, 0, 0, 3, 0, 0, 3],
    [0, 0, 0, 0, 0, 5, 0],
    [0, 3, 0, 0, 0, 3, 3],
    [0, 0, 1, 0, 1, 0, 1],
    [0, 0, 1, 3, 0, 0, 1],
    [0, 3, 3, 3, 0, 0, 0],
    [0, 0, 0, 0, 0, 5, 0],
    [0, 3, 3, 3, 3, 0, 3],
    [0, 0, 1, 3, 0, 0, 1],
    [0, 3, 3, 3, 3, 0, 3],
    [0, 0, 3, 0, 3, 0, 3],
    [0, 0, 0, 3, 0, 0, 3],
    [0, 3, 0, 0, 0, 3, 3],
    [0, -1, 3, 0, 5, 2, 0],
    [0, 3, 0, 0, 3, 3, 0],
    [0, 3, 0, 0, 3, 3, 0],
    [0, 0, 0, 3, 5, 5, 0],
    [0, 0, 0, 3, 5, 5, 0],
    [0, 3, 3, 3, 0, 0, 0],
    [0, 0, 1, 3, 0, 0, 1],
    [0, 0, 3, 0, 0, 3, 3],
    [0, 0, 0, 3, 0, 3, 0],
    [0, 3, 3, 3, 0, 3, 0],
    [0, 3, 3, 3, 0, 3, 0],
    [0, -1, 3, 0, 5, 2, 0],
    [0, 0, 0, 3, 0, 0, 3],
    [0, 3, 0, 0, 0, 3, 3],
    [0, 0, 3, 0, 3, 0, 3],
    [0, 3, 3, 3, 0, 0, 0],
    [0, 0, 3, 0, 3, 0, 3],
    [0, 0, 3, 0, 0, 3, 3],
    [0, 3, 3, 3, 0, 0, 3],
    [0, 0, 0, 3, 0, 3, 0],
    [0, -1, 3, 0, 5, 2, 0],
    [0, 3, 3, 3, 3, 3, 0],
    [0, 3, 3, 3, 3, 3, 0],
    [0, 3, 3, 3, 3, 0, 3],
    [0, 3, 3, 3, 3, 0, 3],
    [0, -1, 3, 0, 5, 2, 0],
    [0, 0, 0, 3, 0, 0, 3],
    [0, 3, 3, 3, 0, 3, 0],
    [0, 3, 0, 0, 0, 3, 3],
    [0, 3, 0, 0, 3, 3, 0],
    [0, 3, 3, 3, 0, 0, 0],
    [0, 3, 0, 0, 3, 3, 0],
    [0, 0, 3, 0, 0, 3, 3],
    [0, 0, 0, 3, 0, 3, 0],
    [0, -1, 3, 0, 5, 2, 0],
    [0, 3, 3, 3, 0, 0, 3],
    [0, 3, 3, 3, 0, 0, 3],
    [0, 0, 0, 3, 0, 0, 3],
    [0, 3, 0, 0, 0, 3, 3],
    [0, 0, 0, 3, 0, 5, 0],
    [0, 3, 3, 3, 0, 0, 0],
    [0, 0, 1, 3, 1, 0, 1],
    [0, 0, 1, 3, 1, 0, 1],
    [0, 0, 3, 0, 3, 0, 3],
    [0, 0, 3, 0, 3, 0, 3],
    [0, -1, 3, 0, 5, 2, 0],
    [0, 0, 3, 0, 0, 3, 3],
    [0, 0, 0, 3, 0, 3, 0],
    [0, 3, 0, 0, 3, 3, 0],
    [0, 3, 3, 3, 3, 3, 0],
    [0, 0, 0, 3, 0, 5, 0],
    [0, 3, 3, 3, 3, 3, 0],
    [0, 0, 0, 0, 0, 0, 1],
    [0, 3, 3, 3, 0, 0, 0],
    [0, 0, 0, 3, 0, 5, 0],
    [0, 5, 0, 0, 5, 5, 0],
    [0, 0, 3, 0, 0, 3, 3],
    [0, 0, 0, 0, 0, 0, 1],
    [0, 0, 0, 3, 0, 3, 0],
    [0, -1, 3, 0, 5, 2, 0],
    [0, 3, 3, 3, 0, 0, 3],
    [0, 5, 0, 0, 5, 5, 0],
    [0, 0, 1, 3, 1, 0, 1],
    [0, 3, 3, 3, 0, 0, 3],
    [0, 3, 3, 3, 0, 0, 0],
    [0, 0, 1, 3, 1, 0, 1],
    [0, 3, 3, 3, 3, 3, 0],
    [0, 0, 0, 0, 0, 0, 1],
    [0, 0, 1, 0, 3, 5, 1],
    [0, -1, 3, 0, 5, 2, 0],
    [0, 5, 0, 0, 5, 5, 0],
    [0, 0, 1, 0, 4, 5, 1],
    [0, 3, 3, 3, 0, 0, 0],
    [0, 0, 0, 3, 0, 5, 0],
    [0, 0, 0, 3, 0, 5, 0],
    [0, 0, 1, 0, 2, 5, 1],
    [0, 0, 0, 0, 0, 0, 1],
    [0, 0, 1, 3, 1, 0, 1],
    [0, 5, 0, 0, 5, 5, 0],
    [0, -1, 1, 0, 3, 4, 2],
    [0, 0, 1, 0, 0, 5, 1],
    [0, 0, 0, 0, 0, 0, 1],
    [0, 5, 0, 0, 5, 5, 0],
    [0, 0, 1, 0, 1, 5, 1],
];

/// The turns from the frame of a base cell into that of its neighbour, as
/// the table has them.
#[verifier::opaque]
pub open spec fn base_cell_neighbor_rotations(base_cell: int, dir: int) -> int {
    BASE_CELL_NEIGHBOR_60CCW_ROTS[base_cell][dir] as int
}

/// In every direction but `k` the turns are fewer than six.
pub proof fn lemma_neighbor_rotations_range(base_cell: int, dir: int)
    requires
        0 <= base_cell < 122,
        0 <= dir <= 6,
        dir != 1,
    ensures
        0 <= base_cell_neighbor_rotations(base_cell, dir) <= 5,
{
    reveal(base_cell_neighbor_rotations);
}

/// In the `k` direction the turns are fewer than six for all but twelve
/// base cells, for which they are -1.
pub proof fn lemma_neighbor_rotations_k(base_cell: int)
    requires
        0 <= base_cell < 122,
    ensures
        -1 <= base_cell_neighbor_rotations(base_cell, 1) <= 5,
        base_cell_neighbor_rotations(base_cell, 1) == -1 <==> (base_cell == 4 || base_cell == 14
            || base_cell == 24 || base_cell == 38 || base_cell == 49 || base_cell == 58
            || base_cell == 63 || base_cell == 72 || base_cell == 83 || base_cell == 97
            || base_cell == 107 || base_cell == 117),
{
    reveal(base_cell_neighbor_rotations);
}

/// The number of counter-clockwise turns from the frame of a base cell into
/// the frame of its neighbour in a direction, -1 where there is none.
pub fn baseCellNeighbor60CCWRots(baseCell: i32, dir: usize) -> (turns: i32)
    requires
        0 <= baseCell < 122,
        dir <= 6,
    ensures
        turns == base_cell_neighbor_rotations(baseCell as int, dir as int),
        0 <= turns <= 5 || (dir == 1 && turns == -1),
{
    proof {
        reveal(base_cell_neighbor_rotations);
    }
    proof {
        if dir == 1 {
            lemma_neighbor_rotations_k(baseCell as int);
        } else {
            lemma_neighbor_rotations_range(baseCell as int, dir as int);
        }
    }
    BASE_CELL_NEIGHBOR_60CCW_ROTS[baseCell as usize][dir]
}

} // verus!
