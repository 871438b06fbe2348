use vstd::prelude::*;
use crate::algos::digit_tables::{lemma_digit_tables, new_adjustment, new_digit};
use crate::algos::gathering::{is_reached_in, neighbor_on};
use crate::algos::{
    cross_base_cell, disk_cursor, finish_step, h3_neighbor_rotations, leave_k_subsequence,
    lemma_rotated_ccw_times_valid, ring_cursor, ring_direction, ring_start, side_step,
    walk_digits, Step,
};
use crate::base_cells::lemma_base_cell_neighbors;
use crate::base_cells::neighbor_rotations::base_cell_neighbor_rotations;
use crate::base_cells::neighbors::base_cell_neighbor;
use crate::base_cells::pentagons::is_base_cell_pentagon;
use crate::coord_ijk::{Direction, lemma_direction_value_round_trip};
use crate::h3_index::validity::{
    is_cell_layout, lemma_rotate60_layout, lemma_rotate60_times_layout,
    lemma_rotate_pent60_times_layout, lemma_valid_cell_layout, lemma_with_base_cell_layout,
    lemma_with_index_digit_layout,
};
use crate::h3_index::{
    base_cell, header, index_digit, is_class_iii, is_valid_cell, leading_non_zero_digit,
    lemma_field_bounds, lemma_header_fields, resolution, with_index_digit,
};

verus! {

/// The walk through the digits of an index laid out as a cell leaves such
/// an index, with the same fields above the digits, and a direction that
/// is a move.
pub proof fn lemma_walk_digits_layout(h: u64, dir: Direction, res: int)
    requires
        is_cell_layout(h),
        dir != Direction::InvalidDigit,
        0 <= res <= resolution(h),
        walk_digits(h, dir, res) is Ok,
    ensures
        is_cell_layout(walk_digits(h, dir, res)->Ok_0.index),
        header(walk_digits(h, dir, res)->Ok_0.index) == header(h),
        walk_digits(h, dir, res)->Ok_0.dir != Direction::InvalidDigit,
    decreases res,
{
    if res > 0 {
        let digit = index_digit(h, res);
        lemma_digit_tables(is_class_iii(res), digit, dir);
        let replaced = with_index_digit(h, res, new_digit(is_class_iii(res), digit, dir));
        lemma_with_index_digit_layout(h, res, new_digit(is_class_iii(res), digit, dir));
        let next = new_adjustment(is_class_iii(res), digit, dir);
        if next != Direction::CenterDigit {
            lemma_walk_digits_layout(replaced, next, res - 1);
        }
    }
}

/// The step into a neighbouring base cell leaves an index laid out as a
/// cell, of the same resolution, with fewer than six turns.
pub proof fn lemma_cross_base_cell_layout(h: u64, dir: Direction)
    requires
        is_cell_layout(h),
        dir != Direction::InvalidDigit,
    ensures
        is_cell_layout(cross_base_cell(h, dir).index),
        resolution(cross_base_cell(h, dir).index) == resolution(h),
        0 <= cross_base_cell(h, dir).turns <= 5,
        0 <= cross_base_cell(h, dir).gained <= 1,
{
    let bc = base_cell(h) as int;
    lemma_direction_value_round_trip(dir, 0);
    lemma_base_cell_neighbors(bc, dir.value());
    lemma_base_cell_neighbors(bc, 5);
    if base_cell_neighbor(bc, dir.value()) == 127 {
        let moved = crate::h3_index::with_base_cell(h, base_cell_neighbor(bc, 5) as u64);
        lemma_with_base_cell_layout(h, base_cell_neighbor(bc, 5) as u64);
        lemma_rotate60_layout(moved);
    } else {
        lemma_with_base_cell_layout(h, base_cell_neighbor(bc, dir.value()) as u64);
    }
}

/// A step from an index laid out as a cell leads to a cell of the same
/// resolution, and leaves fewer than six turns for the step after it.
pub proof fn lemma_neighbor_is_cell(origin: u64, dir: Direction, rotations: int)
    requires
        is_cell_layout(origin),
        0 <= rotations,
        h3_neighbor_rotations(origin, dir, rotations) is Ok,
    ensures
        is_valid_cell(h3_neighbor_rotations(origin, dir, rotations)->Ok_0.index),
        resolution(h3_neighbor_rotations(origin, dir, rotations)->Ok_0.index) == resolution(
            origin,
        ),
        0 <= h3_neighbor_rotations(origin, dir, rotations)->Ok_0.rotations < 6,
{
    let step = h3_neighbor_rotations(origin, dir, rotations)->Ok_0;
    let turned = dir.rotated_ccw_times(rotations as nat);
    lemma_rotated_ccw_times_valid(dir, rotations as nat);
    lemma_field_bounds(origin);
    let walk = walk_digits(origin, turned, resolution(origin) as int)->Ok_0;
    lemma_walk_digits_layout(origin, turned, resolution(origin) as int);
    lemma_header_fields(walk.index, origin);
    let crossed = if walk.leaves_base_cell {
        cross_base_cell(walk.index, walk.dir).index
    } else {
        walk.index
    };
    let turns = if walk.leaves_base_cell {
        cross_base_cell(walk.index, walk.dir).turns
    } else {
        0
    };
    if walk.leaves_base_cell {
        lemma_cross_base_cell_layout(walk.index, walk.dir);
    }
    let new_base_cell = base_cell(crossed) as int;
    if is_base_cell_pentagon(new_base_cell) {
        let detour = leave_k_subsequence(
            crossed,
            base_cell(origin) as int,
            new_base_cell,
            leading_non_zero_digit(origin),
        )->Ok_0;
        lemma_rotate60_layout(crossed);
        lemma_rotate_pent60_times_layout(detour.index, turns as nat);
        lemma_valid_cell_layout(step.index);
    } else {
        lemma_rotate60_times_layout(crossed, turns as nat);
        lemma_valid_cell_layout(step.index);
    }
}

/// Every cell of the walk around the disk of a cell is a cell.
pub proof fn lemma_disk_cells_are_valid(origin: u64, n: nat)
    requires
        is_valid_cell(origin),
        disk_cursor(origin, n) is Ok,
    ensures
        is_valid_cell(disk_cursor(origin, n)->Ok_0.at.index),
        0 <= disk_cursor(origin, n)->Ok_0.at.rotations < 6,
    decreases n,
{
    if n > 0 {
        let c = disk_cursor(origin, (n - 1) as nat)->Ok_0;
        lemma_disk_cells_are_valid(origin, (n - 1) as nat);
        lemma_valid_cell_layout(c.at.index);
        if c.side == 0 && c.pos == 0 {
            lemma_neighbor_is_cell(c.at.index, crate::algos::NEXT_RING_DIRECTION, c.at.rotations);
            let start = h3_neighbor_rotations(
                c.at.index,
                crate::algos::NEXT_RING_DIRECTION,
                c.at.rotations,
            )->Ok_0;
            lemma_valid_cell_layout(start.index);
            lemma_neighbor_is_cell(start.index, ring_direction(c.side), start.rotations);
        } else {
            lemma_neighbor_is_cell(c.at.index, ring_direction(c.side), c.at.rotations);
        }
    }
}

/// The cell from which the walk around a ring starts is a cell.
pub proof fn lemma_ring_start_is_valid(origin: u64, k: nat)
    requires
        is_valid_cell(origin),
        ring_start(origin, k) is Ok,
    ensures
        is_valid_cell(ring_start(origin, k)->Ok_0.index),
        0 <= ring_start(origin, k)->Ok_0.rotations < 6,
    decreases k,
{
    if k > 0 {
        let at = ring_start(origin, (k - 1) as nat)->Ok_0;
        lemma_ring_start_is_valid(origin, (k - 1) as nat);
        lemma_valid_cell_layout(at.index);
        lemma_neighbor_is_cell(at.index, crate::algos::NEXT_RING_DIRECTION, at.rotations);
    }
}

/// Every cell of the walk around a ring is a cell.
pub proof fn lemma_ring_cells_are_valid(start: Step, k: int, n: nat)
    requires
        is_valid_cell(start.index),
        0 <= start.rotations,
        ring_cursor(start, k, n) is Ok,
    ensures
        is_valid_cell(ring_cursor(start, k, n)->Ok_0.at.index),
        0 <= ring_cursor(start, k, n)->Ok_0.at.rotations,
    decreases n,
{
    if n > 0 {
        let c = ring_cursor(start, k, (n - 1) as nat)->Ok_0;
        lemma_ring_cells_are_valid(start, k, (n - 1) as nat);
        lemma_valid_cell_layout(c.at.index);
        lemma_neighbor_is_cell(c.at.index, ring_direction(c.side), c.at.rotations);
    }
}

/// Every cell that is reached from a cell in steps to neighbours is a
/// cell.
pub proof fn lemma_reached_is_valid(origin: u64, cell: u64, n: nat)
    requires
        is_valid_cell(origin),
        is_reached_in(origin, cell, n),
    ensures
        is_valid_cell(cell),
    decreases n,
{
    if n > 0 {
        let (prev, side) = choose|prev: u64, side: int|
            0 <= side < 6 && prev != 0 && #[trigger] neighbor_on(prev, side) == Some(cell)
                && is_reached_in(origin, prev, (n - 1) as nat);
        lemma_reached_is_valid(origin, prev, (n - 1) as nat);
        lemma_valid_cell_layout(prev);
        reveal(side_step);
        lemma_neighbor_is_cell(prev, ring_direction(side), 0);
    }
}

} // verus!
