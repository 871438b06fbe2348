use vstd::prelude::*;
use crate::algos::digit_tables::{new_adjustment, new_digit, newAdjustment, newDigit};
use crate::base_cells::homes::{home_fijk, homeFijk};
use crate::base_cells::neighbor_rotations::{
    baseCellNeighbor60CCWRots, base_cell_neighbor_rotations, lemma_neighbor_rotations_k,
    lemma_neighbor_rotations_range,
};
use crate::base_cells::neighbors::{
    baseCellNeighbors, base_cell_neighbor, lemma_neighbor_k, lemma_neighbor_range,
};
use crate::base_cells::pentagons::{
    _baseCellIsCwOffset, _isBaseCellPentagon, is_base_cell_pentagon, is_cw_offset,
};
use crate::base_cells::{
    INVALID_BASE_CELL, _isBaseCellPolarPentagon, is_base_cell_polar_pentagon,
};
use crate::constants::NUM_BASE_CELLS;
use crate::coord_ijk::{Direction, _rotate60ccw};
use crate::algos::gathering::{is_gathered_disk, is_reached_in};
use crate::error::Error;
use crate::h3_index::validity::is_cell_layout;
use crate::h3_index::{
    H3Index, H3_GET_BASE_CELL, H3_GET_INDEX_DIGIT, H3_GET_RESOLUTION, H3_SET_BASE_CELL,
    H3_SET_INDEX_DIGIT, _h3LeadingNonZeroDigit, _h3Rotate60ccw, _h3Rotate60ccwTimes, _h3Rotate60cw,
    _h3RotatePent60ccwTimes, base_cell, header, index_digit, isPentagon, isResolutionClassIII,
    is_class_iii, is_pentagon, is_valid_cell, leading_non_zero_digit, lemma_header_fields,
    lemma_rotate60, resolution, rotate60_ccw,
    rotate60_ccw_times, rotate60_cw, rotate_pent60_ccw_times, with_base_cell, with_index_digit,
};

pub mod digit_tables;
pub mod gathering;
pub mod steps;

verus! {

/// The largest count of turns that `h3NeighborRotations` takes.
pub const MAX_ROTATIONS: i32 = 0x7fff_fff0;

/// Where the walk through the digits of an index has led: the index with
/// its digits replaced, the direction that is left to go, and whether the
/// step leaves the base cell.
pub struct DigitWalk {
    pub index: u64,
    pub dir: Direction,
    pub leaves_base_cell: bool,
}

/// A step across the boundary of a base cell: the index in the neighbouring
/// base cell, the turns into its frame, and the turns that the direction of
/// travel gains.
pub struct Crossing {
    pub index: u64,
    pub turns: int,
    pub gained: int,
}

/// An index brought out of the deleted subsequence of a pentagon: the
/// index, the turns that the direction of travel gains, and whether this
/// was done on entering the pentagon's base cell.
pub struct Detour {
    pub index: u64,
    pub gained: int,
    pub on_entry: bool,
}

/// A cell reached by one step, and the turns that orient the next step.
pub struct Step {
    pub index: u64,
    pub rotations: int,
}

/// One step in the direction `dir`, from the digit of resolution `res`
/// upwards: the digit is replaced as the tables say, and while the tables
/// name a direction for the parent, the parent moves in turn. The walk ends
/// where a parent stays, or when the base cell itself has to move. An
/// unused digit among those walked through shows an index that is no cell.
pub open spec fn walk_digits(h: u64, dir: Direction, res: int) -> Result<DigitWalk, Error>
    decreases res,
{
    if res <= 0 {
        Ok(DigitWalk { index: h, dir, leaves_base_cell: true })
    } else if index_digit(h, res) == Direction::InvalidDigit {
        Err(Error::CellInvalid)
    } else {
        let digit = index_digit(h, res);
        let replaced = with_index_digit(h, res, new_digit(is_class_iii(res), digit, dir));
        let next = new_adjustment(is_class_iii(res), digit, dir);
        if next == Direction::CenterDigit {
            Ok(DigitWalk { index: replaced, dir, leaves_base_cell: false })
        } else {
            walk_digits(replaced, next, res - 1)
        }
    }
}

/// The step from one base cell into its neighbour in the direction `dir`.
/// Where a pentagon has no neighbour in that direction, the edge borders
/// the neighbour in the `ik` direction instead, and the index is turned
/// past the subsequence that is skipped.
pub open spec fn cross_base_cell(h: u64, dir: Direction) -> Crossing {
    let bc = base_cell(h) as int;
    if base_cell_neighbor(bc, dir.value()) == INVALID_BASE_CELL {
        Crossing {
            index: rotate60_ccw(with_base_cell(h, base_cell_neighbor(bc, 5) as u64)),
            turns: base_cell_neighbor_rotations(bc, 5),
            gained: 1,
        }
    } else {
        Crossing {
            index: with_base_cell(h, base_cell_neighbor(bc, dir.value()) as u64),
            turns: base_cell_neighbor_rotations(bc, dir.value()),
            gained: 0,
        }
    }
}

/// An index in the base cell of a pentagon whose first move lies on the
/// deleted `k` axis is turned out of it. On entering the base cell from
/// another one, it is turned clockwise where the pentagon is met clockwise
/// on the home face of the base cell left behind, else counter-clockwise.
/// Within the base cell, it depends on the first move of the cell that the
/// step started from: from the pentagon itself there is no such step.
pub open spec fn leave_k_subsequence(
    current: u64,
    old_base_cell: int,
    new_base_cell: int,
    old_leading_digit: Direction,
) -> Result<Detour, Error> {
    if leading_non_zero_digit(current) != Direction::KAxesDigit {
        Ok(Detour { index: current, gained: 0, on_entry: false })
    } else if old_base_cell != new_base_cell {
        if is_cw_offset(new_base_cell, home_fijk(old_base_cell).face as int) {
            Ok(Detour { index: rotate60_cw(current), gained: 0, on_entry: true })
        } else {
            Ok(Detour { index: rotate60_ccw(current), gained: 0, on_entry: true })
        }
    } else if old_leading_digit == Direction::CenterDigit {
        Err(Error::Pentagon)
    } else if old_leading_digit == Direction::JKAxesDigit {
        Ok(Detour { index: rotate60_ccw(current), gained: 1, on_entry: false })
    } else if old_leading_digit == Direction::IKAxesDigit {
        Ok(Detour { index: rotate60_cw(current), gained: 5, on_entry: false })
    } else {
        Err(Error::Failed)
    }
}

/// The turn that the direction of travel gains on entering the base cell of
/// a pentagon, whose frame does not lie as those of other base cells do.
pub open spec fn entry_turn(
    current: u64,
    old_base_cell: int,
    new_base_cell: int,
    on_entry: bool,
) -> int {
    if old_base_cell == new_base_cell {
        0
    } else if is_base_cell_polar_pentagon(new_base_cell) {
        if old_base_cell != 118 && old_base_cell != 8 && leading_non_zero_digit(current)
            != Direction::JKAxesDigit {
            1
        } else {
            0
        }
    } else if leading_non_zero_digit(current) == Direction::IKAxesDigit && !on_entry {
        1
    } else {
        0
    }
}

/// The cell reached once the digits have been walked through.
pub open spec fn finish_step(
    origin: u64,
    walk: DigitWalk,
    rotations: int,
) -> Result<Step, Error> {
    let old_base_cell = base_cell(origin) as int;
    let crossing = if walk.leaves_base_cell {
        cross_base_cell(walk.index, walk.dir)
    } else {
        Crossing { index: walk.index, turns: 0, gained: 0 }
    };
    let new_base_cell = base_cell(crossing.index) as int;
    if is_base_cell_pentagon(new_base_cell) {
        match leave_k_subsequence(
            crossing.index,
            old_base_cell,
            new_base_cell,
            leading_non_zero_digit(origin),
        ) {
            Err(e) => Err(e),
            Ok(detour) => {
                let index = rotate_pent60_ccw_times(detour.index, crossing.turns as nat);
                Ok(
                    Step {
                        index,
                        rotations: (rotations + crossing.gained + detour.gained + entry_turn(
                            index,
                            old_base_cell,
                            new_base_cell,
                            detour.on_entry,
                        ) + crossing.turns) % 6,
                    },
                )
            },
        }
    } else {
        Ok(
            Step {
                index: rotate60_ccw_times(crossing.index, crossing.turns as nat),
                rotations: (rotations + crossing.gained + crossing.turns) % 6,
            },
        )
    }
}

/// The neighbour of a cell in a direction, with the turns that orient the
/// step after it. The direction is first turned by the turns handed in.
/// No step can be taken in the invalid direction, from an index whose base
/// cell is none, through an unused digit, or from a pentagon along its
/// deleted axis.
pub open spec fn h3_neighbor_rotations(origin: u64, dir: Direction, rotations: int) -> Result<
    Step,
    Error,
> {
    if dir == Direction::InvalidDigit {
        Err(Error::Failed)
    } else if base_cell(origin) >= 122 {
        Err(Error::CellInvalid)
    } else {
        match walk_digits(
            origin,
            dir.rotated_ccw_times(rotations as nat),
            resolution(origin) as int,
        ) {
            Err(e) => Err(e),
            Ok(walk) => finish_step(origin, walk, rotations),
        }
    }
}

/// Turning a move never makes it the invalid digit.
pub proof fn lemma_rotated_ccw_times_valid(dir: Direction, n: nat)
    requires
        dir != Direction::InvalidDigit,
    ensures
        dir.rotated_ccw_times(n) != Direction::InvalidDigit,
    decreases n,
{
    if n > 0 {
        lemma_rotated_ccw_times_valid(dir.rotated_ccw(), (n - 1) as nat);
    }
}

/// One more turn after `n` turns is `n + 1` turns.
pub proof fn lemma_rotated_ccw_times_step(dir: Direction, n: nat)
    ensures
        dir.rotated_ccw_times(n).rotated_ccw() == dir.rotated_ccw_times(n + 1),
    decreases n,
{
    if n > 0 {
        lemma_rotated_ccw_times_step(dir.rotated_ccw(), (n - 1) as nat);
    } else {
        assert(dir.rotated_ccw().rotated_ccw_times(0) == dir.rotated_ccw());
    }
}

/// Turns a direction counter-clockwise a number of times.
fn rotate_direction(dir: Direction, rotations: i32) -> (turned: Direction)
    requires
        0 <= rotations,
    ensures
        turned == dir.rotated_ccw_times(rotations as nat),
{
    let mut turned = dir;
    let mut i: i32 = 0;
    while i < rotations
        invariant
            0 <= i <= rotations,
            turned == dir.rotated_ccw_times(i as nat),
        decreases rotations - i,
    {
        proof {
            lemma_rotated_ccw_times_step(dir, i as nat);
        }
        turned = _rotate60ccw(turned);
        i = i + 1;
    }
    turned
}

/// Walks through the digits of an index, from the finest upwards. Says
/// whether the step leaves the base cell.
fn walk_index_digits(current: &mut H3Index, dir: &mut Direction) -> (leaves: Result<bool, Error>)
    requires
        *old(dir) != Direction::InvalidDigit,
    ensures
        match walk_digits(*old(current), *old(dir), resolution(*old(current)) as int) {
            Ok(walk) => leaves == Ok::<bool, Error>(walk.leaves_base_cell) && *final(current)
                == walk.index && *final(dir) == walk.dir,
            Err(e) => leaves == Err::<bool, Error>(e),
        },
        *final(dir) != Direction::InvalidDigit,
        header(*final(current)) == header(*old(current)),
{
    let ghost h0 = *current;
    let ghost d0 = *dir;
    let mut r: i32 = H3_GET_RESOLUTION(*current);
    while r > 0
        invariant
            0 <= r <= 15,
            h0 == *old(current),
            d0 == *old(dir),
            walk_digits(*current, *dir, r as int) == walk_digits(h0, d0, resolution(h0) as int),
            *dir != Direction::InvalidDigit,
            header(*current) == header(h0),
        decreases r,
    {
        let oldDigit: Direction = H3_GET_INDEX_DIGIT(*current, r);
        if oldDigit == Direction::InvalidDigit {
            // Only possible on invalid input
            return Err(Error::CellInvalid);
        }
        let classIII = isResolutionClassIII(r);
        let replacement = newDigit(classIII, oldDigit, *dir);
        proof {
            crate::coord_ijk::lemma_direction_value_round_trip(replacement, 0);
        }
        H3_SET_INDEX_DIGIT(current, r, replacement.bits() as i32);
        let nextDir: Direction = newAdjustment(classIII, oldDigit, *dir);
        if nextDir != Direction::CenterDigit {
            *dir = nextDir;
            r = r - 1;
        } else {
            // No more adjustment to perform
            return Ok(false);
        }
    }
    Ok(true)
}

/// Setting the base cell twice is setting it once.
proof fn lemma_with_base_cell_twice(h: u64, a: u64, b: u64)
    by (bit_vector)
    requires
        a <= 127,
        b <= 127,
    ensures
        with_base_cell(with_base_cell(h, a), b) == with_base_cell(h, b),
{
}

/// Moves an index into the neighbouring base cell in a direction. Gives the
/// turns into the frame of that base cell, and the turns that the direction
/// of travel gains.
fn cross_into_base_cell(current: &mut H3Index, oldBaseCell: i32, dir: Direction) -> (turns: (
    i32,
    i32,
))
    requires
        0 <= oldBaseCell < 122,
        base_cell(*old(current)) == oldBaseCell,
        dir != Direction::InvalidDigit,
    ensures
        *final(current) == cross_base_cell(*old(current), dir).index,
        turns.0 == cross_base_cell(*old(current), dir).turns,
        turns.1 == cross_base_cell(*old(current), dir).gained,
        0 <= turns.0 <= 5,
        0 <= turns.1 <= 1,
        base_cell(*final(current)) < 122,
{
    let ghost h0 = *current;
    let d: usize = dir.bits() as usize;
    let mut gained: i32 = 0;
    H3_SET_BASE_CELL(current, baseCellNeighbors(oldBaseCell, d));
    let mut newRotations: i32 = baseCellNeighbor60CCWRots(oldBaseCell, d);
    proof {
        lemma_neighbor_k(oldBaseCell as int);
        lemma_neighbor_rotations_k(oldBaseCell as int);
        lemma_neighbor_range(oldBaseCell as int, 5);
        lemma_neighbor_rotations_range(oldBaseCell as int, 5);
    }

    if H3_GET_BASE_CELL(*current) == INVALID_BASE_CELL {
        // Adjust for the deleted k vertex at the base cell level.
        // This edge actually borders a different neighbor.
        H3_SET_BASE_CELL(current, baseCellNeighbors(oldBaseCell, 5));
        newRotations = baseCellNeighbor60CCWRots(oldBaseCell, 5);
        proof {
            lemma_with_base_cell_twice(h0, 127, base_cell_neighbor(oldBaseCell as int, 5) as u64);
            lemma_rotate60(*current);
        }

        // perform the adjustment for the k-subsequence we're skipping
        // over.
        *current = _h3Rotate60ccw(*current);
        gained = 1;
    }
    (newRotations, gained)
}

/// Turns an index in the base cell of a pentagon out of the deleted
/// subsequence. Gives the turns that the direction of travel gains, and
/// whether the index was turned on entering the base cell.
fn leave_deleted_subsequence(
    current: &mut H3Index,
    oldBaseCell: i32,
    newBaseCell: i32,
    oldLeadingDigit: Direction,
) -> (gained: Result<(i32, bool), Error>)
    requires
        0 <= oldBaseCell < 122,
        0 <= newBaseCell < 122,
    ensures
        match leave_k_subsequence(
            *old(current),
            oldBaseCell as int,
            newBaseCell as int,
            oldLeadingDigit,
        ) {
            Ok(detour) => gained == Ok::<(i32, bool), Error>((detour.gained as i32, detour.on_entry))
                && *final(current) == detour.index && 0 <= detour.gained <= 5,
            Err(e) => gained == Err::<(i32, bool), Error>(e),
        },
{
    // force rotation current of missing k-axes sub-sequence
    if _h3LeadingNonZeroDigit(*current) == Direction::KAxesDigit {
        if oldBaseCell != newBaseCell {
            // in this case, we traversed into the deleted
            // k subsequence of a pentagon base cell.
            // We need to rotate current of that case depending
            // on how we got here.
            // check for a cw/ccw offset face; default is ccw
            if _baseCellIsCwOffset(newBaseCell, homeFijk(oldBaseCell).face) {
                *current = _h3Rotate60cw(*current);
            } else {
                *current = _h3Rotate60ccw(*current);
            }
            Ok((0, true))
        } else {
            // In this case, we traversed into the deleted
            // k subsequence from within the same pentagon
            // base cell.
            if oldLeadingDigit == Direction::CenterDigit {
                // Undefined: the k direction is deleted from here
                Err(Error::Pentagon)
            } else if oldLeadingDigit == Direction::JKAxesDigit {
                // Rotate current of the deleted k subsequence
                // We also need an additional change to the direction we're
                // moving in
                *current = _h3Rotate60ccw(*current);
                Ok((1, false))
            } else if oldLeadingDigit == Direction::IKAxesDigit {
                // Rotate current of the deleted k subsequence
                // We also need an additional change to the direction we're
                // moving in
                *current = _h3Rotate60cw(*current);
                Ok((5, false))
            } else {
                // Should never occur
                Err(Error::Failed)
            }
        }
    } else {
        Ok((0, false))
    }
}

/// The turn that the direction of travel gains on entering the base cell of
/// a pentagon.
fn entry_turn_of(current: H3Index, oldBaseCell: i32, newBaseCell: i32, onEntry: bool) -> (turn:
    i32)
    ensures
        turn == entry_turn(current, oldBaseCell as int, newBaseCell as int, onEntry),
        0 <= turn <= 1,
{
    // Account for differing orientation of the base cells (this edge
    // might not follow properties of some other edges.)
    if oldBaseCell != newBaseCell {
        if _isBaseCellPolarPentagon(newBaseCell) {
            // 'polar' base cells behave differently because they have all
            // i neighbors.
            if oldBaseCell != 118 && oldBaseCell != 8 && _h3LeadingNonZeroDigit(current)
                != Direction::JKAxesDigit {
                return 1;
            }
        } else if _h3LeadingNonZeroDigit(current) == Direction::IKAxesDigit && !onEntry {
            // account for distortion introduced to the 5 neighbor by the
            // deleted k subsequence.
            return 1;
        }
    }
    0
}

/// The neighbour of a cell in a direction. `rotations` counts the turns of
/// 60 degrees, counter-clockwise, by which the direction is turned before
/// the step; after the step it holds the turns for the step that follows,
/// fewer than six. Where no step can be taken, `rotations` is left as it
/// was.
pub fn h3NeighborRotations(origin: H3Index, dir: Direction, rotations: &mut i32) -> (out: Result<
    H3Index,
    Error,
>)
    requires
        0 <= *old(rotations) <= MAX_ROTATIONS,
    ensures
        match h3_neighbor_rotations(origin, dir, *old(rotations) as int) {
            Ok(step) => out == Ok::<H3Index, Error>(step.index) && *final(rotations)
                == step.rotations,
            Err(e) => out == Err::<H3Index, Error>(e) && *final(rotations) == *old(rotations),
        },
        out is Ok ==> 0 <= *final(rotations) < 6,
        out is Ok && is_cell_layout(origin) ==> is_valid_cell(out->Ok_0) && resolution(out->Ok_0)
            == resolution(origin),
{
    proof {
        if is_cell_layout(origin) && h3_neighbor_rotations(origin, dir, *rotations as int) is Ok {
            crate::algos::steps::lemma_neighbor_is_cell(origin, dir, *rotations as int);
        }
    }
    let mut current: H3Index = origin;
    if dir == Direction::InvalidDigit {
        return Err(Error::Failed);
    }
    proof {
        lemma_rotated_ccw_times_valid(dir, *rotations as nat);
    }
    let mut dir: Direction = rotate_direction(dir, *rotations);

    let mut newRotations: i32 = 0;
    let mut gained: i32 = 0;
    let oldBaseCell: i32 = H3_GET_BASE_CELL(current);
    if oldBaseCell < 0 || oldBaseCell >= NUM_BASE_CELLS {
        // Base cells less than zero can not be represented in an index
        return Err(Error::CellInvalid);
    }
    let oldLeadingDigit: Direction = _h3LeadingNonZeroDigit(current);

    // Adjust the indexing digits and, if needed, the base cell.
    let leaves: bool = match walk_index_digits(&mut current, &mut dir) {
        Ok(leaves) => leaves,
        Err(e) => {
            return Err(e);
        },
    };
    proof {
        lemma_header_fields(current, origin);
    }
    if leaves {
        let turns = cross_into_base_cell(&mut current, oldBaseCell, dir);
        newRotations = turns.0;
        gained = turns.1;
    }
    let newBaseCell: i32 = H3_GET_BASE_CELL(current);
    if _isBaseCellPentagon(newBaseCell) {
        let detour = match leave_deleted_subsequence(
            &mut current,
            oldBaseCell,
            newBaseCell,
            oldLeadingDigit,
        ) {
            Ok(detour) => detour,
            Err(e) => {
                return Err(e);
            },
        };
        gained = gained + detour.0;
        current = _h3RotatePent60ccwTimes(current, newRotations);
        gained = gained + entry_turn_of(current, oldBaseCell, newBaseCell, detour.1);
    } else {
        current = _h3Rotate60ccwTimes(current, newRotations);
    }
    *rotations = (*rotations + gained + newRotations) % 6;
    Ok(current)
}

// ---------------------------------------------------------------------
// Disks and rings
// ---------------------------------------------------------------------

/// The directions of the six sides of a ring, walked counter-clockwise.
pub const DIRECTIONS: [Direction; 6] = [
    Direction::JAxesDigit,
    Direction::JKAxesDigit,
    Direction::KAxesDigit,
    Direction::IKAxesDigit,
    Direction::IAxesDigit,
    Direction::IJAxesDigit,
];

/// The direction of the step from one ring out to the next.
pub const NEXT_RING_DIRECTION: Direction = Direction::IAxesDigit;

/// The direction of a side of a ring.
pub open spec fn ring_direction(side: int) -> Direction {
    DIRECTIONS[side]
}

/// The number of cells within `k` steps of a cell, where no pentagon is
/// near: the centred hexagonal number of `k`.
pub open spec fn max_grid_disk_size(k: int) -> int {
    3 * k * (k + 1) + 1
}

/// The largest number of cells that a disk of `k` steps holds.
pub fn maxGridDiskSize(k: u32) -> (size: usize)
    requires
        max_grid_disk_size(k as int) <= usize::MAX,
    ensures
        size == max_grid_disk_size(k as int),
        size == 3 * k * (k + 1) + 1,
{
    let k = k as u64;
    assert(k * (k + 1) <= 3 * k * (k + 1) && 3 * k * (k + 1) == 3 * (k * (k + 1))) by (nonlinear_arith);
    (3 * (k * (k + 1)) + 1) as usize
}

/// One step from a cell that is no pentagon to a cell that is none: any
/// other step fails, on a pentagon with `Pentagon`.
pub open spec fn hexagon_step(from: Step, dir: Direction) -> Result<Step, Error> {
    match h3_neighbor_rotations(from.index, dir, from.rotations) {
        Err(e) => Err(e),
        Ok(to) => if is_pentagon(to.index) {
            Err(Error::Pentagon)
        } else {
            Ok(to)
        },
    }
}

/// Where the walk around a disk stands: the cell reached last with the
/// turns that orient the next step, and the place of the next cell: its
/// ring, the side of the ring, and the position on that side.
pub struct DiskCursor {
    pub at: Step,
    pub ring: int,
    pub side: int,
    pub pos: int,
}

/// The walk around a disk after `n` cells beyond the origin. It starts at
/// the origin, which must be no pentagon. Before the first cell of a ring
/// it steps out to that ring in the `i` direction; then every cell is one
/// step from the one before it, along the six sides of the ring in their
/// order, each side as long as the ring's number. The walk fails at the
/// first step that fails or leads to a pentagon.
pub open spec fn disk_cursor(origin: u64, n: nat) -> Result<DiskCursor, Error>
    decreases n,
{
    if n == 0 {
        if is_pentagon(origin) {
            Err(Error::Pentagon)
        } else {
            Ok(DiskCursor { at: Step { index: origin, rotations: 0 }, ring: 1, side: 0, pos: 0 })
        }
    } else {
        match disk_cursor(origin, (n - 1) as nat) {
            Err(e) => Err(e),
            Ok(c) => disk_advance(c),
        }
    }
}

/// The next cell of the walk around a disk.
pub open spec fn disk_advance(c: DiskCursor) -> Result<DiskCursor, Error> {
    let start = if c.side == 0 && c.pos == 0 {
        hexagon_step(c.at, NEXT_RING_DIRECTION)
    } else {
        Ok(c.at)
    };
    match start {
        Err(e) => Err(e),
        Ok(start) => match hexagon_step(start, ring_direction(c.side)) {
            Err(e) => Err(e),
            Ok(next) => Ok(
                if c.pos + 1 < c.ring {
                    DiskCursor { at: next, ring: c.ring, side: c.side, pos: c.pos + 1 }
                } else if c.side + 1 < 6 {
                    DiskCursor { at: next, ring: c.ring, side: c.side + 1, pos: 0 }
                } else {
                    DiskCursor { at: next, ring: c.ring + 1, side: 0, pos: 0 }
                },
            ),
        },
    }
}

/// Whether the `n`-th cell of a disk, the origin being cell 0, lies on the
/// ring of number `ring`: the rings follow each other, and ring `r` has
/// `6 r` cells.
pub open spec fn is_on_ring(n: int, ring: int) -> bool {
    if n == 0 {
        ring == 0
    } else {
        ring >= 1 && 3 * ring * (ring - 1) < n <= 3 * ring * (ring + 1)
    }
}

/// Whether `out` is the disk of `k` steps around `origin`, in the order of
/// the walk: the origin, then ring after ring, each cell with the number of
/// its ring.
pub open spec fn is_disk_of(out: Seq<(u64, u32)>, origin: u64, k: int) -> bool {
    &&& out.len() == max_grid_disk_size(k)
    &&& out[0] == (origin, 0u32)
    &&& forall|n: int|
        1 <= n < out.len() ==> (#[trigger] disk_cursor(origin, n as nat)) is Ok && out[n].0
            == disk_cursor(origin, n as nat)->Ok_0.at.index
    &&& forall|n: int| 0 <= n < out.len() ==> is_on_ring(n, (#[trigger] out[n]).1 as int)
}

/// The walk around a disk keeps count: after `n` cells the next one is the
/// cell of its ring, side and position, and the walk has not met a
/// pentagon.
pub proof fn lemma_disk_cursor(origin: u64, n: nat)
    requires
        disk_cursor(origin, n) is Ok,
    ensures
        ({
            let c = disk_cursor(origin, n)->Ok_0;
            &&& 1 <= c.ring
            &&& 0 <= c.side < 6
            &&& 0 <= c.pos < c.ring
            &&& n == 3 * c.ring * (c.ring - 1) + c.side * c.ring + c.pos
            &&& !is_pentagon(c.at.index)
            &&& 0 <= c.at.rotations < 6
        }),
        forall|m: nat| m <= n ==> (#[trigger] disk_cursor(origin, m)) is Ok,
    decreases n,
{
    if n > 0 {
        let p = disk_cursor(origin, (n - 1) as nat)->Ok_0;
        lemma_disk_cursor(origin, (n - 1) as nat);
        let c = disk_cursor(origin, n)->Ok_0;
        assert(n == 3 * c.ring * (c.ring - 1) + c.side * c.ring + c.pos) by (nonlinear_arith)
            requires
                n - 1 == 3 * p.ring * (p.ring - 1) + p.side * p.ring + p.pos,
                0 <= p.side < 6,
                0 <= p.pos < p.ring,
                (c.ring == p.ring && c.side == p.side && c.pos == p.pos + 1) || (c.ring == p.ring
                    && c.side == p.side + 1 && c.pos == 0 && p.pos + 1 == p.ring) || (c.ring
                    == p.ring + 1 && c.side == 0 && c.pos == 0 && p.pos + 1 == p.ring && p.side
                    == 5),
        ;
        assert forall|m: nat| m <= n implies (#[trigger] disk_cursor(origin, m)) is Ok by {
        }
    }
}

/// The cells within `k` steps of a cell, ring after ring, each with the
/// number of its ring. Fails with `Pentagon` where the origin or a cell on
/// the way is a pentagon, for the walk would go astray there.
pub fn gridDiskDistancesUnsafe(origin: H3Index, k: u32) -> (out: Result<Vec<(H3Index, u32)>, Error>)
    ensures
        match disk_cursor(origin, (3 * k * (k + 1)) as nat) {
            Ok(_) => out is Ok && is_disk_of(out->Ok_0@, origin, k as int),
            Err(e) => out == Err::<Vec<(H3Index, u32)>, Error>(e),
        },
        out is Ok ==> out->Ok_0@.len() == 3 * k * (k + 1) + 1,
        out is Ok && is_valid_cell(origin) ==> forall|n: int|
            0 <= n < out->Ok_0@.len() ==> is_valid_cell((#[trigger] out->Ok_0@[n]).0),
{
    let ghost total: nat = (3 * k * (k + 1)) as nat;
    let mut current = origin;
    let mut out: Vec<(H3Index, u32)> = Vec::new();

    // k must be >= 0, so origin is always needed
    out.push((current, 0));

    if isPentagon(current) {
        // Pentagon was encountered; bail out as user doesn't want this.
        proof {
            lemma_disk_failure_stays(origin, 0, total);
        }
        return Err(Error::Pentagon);
    }
    // 0 < ring <= k, current ring

    let mut ring: u64 = 1;
    // 0 <= direction < 6, current side of the ring
    let mut direction: usize = 0;
    // 0 <= i < ring, current position on the side of the ring
    let mut i: u64 = 0;
    // Number of 60 degree ccw rotations to perform on the direction (based on
    // which faces have been crossed.)
    let mut rotations: i32 = 0;

    while ring <= k as u64
        invariant
            1 <= ring <= k + 1,
            direction < 6,
            i < ring,
            ring == k + 1 ==> direction == 0 && i == 0,
            total == 3 * k * (k + 1),
            out@.len() == 3 * ring * (ring - 1) + direction * ring + i + 1,
            0 <= rotations < 6,
            disk_cursor(origin, (out@.len() - 1) as nat) == Ok::<DiskCursor, Error>(
                DiskCursor {
                    at: Step { index: current, rotations: rotations as int },
                    ring: ring as int,
                    side: direction as int,
                    pos: i as int,
                },
            ),
            out@[0] == (origin, 0u32),
            forall|n: int|
                1 <= n < out@.len() ==> (#[trigger] disk_cursor(origin, n as nat)) is Ok
                    && out@[n].0 == disk_cursor(origin, n as nat)->Ok_0.at.index,
            forall|n: int| 0 <= n < out@.len() ==> is_on_ring(n, (#[trigger] out@[n]).1 as int),
        decreases k + 1 - ring, 6 - direction, ring - i,
    {
        let ghost n: nat = (out@.len() - 1) as nat;
        proof {
            lemma_ring_counters(n as int, k as int, ring as int, direction as int, i as int);
        }
        if direction == 0 && i == 0 {
            // Not putting in the output set as it will be done later, at
            // the end of this ring.
            current = match h3NeighborRotations(current, NEXT_RING_DIRECTION, &mut rotations) {
                Ok(next) => next,
                Err(e) => {
                    proof {
                        lemma_disk_failure_stays(origin, n + 1, total);
                    }
                    return Err(e);
                },
            };
            if isPentagon(current) {
                // Pentagon was encountered; bail out as user doesn't want this.
                proof {
                    lemma_disk_failure_stays(origin, n + 1, total);
                }
                return Err(Error::Pentagon);
            }
        }
        current = match h3NeighborRotations(current, DIRECTIONS[direction], &mut rotations) {
            Ok(next) => next,
            Err(e) => {
                proof {
                    lemma_disk_failure_stays(origin, n + 1, total);
                }
                return Err(e);
            },
        };
        if isPentagon(current) {
            // Pentagon was encountered; bail out as user doesn't want this.
            proof {
                lemma_disk_failure_stays(origin, n + 1, total);
            }
            return Err(Error::Pentagon);
        }
        out.push((current, ring as u32));

        i = i + 1;
        // Check if end of this side of the k-ring
        if i == ring {
            i = 0;
            direction = direction + 1;
            // Check if end of this ring.
            if direction == 6 {
                direction = 0;
                ring = ring + 1;
            }
        }
    }
    proof {
        assert(out@.len() == 3 * k * (k + 1) + 1) by (nonlinear_arith)
            requires
                ring == k + 1,
                direction == 0,
                i == 0,
                out@.len() == 3 * ring * (ring - 1) + direction * ring + i + 1,
        ;
        if is_valid_cell(origin) {
            assert forall|n: int| 0 <= n < out@.len() implies is_valid_cell(
                (#[trigger] out@[n]).0,
            ) by {
                if n > 0 {
                    crate::algos::steps::lemma_disk_cells_are_valid(origin, n as nat);
                }
            }
        }
    }
    Ok(out)
}

/// How the count of the cells of a disk goes on from one cell to the next.
proof fn lemma_ring_counters(n: int, k: int, ring: int, side: int, pos: int)
    requires
        n == 3 * ring * (ring - 1) + side * ring + pos,
        1 <= ring <= k,
        0 <= side < 6,
        0 <= pos < ring,
    ensures
        is_on_ring(n + 1, ring),
        n + 1 <= 3 * k * (k + 1),
        pos + 1 < ring ==> n + 1 == 3 * ring * (ring - 1) + side * ring + (pos + 1),
        pos + 1 == ring && side < 5 ==> n + 1 == 3 * ring * (ring - 1) + (side + 1) * ring,
        pos + 1 == ring && side == 5 ==> n + 1 == 3 * (ring + 1) * ring,
{
    assert(3 * ring * (ring - 1) < n + 1 <= 3 * ring * (ring + 1)) by (nonlinear_arith)
        requires
            n == 3 * ring * (ring - 1) + side * ring + pos,
            0 <= side < 6,
            0 <= pos < ring,
    ;
    assert(3 * ring * (ring + 1) <= 3 * k * (k + 1)) by (nonlinear_arith)
        requires
            1 <= ring <= k,
    ;
    assert((side + 1) * ring == side * ring + ring) by (nonlinear_arith);
    assert(side == 5 ==> 3 * ring * (ring - 1) + 6 * ring == 3 * (ring + 1) * ring)
        by (nonlinear_arith);
}

/// Once the walk around a disk has failed, it has failed for good, and with
/// the same error.
pub proof fn lemma_disk_failure_stays(origin: u64, n: nat, m: nat)
    requires
        disk_cursor(origin, n) is Err,
        n <= m,
    ensures
        disk_cursor(origin, m) == disk_cursor(origin, n),
    decreases m - n,
{
    if n < m {
        lemma_disk_failure_stays(origin, n, (m - 1) as nat);
    }
}

/// The cell reached from the origin by `k` steps outwards, in the `i`
/// direction, from no pentagon and over none.
pub open spec fn ring_start(origin: u64, k: nat) -> Result<Step, Error>
    decreases k,
{
    if k == 0 {
        if is_pentagon(origin) {
            Err(Error::Pentagon)
        } else {
            Ok(Step { index: origin, rotations: 0 })
        }
    } else {
        match ring_start(origin, (k - 1) as nat) {
            Err(e) => Err(e),
            Ok(at) => hexagon_step(at, NEXT_RING_DIRECTION),
        }
    }
}

/// Where the walk around a ring stands: the cell reached last with the
/// turns that orient the next step, and the side and the position on it of
/// the next cell.
pub struct RingCursor {
    pub at: Step,
    pub side: int,
    pub pos: int,
}

/// The walk around the ring of number `k` after `n` steps from its first
/// cell: along the six sides in their order, each `k` steps long. The last
/// step of all leads back to the first cell, every other one to a cell
/// that must be no pentagon.
pub open spec fn ring_cursor(start: Step, k: int, n: nat) -> Result<RingCursor, Error>
    decreases n,
{
    if n == 0 {
        Ok(RingCursor { at: start, side: 0, pos: 0 })
    } else {
        match ring_cursor(start, k, (n - 1) as nat) {
            Err(e) => Err(e),
            Ok(c) => match h3_neighbor_rotations(
                c.at.index,
                ring_direction(c.side),
                c.at.rotations,
            ) {
                Err(e) => Err(e),
                Ok(next) => if !(c.side == 5 && c.pos == k - 1) && is_pentagon(next.index) {
                    Err(Error::Pentagon)
                } else if c.pos + 1 < k {
                    Ok(RingCursor { at: next, side: c.side, pos: c.pos + 1 })
                } else {
                    Ok(RingCursor { at: next, side: c.side + 1, pos: 0 })
                },
            },
        }
    }
}

/// The cells at exactly `k` steps from a cell, in the order of the walk
/// around them; for `k == 0` the cell itself. The walk fails where it meets
/// a pentagon, and where it does not close: both show that the ring is
/// distorted by a pentagon.
pub open spec fn grid_ring(origin: u64, k: int) -> Result<Seq<u64>, Error> {
    if k == 0 {
        Ok(seq![origin])
    } else {
        match ring_start(origin, k as nat) {
            Err(e) => Err(e),
            Ok(start) => match ring_cursor(start, k, (6 * k) as nat) {
                Err(e) => Err(e),
                Ok(last) => if last.at.index != start.index {
                    Err(Error::Pentagon)
                } else {
                    Ok(
                        Seq::new(
                            (6 * k) as nat,
                            |n: int|
                                if n == 0 {
                                    start.index
                                } else {
                                    ring_cursor(start, k, n as nat)->Ok_0.at.index
                                },
                        ),
                    )
                },
            },
        }
    }
}

/// Once the way out to a ring has failed, it has failed for good.
pub proof fn lemma_ring_start_failure_stays(origin: u64, n: nat, m: nat)
    requires
        ring_start(origin, n) is Err,
        n <= m,
    ensures
        ring_start(origin, m) == ring_start(origin, n),
    decreases m - n,
{
    if n < m {
        lemma_ring_start_failure_stays(origin, n, (m - 1) as nat);
    }
}

/// Once the walk around a ring has failed, it has failed for good.
pub proof fn lemma_ring_failure_stays(start: Step, k: int, n: nat, m: nat)
    requires
        ring_cursor(start, k, n) is Err,
        n <= m,
    ensures
        ring_cursor(start, k, m) == ring_cursor(start, k, n),
    decreases m - n,
{
    if n < m {
        lemma_ring_failure_stays(start, k, n, (m - 1) as nat);
    }
}

/// The ring of a cell holds the cell itself where `k` is zero, and else
/// six cells for each step of its distance.
pub proof fn lemma_grid_ring_len(origin: u64, k: int)
    requires
        0 <= k,
        grid_ring(origin, k) is Ok,
    ensures
        grid_ring(origin, k)->Ok_0.len() == (if k == 0 {
            1
        } else {
            6 * k
        }),
{
}

/// Walks the `k` steps from a cell out to its ring of number `k`.
fn walk_to_ring(origin: H3Index, k: u32, rotations: &mut i32) -> (start: Result<H3Index, Error>)
    requires
        *old(rotations) == 0,
    ensures
        match ring_start(origin, k as nat) {
            Ok(at) => start == Ok::<H3Index, Error>(at.index) && *final(rotations) == at.rotations
                && 0 <= at.rotations < 6,
            Err(e) => start == Err::<H3Index, Error>(e),
        },
{
    let mut current = origin;
    if isPentagon(current) {
        // Pentagon was encountered; bail out as user doesn't want this.
        proof {
            lemma_ring_start_failure_stays(origin, 0, k as nat);
        }
        return Err(Error::Pentagon);
    }
    let mut ring: u32 = 0;
    while ring < k
        invariant
            ring <= k,
            0 <= *rotations < 6,
            ring_start(origin, ring as nat) == Ok::<Step, Error>(
                Step { index: current, rotations: *rotations as int },
            ),
        decreases k - ring,
    {
        current = match h3NeighborRotations(current, NEXT_RING_DIRECTION, rotations) {
            Ok(next) => next,
            Err(e) => {
                proof {
                    lemma_ring_start_failure_stays(origin, (ring + 1) as nat, k as nat);
                }
                return Err(e);
            },
        };
        if isPentagon(current) {
            proof {
                lemma_ring_start_failure_stays(origin, (ring + 1) as nat, k as nat);
            }
            return Err(Error::Pentagon);
        }
        ring = ring + 1;
    }
    Ok(current)
}

/// The cells at exactly `k` steps from a cell, in the order of the walk
/// around them; for `k == 0` the cell itself. Fails with `Pentagon` where
/// a pentagon distorts the ring.
pub fn gridRingUnsafe(origin: H3Index, k: u32) -> (out: Result<Vec<H3Index>, Error>)
    ensures
        match grid_ring(origin, k as int) {
            Ok(cells) => out is Ok && out->Ok_0@ == cells,
            Err(e) => out == Err::<Vec<H3Index>, Error>(e),
        },
        out is Ok ==> out->Ok_0@.len() == (if k == 0 {
            1
        } else {
            6 * k
        }),
        out is Ok && is_valid_cell(origin) ==> forall|n: int|
            0 <= n < out->Ok_0@.len() ==> is_valid_cell(#[trigger] out->Ok_0@[n]),
{
    let mut out: Vec<H3Index> = Vec::new();

    // Short-circuit on 'identity' ring
    if k == 0 {
        out.push(origin);
        return Ok(out);
    }
    // Number of 60 degree ccw rotations to perform on the direction (based on
    // which faces have been crossed.)

    let mut rotations: i32 = 0;
    let mut current: H3Index = match walk_to_ring(origin, k, &mut rotations) {
        Ok(start) => start,
        Err(e) => {
            return Err(e);
        },
    };
    let lastIndex = current;
    let ghost start = Step { index: current, rotations: rotations as int };
    let ghost total: nat = (6 * k) as nat;

    out.push(current);

    let mut direction: usize = 0;
    while direction < 6
        invariant
            direction <= 6,
            k > 0,
            total == 6 * k,
            0 <= rotations < 6,
            ring_start(origin, k as nat) == Ok::<Step, Error>(start),
            lastIndex == start.index,
            ring_cursor(start, k as int, (direction * k) as nat) == Ok::<RingCursor, Error>(
                RingCursor {
                    at: Step { index: current, rotations: rotations as int },
                    side: direction as int,
                    pos: 0,
                },
            ),
            out@.len() == (if direction == 6 {
                6 * k
            } else {
                direction * k + 1
            }),
            out@[0] == start.index,
            forall|n: int|
                1 <= n < out@.len() ==> (#[trigger] ring_cursor(start, k as int, n as nat)) is Ok
                    && out@[n] == ring_cursor(start, k as int, n as nat)->Ok_0.at.index,
        decreases 6 - direction,
    {
        let mut pos: u32 = 0;
        while pos < k
            invariant
                direction < 6,
                pos <= k,
                k > 0,
                total == 6 * k,
                0 <= rotations < 6,
                ring_start(origin, k as nat) == Ok::<Step, Error>(start),
                lastIndex == start.index,
                ring_cursor(start, k as int, (direction * k + pos) as nat) == Ok::<
                    RingCursor,
                    Error,
                >(
                    RingCursor {
                        at: Step { index: current, rotations: rotations as int },
                        side: (if pos == k {
                            direction + 1
                        } else {
                            direction as int
                        }),
                        pos: (if pos == k {
                            0
                        } else {
                            pos as int
                        }),
                    },
                ),
                out@.len() == (if direction == 5 && pos == k {
                    6 * k
                } else {
                    direction * k + pos + 1
                }),
                out@[0] == start.index,
                forall|n: int|
                    1 <= n < out@.len() ==> (#[trigger] ring_cursor(start, k as int, n as nat))
                        is Ok && out@[n] == ring_cursor(start, k as int, n as nat)->Ok_0.at.index,
            decreases k - pos,
        {
            let ghost n: nat = (direction * k + pos) as nat;
            proof {
                assert(n + 1 <= total) by (nonlinear_arith)
                    requires
                        n == direction * k + pos,
                        direction < 6,
                        pos < k,
                        total == 6 * k,
                ;
            }
            current = match h3NeighborRotations(current, DIRECTIONS[direction], &mut rotations) {
                Ok(next) => next,
                Err(e) => {
                    proof {
                        lemma_ring_failure_stays(start, k as int, n + 1, total);
                    }
                    return Err(e);
                },
            };

            // Skip the very last index, it was already added. We do
            // however need to traverse to it because of the pentagonal
            // distortion check, below.
            if pos != k - 1 || direction != 5 {
                out.push(current);

                if isPentagon(current) {
                    proof {
                        lemma_ring_failure_stays(start, k as int, n + 1, total);
                    }
                    return Err(Error::Pentagon);
                }
            }
            pos = pos + 1;
        }
        proof {
            assert((direction + 1) * k == direction * k + k) by (nonlinear_arith);
        }
        direction = direction + 1;
    }

    // Check that this matches the expected lastIndex, if it doesn't,
    // it indicates pentagonal distortion occurred and we should report
    // failure.
    if lastIndex != current {
        Err(Error::Pentagon)
    } else {
        proof {
            if is_valid_cell(origin) {
                crate::algos::steps::lemma_ring_start_is_valid(origin, k as nat);
                assert forall|n: int| 0 <= n < out@.len() implies is_valid_cell(
                    #[trigger] out@[n],
                ) by {
                    if n > 0 {
                        crate::algos::steps::lemma_ring_cells_are_valid(
                            start,
                            k as int,
                            n as nat,
                        );
                    }
                }
            }
        }
        Ok(out)
    }
}

/// Whether `destination` is the neighbour of `origin` in the direction of
/// the digit `d`.
pub open spec fn is_neighbor_in(origin: u64, destination: u64, d: int) -> bool {
    h3_neighbor_rotations(origin, Direction::of(d), 0) matches Ok(step) && step.index
        == destination
}

/// The first direction, from the digit `d` on, in which `destination` is
/// the neighbour of `origin`, and the invalid digit where there is none.
pub open spec fn direction_for_neighbor_from(origin: u64, destination: u64, d: int) -> Direction
    decreases 7 - d,
{
    if d < 0 || d >= 7 {
        Direction::InvalidDigit
    } else if is_neighbor_in(origin, destination, d) {
        Direction::of(d)
    } else {
        direction_for_neighbor_from(origin, destination, d + 1)
    }
}

/// The direction in which `destination` is the neighbour of `origin`: the
/// first of the six directions, or of the five that a pentagon has, that
/// leads there, and the invalid digit where the two are no neighbours.
pub open spec fn direction_for_neighbor(origin: u64, destination: u64) -> Direction {
    direction_for_neighbor_from(
        origin,
        destination,
        if is_pentagon(origin) {
            2
        } else {
            1
        },
    )
}

/// A direction found leads from the origin to the destination; none is
/// found exactly where no direction does.
pub proof fn lemma_direction_for_neighbor_from(origin: u64, destination: u64, d: int)
    requires
        0 <= d,
    ensures
        direction_for_neighbor_from(origin, destination, d) != Direction::InvalidDigit ==> d
            <= direction_for_neighbor_from(origin, destination, d).value() <= 6 && is_neighbor_in(
            origin,
            destination,
            direction_for_neighbor_from(origin, destination, d).value(),
        ),
        direction_for_neighbor_from(origin, destination, d) == Direction::InvalidDigit <==> (
        forall|e: int| d <= e <= 6 ==> !is_neighbor_in(origin, destination, e)),
    decreases 7 - d,
{
    if d < 7 {
        lemma_direction_for_neighbor_from(origin, destination, d + 1);
        crate::coord_ijk::lemma_direction_value_round_trip(Direction::CenterDigit, d);
    }
}

/// The direction of the step from a cell to one of its neighbours; the
/// invalid digit where the two cells are no neighbours.
pub fn directionForNeighbor(origin: H3Index, destination: H3Index) -> (dir: Direction)
    ensures
        dir == direction_for_neighbor(origin, destination),
{
    let isPent: bool = isPentagon(origin);
    // Checks each neighbor, in order, to determine which direction the
    // destination neighbor is located. Skips the centre digit since that
    // would be the origin; skips deleted K direction for pentagons.
    let mut direction: u64 = if isPent {
        2
    } else {
        1
    };
    while direction < 7
        invariant
            1 <= direction <= 7,
            direction_for_neighbor_from(origin, destination, direction as int)
                == direction_for_neighbor(origin, destination),
        decreases 7 - direction,
    {
        let d: Direction = match Direction::from_u64(direction) {
            Some(d) => d,
            None => Direction::InvalidDigit,
        };
        let mut rotations: i32 = 0;
        match h3NeighborRotations(origin, d, &mut rotations) {
            Ok(neighbor) => {
                if neighbor == destination {
                    return d;
                }
            },
            Err(_) => {},
        }
        direction = direction + 1;
    }
    Direction::InvalidDigit
}

// ---------------------------------------------------------------------
// The disk around any cell
// ---------------------------------------------------------------------

/// The slot of a hash set of cells, kept in a table with open addressing,
/// at which `cell` stands or would be put: the first slot, from `off` on
/// and around the end of the table, that is free or holds `cell`. Where
/// none of the `steps` slots looked at is, -1.
pub open spec fn probe_slot(table: Seq<(u64, u32)>, cell: u64, off: int, steps: nat) -> int
    decreases steps,
{
    if steps == 0 {
        -1
    } else if table[off].0 == 0 || table[off].0 == cell {
        off
    } else {
        probe_slot(table, cell, (off + 1) % (table.len() as int), (steps - 1) as nat)
    }
}

/// The table after a visit to `cell` at `distance` steps from the origin of
/// a disk of `k` steps. A cell met before at no greater distance is left
/// alone. Else the cell is put into the table with its distance, and, if
/// the distance is less than `k`, its neighbours are visited in turn. A
/// table with no room for the cell fails the visit.
pub open spec fn disk_visit(table: Seq<(u64, u32)>, cell: u64, k: int, distance: int) -> Result<
    Seq<(u64, u32)>,
    Error,
>
    decreases k - distance, 7int,
{
    let slot = probe_slot(
        table,
        cell,
        (cell % (table.len() as u64)) as int,
        table.len(),
    );
    if slot < 0 {
        Err(Error::MemoryBounds)
    } else if table[slot].0 == cell && table[slot].1 <= distance {
        Ok(table)
    } else {
        let marked = table.update(slot, (cell, distance as u32));
        if distance >= k {
            Ok(marked)
        } else {
            disk_visit_neighbors(marked, cell, k, distance, 0)
        }
    }
}

/// The step from a cell to its neighbour on a side of its ring, with no
/// turns handed in.
#[verifier::opaque]
pub open spec fn side_step(cell: u64, side: int) -> Result<Step, Error> {
    h3_neighbor_rotations(cell, ring_direction(side), 0)
}

/// The table after the visits to the neighbours of `cell` in the
/// directions of the sides `side..6`. Where there is no neighbour, because
/// the step would leave a pentagon along its deleted axis, the direction is
/// passed over; every other failure fails the visit.
pub open spec fn disk_visit_neighbors(
    table: Seq<(u64, u32)>,
    cell: u64,
    k: int,
    distance: int,
    side: int,
) -> Result<Seq<(u64, u32)>, Error>
    decreases k - distance, 6 - side,
{
    if side < 0 || side >= 6 || distance >= k {
        Ok(table)
    } else {
        match side_step(cell, side) {
            Ok(step) => match disk_visit(table, step.index, k, distance + 1) {
                Ok(visited) => disk_visit_neighbors(visited, cell, k, distance, side + 1),
                Err(e) => Err(e),
            },
            Err(e) => if e == Error::Pentagon {
                disk_visit_neighbors(table, cell, k, distance, side + 1)
            } else {
                Err(e)
            },
        }
    }
}

/// The entries of the first `n` slots of a table that hold a cell, in the
/// order of the slots.
pub open spec fn occupied_slots(table: Seq<(u64, u32)>, n: nat) -> Seq<(u64, u32)>
    decreases n,
{
    if n == 0 {
        Seq::empty()
    } else if table[n - 1].0 != 0 {
        occupied_slots(table, (n - 1) as nat).push(table[n - 1])
    } else {
        occupied_slots(table, (n - 1) as nat)
    }
}

/// An empty table of `n` slots.
pub open spec fn empty_table(n: nat) -> Seq<(u64, u32)> {
    Seq::new(n, |i: int| (0u64, 0u32))
}

/// The cells within `k` steps of a cell, each with its distance. Where the
/// walk around the disk succeeds, they come in its order. Where it fails,
/// the cells are gathered by visiting neighbours of neighbours, and come in
/// the order of the slots of the table that gathers them.
pub open spec fn grid_disk_distances(origin: u64, k: int) -> Result<Seq<(u64, u32)>, Error> {
    match disk_cursor(origin, (3 * k * (k + 1)) as nat) {
        Ok(_) => Ok(
            Seq::new(
                max_grid_disk_size(k) as nat,
                |n: int|
                    if n == 0 {
                        (origin, 0u32)
                    } else {
                        (disk_cursor(origin, n as nat)->Ok_0.at.index, ring_number(n) as u32)
                    },
            ),
        ),
        Err(_) => match disk_visit(
            empty_table(max_grid_disk_size(k) as nat),
            origin,
            k,
            0,
        ) {
            Ok(table) => Ok(occupied_slots(table, table.len())),
            Err(e) => Err(e),
        },
    }
}

/// The number of the ring on which the `n`-th cell of a disk lies.
pub open spec fn ring_number(n: int) -> int {
    choose|ring: int| is_on_ring(n, ring)
}

/// Every cell of a disk lies on one ring and no other.
pub proof fn lemma_ring_number(n: int, ring: int)
    requires
        is_on_ring(n, ring),
    ensures
        ring_number(n) == ring,
{
    let other = ring_number(n);
    if n != 0 {
        assert(other == ring) by (nonlinear_arith)
            requires
                ring >= 1 && 3 * ring * (ring - 1) < n <= 3 * ring * (ring + 1),
                other >= 1 && 3 * other * (other - 1) < n <= 3 * other * (other + 1),
        {
            if other < ring {
            } else if other > ring {
            }
        }
    }
}

/// Whether a table has kept what another held: every cell is still in its
/// slot, at no greater distance than before.
pub open spec fn is_table_kept(before: Seq<(u64, u32)>, after: Seq<(u64, u32)>) -> bool {
    &&& after.len() == before.len()
    &&& forall|slot: int|
        0 <= slot < before.len() && (#[trigger] before[slot]).0 != 0 ==> after[slot].0
            == before[slot].0 && after[slot].1 <= before[slot].1
}

/// Whether no distance in a table is greater than `k`.
pub open spec fn is_table_within(table: Seq<(u64, u32)>, k: int) -> bool {
    forall|slot: int| 0 <= slot < table.len() ==> (#[trigger] table[slot]).1 <= k
}

/// What lies in an occupied slot of a table is among its occupied slots,
/// and what is among them lies in an occupied slot.
pub proof fn lemma_occupied_slots(table: Seq<(u64, u32)>, n: nat, slot: int)
    requires
        n <= table.len(),
    ensures
        occupied_slots(table, n).len() <= n,
        0 <= slot < n && table[slot].0 != 0 ==> occupied_slots(table, n).contains(table[slot]),
        forall|i: int|
            0 <= i < occupied_slots(table, n).len() ==> (#[trigger] occupied_slots(table, n)[i]).0
                != 0 && table.contains(occupied_slots(table, n)[i]),
    decreases n,
{
    if n > 0 {
        lemma_occupied_slots(table, (n - 1) as nat, slot);
        let before = occupied_slots(table, (n - 1) as nat);
        let all = occupied_slots(table, n);
        if table[n - 1].0 != 0 {
            assert(all[all.len() - 1] == table[n - 1]);
            if slot < n - 1 && 0 <= slot && table[slot].0 != 0 {
                let at = choose|at: int| 0 <= at < before.len() && before[at] == table[slot];
                assert(all[at] == table[slot]);
            }
            assert forall|i: int| 0 <= i < all.len() implies (#[trigger] all[i]).0 != 0
                && table.contains(all[i]) by {
            }
        }
    }
}

/// Among the occupied slots of a table in which no cell stands twice, no
/// cell stands twice, and each lies in one of the first `n` slots.
pub proof fn lemma_occupied_slots_distinct(table: Seq<(u64, u32)>, n: nat)
    requires
        n <= table.len(),
        forall|s: int, t: int|
            0 <= s < table.len() && 0 <= t < table.len() && s != t && (#[trigger] table[s]).0 != 0
                ==> (#[trigger] table[t]).0 != table[s].0,
    ensures
        forall|i: int|
            0 <= i < occupied_slots(table, n).len() ==> exists|s: int|
                0 <= s < n && #[trigger] table[s] == #[trigger] occupied_slots(table, n)[i],
        forall|i: int, j: int|
            0 <= i < occupied_slots(table, n).len() && 0 <= j < occupied_slots(table, n).len() && i
                != j ==> (#[trigger] occupied_slots(table, n)[i]).0 != (#[trigger] occupied_slots(
                table,
                n,
            )[j]).0,
    decreases n,
{
    if n > 0 {
        lemma_occupied_slots_distinct(table, (n - 1) as nat);
        lemma_occupied_slots(table, (n - 1) as nat, 0);
        let before = occupied_slots(table, (n - 1) as nat);
        let all = occupied_slots(table, n);
        assert forall|i: int| 0 <= i < all.len() implies exists|s: int|
            0 <= s < n && #[trigger] table[s] == #[trigger] all[i] by {
            if i < before.len() {
                let s = choose|s: int| 0 <= s < n - 1 && #[trigger] table[s] == before[i];
            }
        }
        assert forall|i: int, j: int|
            0 <= i < all.len() && 0 <= j < all.len() && i != j implies (#[trigger] all[i]).0 != (
        #[trigger] all[j]).0 by {
            if i < before.len() && j < before.len() {
            } else if i < before.len() {
            } else {
                let s = choose|s: int| 0 <= s < n - 1 && #[trigger] table[s] == before[j];
                assert(table[n - 1].0 != table[s].0);
            }
        }
    }
}

/// Visits a cell at `curK` steps from the origin of a disk of `k` steps,
/// and from there its neighbours, gathering them in `out`, which is a hash
/// set with open addressing: a free slot holds the cell 0. A visit that
/// fails leaves the length of the table as it was.
pub fn _gridDiskDistancesInternal(
    origin: H3Index,
    k: u32,
    out: &mut Vec<(H3Index, u32)>,
    maxIdx: usize,
    curK: u32,
) -> (done: Result<(), Error>)
    requires
        old(out)@.len() == maxIdx,
        maxIdx > 0,
        curK <= k,
    ensures
        final(out)@.len() == maxIdx,
        match disk_visit(old(out)@, origin, k as int, curK as int) {
            Ok(table) => done is Ok && final(out)@ == table,
            Err(e) => done == Err::<(), Error>(e),
        },
        is_table_kept(old(out)@, final(out)@),
        is_table_within(old(out)@, k as int) ==> is_table_within(final(out)@, k as int),
        done is Ok && origin != 0 ==> exists|slot: int|
            0 <= slot < maxIdx && (#[trigger] final(out)@[slot]).0 == origin && final(out)@[slot].1
                <= curK,
    decreases k - curK, 1int,
{
    // Put origin in the output array. out is used as a hash set.
    let mut off: usize = (origin % (maxIdx as u64)) as usize;
    let mut left: usize = maxIdx;
    while left > 0 && out[off].0 != 0 && out[off].0 != origin
        invariant
            off < maxIdx,
            out@.len() == maxIdx,
            out@ == old(out)@,
            probe_slot(out@, origin, off as int, left as nat) == probe_slot(
                out@,
                origin,
                (origin % (maxIdx as u64)) as int,
                maxIdx as nat,
            ),
        decreases left,
    {
        off = (off + 1) % maxIdx;
        left = left - 1;
    }
    if left == 0 {
        return Err(Error::MemoryBounds);
    }
    // We either got a free slot in the hash set or hit a duplicate
    // We might need to process the duplicate anyways because we got
    // here on a longer path before.

    if out[off].0 == origin && out[off].1 <= curK {
        return Ok(());
    }
    out.set(off, (origin, curK));
    assert(out@[off as int].0 == origin);

    // Base case: reached an index k away from the origin.
    if curK >= k {
        return Ok(());
    }
    // Recurse to all neighbors in no particular order.

    let ghost marked = out@;
    let mut i: usize = 0;
    while i < 6
        invariant
            i <= 6,
            curK < k,
            maxIdx > 0,
            out@.len() == maxIdx,
            off < maxIdx,
            marked[off as int] == (origin, curK),
            is_table_kept(old(out)@, marked),
            is_table_kept(marked, out@),
            is_table_within(old(out)@, k as int) ==> is_table_within(out@, k as int),
            disk_visit(old(out)@, origin, k as int, curK as int) == disk_visit_neighbors(
                marked,
                origin,
                k as int,
                curK as int,
                0,
            ),
            disk_visit_neighbors(out@, origin, k as int, curK as int, i as int)
                == disk_visit_neighbors(marked, origin, k as int, curK as int, 0),
        decreases 6 - i,
    {
        let mut rotations: i32 = 0;
        proof {
            reveal(side_step);
        }
        match h3NeighborRotations(origin, DIRECTIONS[i], &mut rotations) {
            Ok(result) => {
                match _gridDiskDistancesInternal(result, k, out, maxIdx, curK + 1) {
                    Ok(_) => {},
                    Err(e) => {
                        return Err(e);
                    },
                }
            },
            Err(e) => {
                if e != Error::Pentagon {
                    return Err(e);
                }
            },
        };
        i = i + 1;
    }
    Ok(())
}

/// The cells within `k` steps of a cell, each with its distance from it.
/// The walk around the disk is tried first; where it fails, on a pentagon,
/// the cells are gathered by visiting neighbours of neighbours, which a
/// pentagon does not disturb: then every cell within `k` steps comes once,
/// with the least number of steps to it. Either way there are no more
/// cells than a disk without pentagons holds, none lies further than `k`
/// steps, the origin is among them at the distance 0, and the cells around
/// a cell are cells.
pub fn gridDiskDistances(origin: H3Index, k: u32) -> (out: Result<Vec<(H3Index, u32)>, Error>)
    requires
        max_grid_disk_size(k as int) <= usize::MAX,
    ensures
        match grid_disk_distances(origin, k as int) {
            Ok(cells) => out is Ok && out->Ok_0@ == cells,
            Err(e) => out == Err::<Vec<(H3Index, u32)>, Error>(e),
        },
        out is Ok ==> out->Ok_0@.len() <= max_grid_disk_size(k as int),
        out is Ok ==> forall|n: int| 0 <= n < out->Ok_0@.len() ==> (#[trigger] out->Ok_0@[n]).1 <= k,
        out is Ok && origin != 0 ==> out->Ok_0@.contains((origin, 0u32)),
        out is Ok && is_valid_cell(origin) ==> forall|n: int|
            0 <= n < out->Ok_0@.len() ==> is_valid_cell((#[trigger] out->Ok_0@[n]).0),
        out is Ok && origin != 0 && disk_cursor(origin, (3 * k * (k + 1)) as nat) is Err
            ==> is_gathered_disk(out->Ok_0@, origin, k as int),
{
    // Optimistically try the faster walk around the disk first
    match gridDiskDistancesUnsafe(origin, k) {
        Ok(out) => {
            proof {
                let cells = grid_disk_distances(origin, k as int)->Ok_0;
                assert forall|n: int| 0 <= n < out@.len() implies out@[n] == cells[n]
                    && (#[trigger] out@[n]).1 <= k by {
                    if n > 0 {
                        lemma_ring_number(n, out@[n].1 as int);
                        lemma_ring_within(n, out@[n].1 as int, k as int);
                    }
                }
            }
            return Ok(out);
        },
        Err(_) => {},
    };

    let maxIdx = maxGridDiskSize(k);

    // Fast algo failed, fall back to slower, correct algo
    let mut table: Vec<(H3Index, u32)> = Vec::new();
    let mut n: usize = 0;
    while n < maxIdx
        invariant
            n <= maxIdx,
            table@.len() == n,
            forall|i: int| 0 <= i < n ==> table@[i] == (0u64, 0u32),
        decreases maxIdx - n,
    {
        table.push((0, 0));
        n = n + 1;
    }
    assert(table@ =~= empty_table(maxIdx as nat));

    match _gridDiskDistancesInternal(origin, k, &mut table, maxIdx, 0) {
        Ok(_) => {},
        Err(e) => {
            return Err(e);
        },
    }
    let mut out: Vec<(H3Index, u32)> = Vec::new();
    let mut n: usize = 0;
    while n < maxIdx
        invariant
            n <= maxIdx,
            table@.len() == maxIdx,
            out@ == occupied_slots(table@, n as nat),
        decreases maxIdx - n,
    {
        let entry = table[n];
        if entry.0 != 0 {
            out.push(entry);
        }
        n = n + 1;
    }
    proof {
        if origin != 0 {
            crate::algos::gathering::lemma_grid_disk_gathered(origin, k as int);
        }
        if is_valid_cell(origin) {
            crate::h3_index::lemma_null_is_no_cell();
            assert forall|n: int| 0 <= n < out@.len() implies is_valid_cell(
                (#[trigger] out@[n]).0,
            ) by {
                crate::algos::steps::lemma_reached_is_valid(origin, out@[n].0, out@[n].1 as nat);
            }
        }
        let slot = choose|slot: int|
            0 <= slot < maxIdx && (#[trigger] table@[slot]).0 == origin && table@[slot].1 <= 0;
        lemma_occupied_slots(table@, maxIdx as nat, slot);
        assert forall|n: int| 0 <= n < out@.len() implies (#[trigger] out@[n]).1 <= k by {
        }
    }
    Ok(out)
}

/// A cell on a ring of a disk of `k` steps lies on a ring of a number up
/// to `k`.
proof fn lemma_ring_within(n: int, ring: int, k: int)
    requires
        1 <= n <= 3 * k * (k + 1),
        0 <= k,
        is_on_ring(n, ring),
    ensures
        ring <= k,
{
    if ring > k {
        assert(3 * ring * (ring - 1) >= 3 * k * (k + 1)) by (nonlinear_arith)
            requires
                ring >= k + 1,
                0 <= k,
        ;
    }
}

} // verus!
