use vstd::prelude::*;
use crate::base_cells::face_cells::{_faceIjkToBaseCell, face_ijk_base_cell};
use crate::base_cells::face_rotations::{_faceIjkToBaseCellCCWrot60, face_ijk_base_cell_rotations};
use crate::base_cells::homes::{home_fijk, homeFijk};
use crate::base_cells::pentagons::{
    _baseCellIsCwOffset, _isBaseCellPentagon, is_base_cell_pentagon, is_cw_offset,
};
use crate::base_cells::MAX_FACE_COORD;
use crate::constants::{H3_CELL_MODE, NUM_BASE_CELLS};
use crate::coord_ijk::{
    CoordIJK, Direction, Ijk, _downAp7, _downAp7r, _ijkNormalize, _ijkSub, _neighbor,
    _unitIjkToDigit, _upAp7, _upAp7r, lemma_down_ap7_span, lemma_up_ap7_span,
};
use crate::error::Error;
use crate::face_ijk::{
    FaceCoord, FaceIJK, Overage, _adjustOverageClassII, adjusted_coord, adjusted_face,
    lemma_adjusted_coord_bound, overage_kind,
};
use crate::h3_index::{
    H3Index, H3_GET_BASE_CELL, H3_GET_INDEX_DIGIT, H3_GET_RESOLUTION, H3_INIT, H3_SET_BASE_CELL,
    H3_SET_INDEX_DIGIT, H3_SET_MODE, H3_SET_RESOLUTION, _h3LeadingNonZeroDigit, _h3Rotate60ccw,
    _h3Rotate60ccwTimes, _h3Rotate60cw, _h3RotatePent60ccwTimes, base_cell, index_digit,
    isResolutionClassIII, is_class_iii, is_valid_cell, leading_non_zero_digit, lemma_rotate60,
    resolution,
    rotate60_ccw, rotate60_ccw_times, rotate60_cw, rotate_pent60_ccw_times, with_base_cell,
    with_index_digit, with_mode, with_resolution,
};
use crate::H3_NULL;

verus! {

/// The largest component, in absolute value, of a coordinate that
/// `_faceIjkToH3` takes.
pub const MAX_IJK_COMPONENT: i32 = 0x1000_0000;

/// The most further faces that `_h3ToFaceIjk` follows a cell of a
/// pentagon's base cell over, once it has left its home face.
pub const MAX_SECONDARY_OVERAGES: i32 = 10;

// ---------------------------------------------------------------------
// From a face coordinate to an index
// ---------------------------------------------------------------------

/// The parent of the cell of resolution `res` at a coordinate.
pub open spec fn parent_coord(c: Ijk, res: int) -> Ijk {
    if is_class_iii(res) {
        c.up_ap7()
    } else {
        c.up_ap7r()
    }
}

/// The centre child, at resolution `res`, of the cell at a coordinate.
pub open spec fn center_child_coord(c: Ijk, res: int) -> Ijk {
    if is_class_iii(res) {
        c.down_ap7()
    } else {
        c.down_ap7r()
    }
}

/// The digit of the cell of resolution `res` at a coordinate: the move that
/// leads to it from the centre child of its parent.
pub open spec fn digit_of_coord(c: Ijk, res: int) -> Direction {
    Direction::of_unit_vector(
        c.minus(center_child_coord(parent_coord(c, res), res)).normalized(),
    )
}

/// The index with the digits of resolutions `1..=res` of the cell at a
/// coordinate.
pub open spec fn with_digits_of_coord(h: u64, c: Ijk, res: int) -> u64
    decreases res,
{
    if res <= 0 {
        h
    } else {
        with_digits_of_coord(
            with_index_digit(h, res, digit_of_coord(c, res)),
            parent_coord(c, res),
            res - 1,
        )
    }
}

/// The coordinate of the base cell of the cell of resolution `res` at a
/// coordinate.
pub open spec fn base_cell_coord(c: Ijk, res: int) -> Ijk
    decreases res,
{
    if res <= 0 {
        c
    } else {
        base_cell_coord(parent_coord(c, res), res - 1)
    }
}

/// An index whose digits were read off on a face, turned into the frame of
/// its base cell. In the base cell of a pentagon, an index whose first
/// move lies on the deleted `k` axis is first turned out of it, clockwise
/// where the pentagon is met clockwise on that face.
pub open spec fn oriented_index(h: u64, base_cell: int, face: int, turns: int) -> u64 {
    if is_base_cell_pentagon(base_cell) {
        rotate_pent60_ccw_times(
            if leading_non_zero_digit(h) == Direction::KAxesDigit {
                if is_cw_offset(base_cell, face) {
                    rotate60_cw(h)
                } else {
                    rotate60_ccw(h)
                }
            } else {
                h
            },
            turns as nat,
        )
    } else {
        rotate60_ccw_times(h, turns as nat)
    }
}

/// The cell of resolution `res` at a coordinate of a face; `H3_NULL` where
/// the coordinate lies too far from the face to have a base cell.
pub open spec fn face_ijk_to_h3(fijk: FaceIJK, res: int) -> u64 {
    let blank = with_resolution(with_mode(H3_INIT, 1), res as u64);
    let base = base_cell_coord(fijk.coord@, res);
    if base.i > 2 || base.j > 2 || base.k > 2 {
        H3_NULL
    } else {
        let home = FaceIJK {
            face: fijk.face,
            coord: CoordIJK { i: base.i as i32, j: base.j as i32, k: base.k as i32 },
        };
        let h = with_base_cell(
            with_digits_of_coord(blank, fijk.coord@, res),
            face_ijk_base_cell(home) as u64,
        );
        if res == 0 {
            h
        } else {
            oriented_index(
                h,
                face_ijk_base_cell(home),
                fijk.face as int,
                face_ijk_base_cell_rotations(home),
            )
        }
    }
}

/// The parent of a cell within reach lies within reach, in normal form,
/// and so does the centre child of the parent, three times as far.
proof fn lemma_parent_in_reach(c: Ijk, res: int)
    requires
        c.within(MAX_IJK_COMPONENT as int),
    ensures
        parent_coord(c, res).is_normal(),
        parent_coord(c, res).within(MAX_IJK_COMPONENT as int),
        center_child_coord(parent_coord(c, res), res).is_normal(),
        center_child_coord(parent_coord(c, res), res).max_component() <= 3 * (
        MAX_IJK_COMPONENT as int),
{
    lemma_up_ap7_span(c);
    lemma_down_ap7_span(parent_coord(c, res), Direction::CenterDigit);
}

/// Turns an index, whose digits were read off on a face, into the frame of
/// its base cell.
fn orient_index(h: H3Index, baseCell: i32, face: i32, numRots: i32) -> (out: H3Index)
    requires
        0 <= baseCell < 122,
        0 <= numRots,
    ensures
        out == oriented_index(h, baseCell as int, face as int, numRots as int),
{
    let mut h = h;
    if _isBaseCellPentagon(baseCell) {
        // force rotation out of missing k-axes sub-sequence
        if _h3LeadingNonZeroDigit(h) == Direction::KAxesDigit {
            // check for a cw/ccw offset face; default is ccw
            if _baseCellIsCwOffset(baseCell, face) {
                h = _h3Rotate60cw(h);
            } else {
                h = _h3Rotate60ccw(h);
            }
        }
        _h3RotatePent60ccwTimes(h, numRots)
    } else {
        _h3Rotate60ccwTimes(h, numRots)
    }
}

/// The cell of resolution `res` at a coordinate of a face. The digits are
/// read off from the finest up: each is the move from the centre child of
/// the parent to the cell. What is left is the coordinate of the base cell
/// on that face; where it is none, the result is `H3_NULL`.
pub fn _faceIjkToH3(fijk: &FaceIJK, res: i32) -> (h: H3Index)
    requires
        0 <= res <= 15,
        0 <= fijk.face < 20,
        fijk.coord@.within(MAX_IJK_COMPONENT as int),
        res == 0 ==> fijk.coord.i >= 0 && fijk.coord.j >= 0 && fijk.coord.k >= 0,
    ensures
        h == face_ijk_to_h3(*fijk, res as int),
        h == H3_NULL || (is_valid_cell(h) && resolution(h) == res),
{
    proof {
        crate::h3_index::projected::lemma_face_ijk_to_h3_is_cell(*fijk, res as int);
    }
    // initialize the index
    let mut h: H3Index = H3_INIT;
    H3_SET_MODE(&mut h, H3_CELL_MODE);
    H3_SET_RESOLUTION(&mut h, res);
    let ghost blank = h;

    // check for res 0/base cell
    if res == 0 {
        if fijk.coord.i > MAX_FACE_COORD || fijk.coord.j > MAX_FACE_COORD || fijk.coord.k
            > MAX_FACE_COORD {
            // out of range input
            return H3_NULL;
        }
        H3_SET_BASE_CELL(&mut h, _faceIjkToBaseCell(fijk));
        return h;
    }
    // we need to find the correct base cell FaceIJK for this H3 index;
    // start with the passed in face and resolution res ijk coordinates
    // in that face's coordinate system

    let mut fijkBC: FaceIJK = *fijk;

    // build the H3Index from finest res up
    // adjust r for the fact that the res 0 base cell offsets the indexing
    // digits
    let mut ijk: CoordIJK = fijkBC.coord;
    let mut r: i32 = res;
    while r > 0
        invariant
            0 <= r <= res <= 15,
            ijk@.within(MAX_IJK_COMPONENT as int),
            r < res ==> ijk@.is_normal(),
            with_digits_of_coord(h, ijk@, r as int) == with_digits_of_coord(
                blank,
                fijk.coord@,
                res as int,
            ),
            base_cell_coord(ijk@, r as int) == base_cell_coord(fijk.coord@, res as int),
        decreases r,
    {
        let lastIJK: CoordIJK = ijk;
        let mut lastCenter: CoordIJK;
        proof {
            lemma_parent_in_reach(ijk@, r as int);
        }
        if isResolutionClassIII(r) {
            // rotate ccw
            _upAp7(&mut ijk);
            lastCenter = ijk;
            _downAp7(&mut lastCenter);
        } else {
            // rotate cw
            _upAp7r(&mut ijk);
            lastCenter = ijk;
            _downAp7r(&mut lastCenter);
        }

        let mut diff: CoordIJK = CoordIJK { i: 0, j: 0, k: 0 };
        _ijkSub(lastIJK, lastCenter, &mut diff);
        proof {
            crate::coord_ijk::lemma_normalized(diff@);
        }
        _ijkNormalize(&mut diff);
        let digit = _unitIjkToDigit(diff);
        proof {
            crate::coord_ijk::lemma_direction_value_round_trip(digit, 0);
        }
        H3_SET_INDEX_DIGIT(&mut h, r, digit.bits() as i32);
        r = r - 1;
    }
    fijkBC.coord = ijk;

    // fijkBC should now hold the IJK of the base cell in the
    // coordinate system of the current face

    if fijkBC.coord.i > MAX_FACE_COORD || fijkBC.coord.j > MAX_FACE_COORD || fijkBC.coord.k
        > MAX_FACE_COORD {
        // out of range input
        return H3_NULL;
    }
    // lookup the correct base cell

    let baseCell: i32 = _faceIjkToBaseCell(&fijkBC);
    H3_SET_BASE_CELL(&mut h, baseCell);

    // rotate if necessary to get canonical base cell orientation
    // for this base cell
    let numRots: i32 = _faceIjkToBaseCellCCWrot60(&fijkBC);
    orient_index(h, baseCell, fijkBC.face, numRots)
}

// ---------------------------------------------------------------------
// From an index to a face coordinate
// ---------------------------------------------------------------------

/// The coordinate reached from that of an ancestor of resolution
/// `from - 1` by going down the digits of resolutions `from..=resolution(h)`:
/// at each, to the centre child, and from there one step in the direction
/// of the digit.
pub open spec fn descend_digits(h: u64, c: Ijk, from: int) -> Ijk
    decreases 16 - from,
{
    if from < 1 || from > 15 || from > resolution(h) {
        c
    } else {
        descend_digits(h, center_child_coord(c, from).neighbor(index_digit(h, from)), from + 1)
    }
}

/// How far from the centre of its base cell's face a cell of resolution
/// `res` can lie at most: a base cell two cells, and every cell one step
/// from the centre child of its parent.
pub open spec fn reach(res: int) -> int
    decreases res,
{
    if res <= 0 {
        2
    } else {
        3 * reach(res - 1) + 1
    }
}

/// The reach grows with the resolution, and stays within what a coordinate
/// holds up to the resolution of the finest substrate grid.
pub proof fn lemma_reach(res: int)
    requires
        0 <= res <= 16,
    ensures
        2 <= reach(res) <= 107616802,
        res < 16 ==> reach(res) <= reach(res + 1),
    decreases 16 - res,
{
    if res < 16 {
        lemma_reach(res + 1);
        lemma_reach_positive(res);
    } else {
        reveal_with_fuel(reach, 17);
    }
}

/// The reach is at least two cells.
proof fn lemma_reach_positive(res: int)
    ensures
        reach(res) >= 2,
    decreases res,
{
    if res > 0 {
        lemma_reach_positive(res - 1);
    }
}

/// One step down the digits of an index keeps the coordinate in normal
/// form and within the reach of the resolution.
proof fn lemma_descend_step(c: Ijk, res: int, digit: Direction)
    requires
        1 <= res <= 16,
        c.is_normal(),
        c.max_component() <= reach(res - 1),
    ensures
        center_child_coord(c, res).is_normal(),
        center_child_coord(c, res).max_component() <= reach(res) - 1,
        center_child_coord(c, res).neighbor(digit).is_normal(),
        center_child_coord(c, res).neighbor(digit).max_component() <= reach(res),
        reach(res) <= 107616802,
{
    lemma_reach(res);
    lemma_down_ap7_span(c, Direction::CenterDigit);
    lemma_down_ap7_span(center_child_coord(c, res), digit);
}

/// Whether a cell can lie on another face than the home face of its base
/// cell: not where the base cell is a hexagon in the middle of its face,
/// nor at resolution 0.
pub open spec fn possible_overage(h: u64, home: Ijk) -> bool {
    !(!is_base_cell_pentagon(base_cell(h) as int) && (resolution(h) == 0 || (home.i == 0 && home.j
        == 0 && home.k == 0)))
}

/// The face and the coordinate on which a cell of a pentagon's base cell
/// comes to lie when it is followed from face to face, over no more than
/// `fuel` faces.
pub open spec fn settle_overage(at: FaceCoord, res: int, fuel: nat) -> Option<FaceCoord>
    decreases fuel,
{
    if overage_kind(at.face, at.coord, res, false, false) == Overage::NoOverage {
        Some(at)
    } else if fuel == 0 {
        None
    } else {
        settle_overage(
            FaceCoord {
                face: adjusted_face(at.face, at.coord, res, false),
                coord: adjusted_coord(at.face, at.coord, res, false, false),
            },
            res,
            (fuel - 1) as nat,
        )
    }
}

/// A coordinate of a Class III resolution is looked at in the Class II grid
/// of the next finer resolution.
pub open spec fn class_ii_coord(c: Ijk, res: int) -> Ijk {
    if is_class_iii(res) {
        c.down_ap7r()
    } else {
        c
    }
}

/// The Class II resolution at which a coordinate is looked at.
pub open spec fn class_ii_res(res: int) -> int {
    if is_class_iii(res) {
        res + 1
    } else {
        res
    }
}

/// The face on which a cell lies that may have left the home face of its
/// base cell, and its coordinate there. `c` is its coordinate in the frame
/// of the home face. An overage is looked for in a Class II grid; a cell
/// past the edge of the home face is put on the face on which it lies, and
/// in a pentagon's base cell followed further until it lies on a face.
pub open spec fn on_actual_face(
    home_face: int,
    c: Ijk,
    res: int,
    pentagon: bool,
    leading_4: bool,
) -> Result<FaceCoord, Error> {
    let c2 = class_ii_coord(c, res);
    let res2 = class_ii_res(res);
    if overage_kind(home_face, c2, res2, leading_4, false) == Overage::NoOverage {
        Ok(FaceCoord { face: home_face, coord: c })
    } else {
        let moved = FaceCoord {
            face: adjusted_face(home_face, c2, res2, false),
            coord: adjusted_coord(home_face, c2, res2, leading_4, false),
        };
        match (if pentagon {
            settle_overage(moved, res2, MAX_SECONDARY_OVERAGES as nat)
        } else {
            Some(moved)
        }) {
            None => Err(Error::Failed),
            Some(at) => Ok(
                FaceCoord {
                    face: at.face,
                    coord: if is_class_iii(res) {
                        at.coord.up_ap7r()
                    } else {
                        at.coord
                    },
                },
            ),
        }
    }
}

/// The index whose digits are followed down from the home of its base
/// cell: in a pentagon's base cell an index with leading digit 5 is first
/// turned clockwise, out of the sequence that the pentagon lacks.
pub open spec fn turned_for_descent(h: u64) -> u64 {
    if is_base_cell_pentagon(base_cell(h) as int) && leading_non_zero_digit(h)
        == Direction::IKAxesDigit {
        rotate60_cw(h)
    } else {
        h
    }
}

/// The face on which a cell lies, and its coordinate there. An index whose
/// base cell is none names no cell.
pub open spec fn h3_to_face_ijk(h: u64) -> Result<FaceCoord, Error> {
    let bc = base_cell(h) as int;
    let turned = turned_for_descent(h);
    let home = home_fijk(bc);
    let c = descend_digits(turned, home.coord@, 1);
    if bc >= 122 {
        Err(Error::CellInvalid)
    } else if !possible_overage(turned, home.coord@) {
        Ok(FaceCoord { face: home.face as int, coord: c })
    } else {
        on_actual_face(
            home.face as int,
            c,
            resolution(turned) as int,
            is_base_cell_pentagon(bc),
            is_base_cell_pentagon(bc) && leading_non_zero_digit(turned) == Direction::IAxesDigit,
        )
    }
}

/// Follows the digits of an index down from the coordinate of its base
/// cell, which `fijk` holds on entry, to the coordinate of the cell on the
/// same face. Says whether the cell can lie on another face.
pub fn _h3ToFaceIjkWithInitializedFijk(h: H3Index, fijk: &mut FaceIJK) -> (overage: bool)
    requires
        old(fijk).coord@.is_normal(),
        old(fijk).coord@.max_component() <= 2,
    ensures
        overage == possible_overage(h, old(fijk).coord@),
        final(fijk).face == old(fijk).face,
        final(fijk).coord@ == descend_digits(h, old(fijk).coord@, 1),
        final(fijk).coord@.is_normal(),
        final(fijk).coord@.max_component() <= reach(resolution(h) as int),
{
    let res = H3_GET_RESOLUTION(h);

    // center base cell hierarchy is entirely on this face
    let mut possibleOverage = true;
    if !_isBaseCellPentagon(H3_GET_BASE_CELL(h)) && (res == 0 || (fijk.coord.i == 0 && fijk.coord.j
        == 0 && fijk.coord.k == 0)) {
        possibleOverage = false;
    }
    let mut ijk: CoordIJK = fijk.coord;
    let mut r: i32 = 1;
    while r <= res
        invariant
            1 <= r <= res + 1,
            res == resolution(h),
            res <= 15,
            ijk@.is_normal(),
            ijk@.max_component() <= reach(r - 1),
            descend_digits(h, ijk@, r as int) == descend_digits(h, old(fijk).coord@, 1),
        decreases res + 1 - r,
    {
        proof {
            lemma_descend_step(ijk@, r as int, index_digit(h, r as int));
        }
        if isResolutionClassIII(r) {
            // Class III == rotate ccw
            _downAp7(&mut ijk);
        } else {
            // Class II == rotate cw
            _downAp7r(&mut ijk);
        }
        _neighbor(&mut ijk, H3_GET_INDEX_DIGIT(h, r));
        r = r + 1;
    }
    fijk.coord = ijk;
    possibleOverage
}

/// Follows a cell of a pentagon's base cell from face to face until it
/// lies on one. Gives up after `MAX_SECONDARY_OVERAGES` faces.
fn settle_on_face(fijk: &mut FaceIJK, res: i32) -> (settled: bool)
    requires
        0 <= res <= 16,
        0 <= old(fijk).face < 20,
        old(fijk).coord@.is_normal(),
        old(fijk).coord@.max_component() <= 142205609,
    ensures
        match settle_overage(old(fijk)@, res as int, MAX_SECONDARY_OVERAGES as nat) {
            Some(at) => settled && final(fijk)@ == at,
            None => !settled,
        },
        settled ==> final(fijk).coord@.is_normal() && final(fijk).coord@.max_component()
            <= 0x1000_0000,
        0 <= final(fijk).face < 20,
{
    let mut left: i32 = MAX_SECONDARY_OVERAGES;
    loop
        invariant
            0 <= left <= 10,
            0 <= res <= 16,
            0 <= fijk.face < 20,
            fijk.coord@.is_normal(),
            fijk.coord@.max_component() <= 142205609 + (10 - left) * 11529602,
            settle_overage(fijk@, res as int, left as nat) == settle_overage(
                old(fijk)@,
                res as int,
                MAX_SECONDARY_OVERAGES as nat,
            ),
        decreases left,
    {
        proof {
            lemma_adjusted_coord_bound(
                fijk.face as int,
                fijk.coord@,
                res as int,
                false,
                fijk.coord@.max_component(),
            );
        }
        if _adjustOverageClassII(fijk, res, false, false) == Overage::NoOverage {
            return true;
        }
        if left == 0 {
            return false;
        }
        left = left - 1;
    }
}

/// Puts a cell that may have left the home face of its base cell on the
/// face on which it lies.
#[verifier::rlimit(60)]
fn put_on_actual_face(fijk: &mut FaceIJK, cellRes: i32, pentagon: bool, pentLeading4: bool) -> (done:
    Result<(), Error>)
    requires
        0 <= cellRes <= 15,
        0 <= old(fijk).face < 20,
        old(fijk).coord@.is_normal(),
        old(fijk).coord@.max_component() <= reach(cellRes as int),
    ensures
        match on_actual_face(
            old(fijk).face as int,
            old(fijk).coord@,
            cellRes as int,
            pentagon,
            pentLeading4,
        ) {
            Ok(at) => done is Ok && final(fijk)@ == at,
            Err(e) => done == Err::<(), Error>(e),
        },
        0 <= final(fijk).face < 20,
        done is Ok ==> final(fijk).coord@.is_normal(),
{
    let origIJK = fijk.coord;

    // if we're in Class III, drop into the next finer Class II grid
    let mut res = cellRes;
    proof {
        lemma_reach(res as int);
        lemma_descend_step(fijk.coord@, res + 1, Direction::CenterDigit);
    }
    if isResolutionClassIII(res) {
        // Class III
        _downAp7r(&mut fijk.coord);
        res = res + 1;
    }
    proof {
        lemma_adjusted_coord_bound(
            fijk.face as int,
            fijk.coord@,
            res as int,
            pentLeading4,
            107616802int,
        );
    }
    // adjust for overage if needed
    // a pentagon base cell with a leading 4 digit requires special handling
    if _adjustOverageClassII(fijk, res, pentLeading4, false) != Overage::NoOverage {
        // if the base cell is a pentagon we have the potential for secondary
        // overages
        if pentagon {
            if !settle_on_face(fijk, res) {
                return Err(Error::Failed);
            }
        }
        if res != cellRes {
            proof {
                lemma_up_ap7_span(fijk.coord@);
            }
            _upAp7r(&mut fijk.coord);
        }
    } else if res != cellRes {
        fijk.coord = origIJK;
    }
    Ok(())
}

/// The face on which a cell lies, and its coordinate there.
pub fn _h3ToFaceIjk(h: H3Index) -> (out: Result<FaceIJK, Error>)
    ensures
        match h3_to_face_ijk(h) {
            Ok(at) => out is Ok && out->Ok_0@ == at,
            Err(e) => out == Err::<FaceIJK, Error>(e),
        },
        out is Ok ==> 0 <= out->Ok_0.face < 20 && out->Ok_0.coord@.is_normal(),
{
    let mut h = h;
    let baseCell = H3_GET_BASE_CELL(h);
    if baseCell < 0 || baseCell >= NUM_BASE_CELLS {
        // Base cells less than zero can not be represented in an index
        return Err(Error::CellInvalid);
    }
    // adjust for the pentagonal missing sequence; all of sub-sequence 5 needs
    // to be adjusted (and some of sub-sequence 4 below)

    if _isBaseCellPentagon(baseCell) && _h3LeadingNonZeroDigit(h) == Direction::IKAxesDigit {
        proof {
            lemma_rotate60(h);
        }
        h = _h3Rotate60cw(h);
    }
    // start with the "home" face and ijk+ coordinates for the base cell of c

    let mut fijk: FaceIJK = homeFijk(baseCell);
    if !_h3ToFaceIjkWithInitializedFijk(h, &mut fijk) {
        return Ok(fijk);  // no overage is possible; h lies on this face
    }
    // if we're here we have the potential for an "overage"; i.e., it is
    // possible that c lies on an adjacent face

    let pentagon = _isBaseCellPentagon(baseCell);
    let pentLeading4 = pentagon && _h3LeadingNonZeroDigit(h) == Direction::IAxesDigit;
    match put_on_actual_face(&mut fijk, H3_GET_RESOLUTION(h), pentagon, pentLeading4) {
        Ok(_) => Ok(fijk),
        Err(e) => Err(e),
    }
}

} // verus!
