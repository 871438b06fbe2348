use vstd::prelude::*;
use crate::base_cells::face_cells::{face_ijk_base_cell, is_face_lookup, lemma_face_base_cells};
use crate::base_cells::face_rotations::{face_ijk_base_cell_rotations, lemma_face_rotations};
use crate::base_cells::pentagons::is_base_cell_pentagon;
use crate::coord_ijk::{lemma_up_ap7_span, CoordIJK, Direction, Ijk};
use crate::base_cells::homes::{home_fijk, lemma_home_base_cell, lemma_home_is_lookup};
use crate::base_cells::{lemma_res0_cell, res0_cell};
use crate::error::Error;
use crate::face_ijk::neighbors::max_dim;
use crate::face_ijk::{overage_kind, FaceCoord, FaceIJK};
use crate::h3_index::projection::{
    base_cell_coord, digit_of_coord, face_ijk_to_h3, h3_to_face_ijk, oriented_index,
    parent_coord, with_digits_of_coord,
};
use crate::h3_index::validity::{
    is_cell_layout, lemma_rotate60_layout, lemma_rotate60_times_layout,
    lemma_rotate_pent60_times_layout, lemma_valid_cell_layout, lemma_with_base_cell_layout,
};
use crate::h3_index::{
    base_cell, header, index_digit, is_valid_cell, leading_non_zero_digit, lemma_digit_shift,
    lemma_field_bounds, lemma_header_fields, lemma_init_index, lemma_same_digits,
    lemma_with_base_cell, lemma_with_index_digit, lemma_with_mode, lemma_with_resolution,
    resolution, with_base_cell, with_index_digit, with_mode, with_resolution, H3_INIT,
};
use crate::H3_NULL;

verus! {

/// Every digit that is read off a coordinate is a move: a cell is the
/// centre child of its parent or one of the six cells around it.
pub proof fn lemma_digit_of_coord(c: Ijk, res: int)
    ensures
        digit_of_coord(c, res) != Direction::InvalidDigit,
{
}

/// The digits read off a coordinate are moves; the finer digits and the
/// fields above the digits are left as they were.
pub proof fn lemma_with_digits_of_coord(h: u64, c: Ijk, res: int)
    requires
        res <= 15,
    ensures
        header(with_digits_of_coord(h, c, res)) == header(h),
        forall|r: int|
            1 <= r <= res ==> #[trigger] index_digit(with_digits_of_coord(h, c, res), r)
                != Direction::InvalidDigit,
        forall|r: int|
            res < r <= 15 && 1 <= r ==> #[trigger] index_digit(with_digits_of_coord(h, c, res), r)
                == index_digit(h, r),
    decreases res,
{
    if res > 0 {
        let set = with_index_digit(h, res, digit_of_coord(c, res));
        lemma_digit_of_coord(c, res);
        lemma_with_index_digit(h, res, digit_of_coord(c, res));
        lemma_with_digits_of_coord(set, parent_coord(c, res), res - 1);
        let out = with_digits_of_coord(h, c, res);
        assert forall|r: int| 1 <= r <= res implies #[trigger] index_digit(out, r)
            != Direction::InvalidDigit by {
        }
        assert forall|r: int| res < r <= 15 && 1 <= r implies #[trigger] index_digit(out, r)
            == index_digit(h, r) by {
        }
    }
}

/// The coordinate of the base cell of a cell below resolution 0 is in
/// normal form.
pub proof fn lemma_base_cell_coord(c: Ijk, res: int)
    requires
        1 <= res,
    ensures
        base_cell_coord(c, res).is_normal(),
    decreases res,
{
    lemma_up_ap7_span(c);
    if res > 1 {
        lemma_base_cell_coord(parent_coord(c, res), res - 1);
    } else {
        assert(base_cell_coord(parent_coord(c, res), 0) == parent_coord(c, res));
    }
}

/// An index laid out as a cell is a cell once it is turned into the frame
/// of its base cell.
pub proof fn lemma_oriented_index(h: u64, face: int, turns: int)
    requires
        is_cell_layout(h),
        0 <= turns,
    ensures
        is_valid_cell(oriented_index(h, base_cell(h) as int, face, turns)),
        resolution(oriented_index(h, base_cell(h) as int, face, turns)) == resolution(h),
        base_cell(oriented_index(h, base_cell(h) as int, face, turns)) == base_cell(h),
{
    let out = oriented_index(h, base_cell(h) as int, face, turns);
    lemma_rotate60_layout(h);
    if is_base_cell_pentagon(base_cell(h) as int) {
        let start = if leading_non_zero_digit(h) == Direction::KAxesDigit {
            if crate::base_cells::pentagons::is_cw_offset(base_cell(h) as int, face) {
                crate::h3_index::rotate60_cw(h)
            } else {
                crate::h3_index::rotate60_ccw(h)
            }
        } else {
            h
        };
        lemma_rotate_pent60_times_layout(start, turns as nat);
    } else {
        lemma_rotate60_times_layout(h, turns as nat);
    }
    lemma_valid_cell_layout(out);
}

/// The index found for a coordinate of a face is a cell of the resolution
/// asked for, where it is not `H3_NULL`.
pub proof fn lemma_face_ijk_to_h3_is_cell(fijk: FaceIJK, res: int)
    requires
        0 <= res <= 15,
        0 <= fijk.face < 20,
        res == 0 ==> fijk.coord.i >= 0 && fijk.coord.j >= 0 && fijk.coord.k >= 0,
    ensures
        face_ijk_to_h3(fijk, res) == H3_NULL || (is_valid_cell(face_ijk_to_h3(fijk, res))
            && resolution(face_ijk_to_h3(fijk, res)) == res),
{
    let with_mode_set = with_mode(H3_INIT, 1);
    let blank = with_resolution(with_mode_set, res as u64);
    let base = base_cell_coord(fijk.coord@, res);
    if !(base.i > 2 || base.j > 2 || base.k > 2) {
        if res > 0 {
            lemma_base_cell_coord(fijk.coord@, res);
        }
        let home = FaceIJK {
            face: fijk.face,
            coord: CoordIJK { i: base.i as i32, j: base.j as i32, k: base.k as i32 },
        };
        lemma_face_base_cells(home);
        lemma_face_rotations(home);
        let bc = face_ijk_base_cell(home);
        // the blank index has the fields of a cell and no digit
        lemma_init_index();
        lemma_with_mode(H3_INIT, 1);
        lemma_with_resolution(with_mode_set, res as u64);
        lemma_same_digits(with_mode_set, H3_INIT);
        lemma_same_digits(blank, with_mode_set);
        assert forall|r: int| 1 <= r <= 15 implies index_digit(blank, r)
            == Direction::InvalidDigit by {
            lemma_digit_shift(r);
        }
        let digits = with_digits_of_coord(blank, fijk.coord@, res);
        lemma_with_digits_of_coord(blank, fijk.coord@, res);
        lemma_header_fields(digits, blank);
        let h = with_base_cell(digits, bc as u64);
        lemma_with_base_cell(digits, bc as u64);
        lemma_same_digits(h, digits);
        assert(is_cell_layout(h)) by {
            assert forall|r: int| 1 <= r <= resolution(h) implies #[trigger] index_digit(h, r)
                != Direction::InvalidDigit by {
            }
            assert forall|r: int| resolution(h) < r <= 15 implies #[trigger] index_digit(h, r)
                == Direction::InvalidDigit by {
            }
        }
        if res == 0 {
            lemma_valid_cell_layout(h);
        } else {
            lemma_oriented_index(h, fijk.face as int, face_ijk_base_cell_rotations(home));
        }
    }
}

/// A cell of resolution 0 lies at the home of its base cell, and the cell
/// found there at resolution 0 is that cell.
pub proof fn lemma_res0_round_trip(base_cell: int)
    requires
        0 <= base_cell < 122,
    ensures
        h3_to_face_ijk(res0_cell(base_cell)) == Ok::<FaceCoord, Error>(home_fijk(base_cell)@),
        face_ijk_to_h3(home_fijk(base_cell), 0) == res0_cell(base_cell),
{
    let cell = res0_cell(base_cell);
    let home = home_fijk(base_cell);
    lemma_res0_cell(base_cell);
    lemma_home_is_lookup(base_cell);
    lemma_home_base_cell(base_cell);
    reveal(overage_kind);
    reveal(max_dim);
    lemma_init_index();
    lemma_with_mode(H3_INIT, 1);
    lemma_with_resolution(with_mode(H3_INIT, 1), 0);
}

} // verus!
