use vstd::prelude::*;
use crate::base_cells::pentagons::is_base_cell_pentagon;
use crate::coord_ijk::{Direction, lemma_digit_rotations};
use crate::h3_index::{
    base_cell, header, high_bit, index_digit, is_valid_cell, leading_digit_from,
    leading_non_zero_digit, lemma_field_bounds, lemma_header_fields, lemma_rotate60,
    lemma_index_extensionality, lemma_rotate60_leading_digit, lemma_same_digits,
    lemma_with_base_cell, lemma_with_index_digit,
    mode, reserved_bits, resolution, rotate60_ccw, rotate60_ccw_times, rotate60_cw,
    rotate_pent60_ccw, rotate_pent60_ccw_times, rotate_pent60_cw, with_base_cell, with_index_digit,
};

verus! {

/// Whether an index is laid out as a cell: the highest bit and the
/// reserved bits are zero, the mode is that of a cell, the base cell is one
/// of the 122, the digits up to the resolution are moves and those beyond
/// it are unused. A cell is an index laid out so in which, in the base
/// cell of a pentagon, the first move is not along the deleted `k` axis.
pub open spec fn is_cell_layout(h: u64) -> bool {
    &&& high_bit(h) == 0
    &&& mode(h) == 1
    &&& reserved_bits(h) == 0
    &&& base_cell(h) < 122
    &&& forall|r: int|
        1 <= r <= resolution(h) ==> #[trigger] index_digit(h, r) != Direction::InvalidDigit
    &&& forall|r: int|
        resolution(h) < r <= 15 ==> #[trigger] index_digit(h, r) == Direction::InvalidDigit
}

/// A cell is an index laid out as a cell that keeps off the deleted axis
/// of a pentagon.
pub proof fn lemma_valid_cell_layout(h: u64)
    ensures
        is_valid_cell(h) <==> is_cell_layout(h) && (is_base_cell_pentagon(base_cell(h) as int)
            ==> leading_non_zero_digit(h) != Direction::KAxesDigit),
{
    if is_valid_cell(h) {
        assert forall|r: int| 1 <= r <= resolution(h) implies #[trigger] index_digit(h, r)
            != Direction::InvalidDigit by {
        }
        assert forall|r: int| resolution(h) < r <= 15 implies #[trigger] index_digit(h, r)
            == Direction::InvalidDigit by {
        }
    }
}

/// Two indexes of one resolution with the same digits up to it have the
/// same leading digit.
pub proof fn lemma_leading_digit_same(a: u64, b: u64, from: int)
    requires
        1 <= from,
        resolution(a) == resolution(b),
        forall|r: int| 1 <= r <= 15 ==> #[trigger] index_digit(a, r) == index_digit(b, r),
    ensures
        leading_digit_from(a, from) == leading_digit_from(b, from),
    decreases 16 - from,
{
    if from <= 15 && from <= resolution(a) {
        lemma_leading_digit_same(a, b, from + 1);
    }
}

/// Turning an index keeps the layout of a cell.
pub proof fn lemma_rotate60_layout(h: u64)
    requires
        is_cell_layout(h),
    ensures
        is_cell_layout(rotate60_ccw(h)),
        is_cell_layout(rotate60_cw(h)),
        base_cell(rotate60_ccw(h)) == base_cell(h),
        base_cell(rotate60_cw(h)) == base_cell(h),
        resolution(rotate60_ccw(h)) == resolution(h),
        resolution(rotate60_cw(h)) == resolution(h),
        leading_non_zero_digit(rotate60_ccw(h)) == leading_non_zero_digit(h).rotated_ccw(),
        leading_non_zero_digit(rotate60_cw(h)) == leading_non_zero_digit(h).rotated_cw(),
{
    lemma_rotate60(h);
    lemma_rotate60_leading_digit(h);
    lemma_header_fields(rotate60_ccw(h), h);
    lemma_header_fields(rotate60_cw(h), h);
    lemma_field_bounds(h);
    let ccw = rotate60_ccw(h);
    let cw = rotate60_cw(h);
    assert forall|r: int| 1 <= r <= resolution(ccw) implies #[trigger] index_digit(ccw, r)
        != Direction::InvalidDigit by {
    }
    assert forall|r: int| resolution(ccw) < r <= 15 implies #[trigger] index_digit(ccw, r)
        == Direction::InvalidDigit by {
    }
    assert forall|r: int| 1 <= r <= resolution(cw) implies #[trigger] index_digit(cw, r)
        != Direction::InvalidDigit by {
    }
    assert forall|r: int| resolution(cw) < r <= 15 implies #[trigger] index_digit(cw, r)
        == Direction::InvalidDigit by {
    }
}

/// Turning an index about the centre of a pentagon keeps the layout of a
/// cell, and leaves no first move on the deleted axis.
pub proof fn lemma_rotate_pent60_layout(h: u64)
    requires
        is_cell_layout(h),
    ensures
        is_cell_layout(rotate_pent60_ccw(h)),
        is_cell_layout(rotate_pent60_cw(h)),
        base_cell(rotate_pent60_ccw(h)) == base_cell(h),
        base_cell(rotate_pent60_cw(h)) == base_cell(h),
        resolution(rotate_pent60_ccw(h)) == resolution(h),
        resolution(rotate_pent60_cw(h)) == resolution(h),
        leading_non_zero_digit(rotate_pent60_ccw(h)) != Direction::KAxesDigit,
        leading_non_zero_digit(rotate_pent60_cw(h)) != Direction::KAxesDigit,
{
    lemma_rotate60_layout(h);
    lemma_rotate60_layout(rotate60_ccw(h));
    lemma_rotate60_layout(rotate60_cw(h));
}

/// Turning an index any number of times keeps the layout of a cell.
pub proof fn lemma_rotate60_times_layout(h: u64, n: nat)
    requires
        is_cell_layout(h),
    ensures
        is_cell_layout(rotate60_ccw_times(h, n)),
        base_cell(rotate60_ccw_times(h, n)) == base_cell(h),
        resolution(rotate60_ccw_times(h, n)) == resolution(h),
    decreases n,
{
    if n > 0 {
        lemma_rotate60_layout(h);
        lemma_rotate60_times_layout(rotate60_ccw(h), (n - 1) as nat);
    }
}

/// Turning an index about the centre of a pentagon any number of times
/// keeps the layout of a cell, and keeps the first move off the deleted
/// axis.
pub proof fn lemma_rotate_pent60_times_layout(h: u64, n: nat)
    requires
        is_cell_layout(h),
    ensures
        is_cell_layout(rotate_pent60_ccw_times(h, n)),
        base_cell(rotate_pent60_ccw_times(h, n)) == base_cell(h),
        resolution(rotate_pent60_ccw_times(h, n)) == resolution(h),
        n > 0 || leading_non_zero_digit(h) != Direction::KAxesDigit ==> leading_non_zero_digit(
            rotate_pent60_ccw_times(h, n),
        ) != Direction::KAxesDigit,
    decreases n,
{
    if n > 0 {
        lemma_rotate_pent60_layout(h);
        lemma_rotate_pent60_times_layout(rotate_pent60_ccw(h), (n - 1) as nat);
    }
}

/// Another base cell keeps the layout of a cell, its digits and its
/// leading digit.
pub proof fn lemma_with_base_cell_layout(h: u64, bc: u64)
    requires
        is_cell_layout(h),
        bc < 122,
    ensures
        is_cell_layout(with_base_cell(h, bc)),
        base_cell(with_base_cell(h, bc)) == bc,
        resolution(with_base_cell(h, bc)) == resolution(h),
        leading_non_zero_digit(with_base_cell(h, bc)) == leading_non_zero_digit(h),
{
    let out = with_base_cell(h, bc);
    lemma_with_base_cell(h, bc);
    lemma_same_digits(out, h);
    lemma_leading_digit_same(out, h, 1);
    lemma_field_bounds(h);
    assert forall|r: int| 1 <= r <= resolution(out) implies #[trigger] index_digit(out, r)
        != Direction::InvalidDigit by {
    }
    assert forall|r: int| resolution(out) < r <= 15 implies #[trigger] index_digit(out, r)
        == Direction::InvalidDigit by {
    }
}

/// Another move in the place of a digit up to the resolution keeps the
/// layout of a cell.
pub proof fn lemma_with_index_digit_layout(h: u64, res: int, digit: Direction)
    requires
        is_cell_layout(h),
        1 <= res <= resolution(h),
        digit != Direction::InvalidDigit,
    ensures
        is_cell_layout(with_index_digit(h, res, digit)),
        header(with_index_digit(h, res, digit)) == header(h),
        resolution(with_index_digit(h, res, digit)) == resolution(h),
        base_cell(with_index_digit(h, res, digit)) == base_cell(h),
{
    lemma_field_bounds(h);
    lemma_with_index_digit(h, res, digit);
}

/// Six turns of 60 degrees bring every index back to itself.
pub proof fn lemma_rotate60_six_times(h: u64)
    ensures
        rotate60_ccw_times(h, 6) == h,
{
    reveal_with_fuel(rotate60_ccw_times, 7);
    let h1 = rotate60_ccw(h);
    let h2 = rotate60_ccw(h1);
    let h3 = rotate60_ccw(h2);
    let h4 = rotate60_ccw(h3);
    let h5 = rotate60_ccw(h4);
    let h6 = rotate60_ccw(h5);
    lemma_rotate60(h);
    lemma_rotate60(h1);
    lemma_rotate60(h2);
    lemma_rotate60(h3);
    lemma_rotate60(h4);
    lemma_rotate60(h5);
    assert forall|r: int| 1 <= r <= 15 implies index_digit(h6, r) == index_digit(h, r) by {
        let d = index_digit(h, r);
        reveal_with_fuel(Direction::rotated_ccw_times, 7);
        lemma_digit_rotations(d);
        assert(index_digit(h1, r) == (if r <= resolution(h) {
            d.rotated_ccw()
        } else {
            d
        }));
        assert(index_digit(h2, r) == (if r <= resolution(h) {
            d.rotated_ccw().rotated_ccw()
        } else {
            d
        }));
        assert(index_digit(h3, r) == (if r <= resolution(h) {
            d.rotated_ccw().rotated_ccw().rotated_ccw()
        } else {
            d
        }));
        assert(index_digit(h4, r) == (if r <= resolution(h) {
            d.rotated_ccw().rotated_ccw().rotated_ccw().rotated_ccw()
        } else {
            d
        }));
        assert(index_digit(h5, r) == (if r <= resolution(h) {
            d.rotated_ccw().rotated_ccw().rotated_ccw().rotated_ccw().rotated_ccw()
        } else {
            d
        }));
    }
    lemma_index_extensionality(h6, h);
}

} // verus!
