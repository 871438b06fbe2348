use vstd::prelude::*;
use vstd::arithmetic::div_mod::{lemma_fundamental_div_mod, lemma_fundamental_div_mod_converse};
use crate::base_cells::pentagons::is_base_cell_pentagon;
use crate::coord_ijk::{Direction, lemma_direction_value_round_trip};
use crate::error::Error;
use crate::h3_index::hierarchy::{
    cell_to_children, cell_to_children_size, child_at, child_pos_to_cell, hexagon_child_at,
    lemma_pow7, pentagon_child_at, pentagon_children, pow7, sevens_below,
};
use crate::h3_index::{
    base_cell, header, high_bit, index_digit, is_pentagon,
    is_valid_cell, leading_digit_from, leading_non_zero_digit, lemma_field_bounds,
    lemma_fields_header, lemma_leading_digit_skip,
    lemma_header_fields, lemma_index_extensionality, lemma_leading_digit_from,
    lemma_with_index_digit, lemma_with_resolution, lemma_zero_index_digits, mode, reserved_bits,
    resolution, with_index_digit, with_resolution, zero_index_digits,
};
use crate::H3_NULL;
use crate::iterators::{lemma_with_digit_incremented, with_digit_incremented, IterCellsChildren};

verus! {

/// The walk through the children of a cell of resolution `parent_res` that
/// stands before the child `h`.
pub open spec fn walk_at(h: u64, parent_res: i32, skip_digit: i32) -> IterCellsChildren {
    IterCellsChildren { h, _parentRes: parent_res, _skipDigit: skip_digit }
}

/// The walk after one has been added to the digit of resolution `res` of
/// its next child, and the carries from there upwards have been made.
pub open spec fn bumped(it: IterCellsChildren, res: int) -> IterCellsChildren {
    walk_at(with_digit_incremented(it.h, res), it._parentRes, it._skipDigit).carried(res)
}

/// The finest resolution up to which the digits of the child of a pentagon
/// at the position `idx` are all 0, from the resolution `from` on.
pub open spec fn cone_end(idx: int, from: int, child_res: int) -> int
    decreases child_res - from + 1,
{
    if from > child_res {
        child_res
    } else if idx < 1 + (5 * (pow7((child_res - from) as nat) - 1)) / 6 {
        cone_end(idx, from + 1, child_res)
    } else {
        from - 1
    }
}

/// How a position goes on to the next one, seen as a digit and the rest:
/// either the rest goes on, or the rest starts again and the digit goes on.
pub proof fn lemma_next_position(idx: int, width: int)
    requires
        0 <= idx,
        1 <= width,
    ensures
        0 <= idx / width,
        0 <= idx % width < width,
        idx == width * (idx / width) + idx % width,
        idx % width + 1 < width ==> (idx + 1) / width == idx / width && (idx + 1) % width == idx
            % width + 1,
        idx % width + 1 == width ==> (idx + 1) / width == idx / width + 1 && (idx + 1) % width
            == 0,
        idx < 7 * width ==> idx / width <= 6,
        idx < 5 * width ==> idx / width <= 4,
{
    lemma_fundamental_div_mod(idx, width);
    let q = idx / width;
    let r = idx % width;
    assert(0 <= r < width) by {
        vstd::arithmetic::div_mod::lemma_mod_pos_bound(idx, width);
    }
    assert(0 <= q) by (nonlinear_arith)
        requires
            idx == width * q + r,
            0 <= idx,
            0 <= r < width,
            1 <= width,
    ;
    if r + 1 < width {
        assert(idx + 1 == q * width + (r + 1)) by (nonlinear_arith)
            requires
                idx == width * q + r,
        ;
        lemma_fundamental_div_mod_converse(idx + 1, width, q, r + 1);
    } else {
        assert(idx + 1 == (q + 1) * width + 0) by (nonlinear_arith)
            requires
                idx == width * q + r,
                r + 1 == width,
        ;
        lemma_fundamental_div_mod_converse(idx + 1, width, q + 1, 0);
    }
    assert(idx < 7 * width ==> q <= 6) by (nonlinear_arith)
        requires
            idx == width * q + r,
            0 <= r,
            1 <= width,
    ;
    assert(idx < 5 * width ==> q <= 4) by (nonlinear_arith)
        requires
            idx == width * q + r,
            0 <= r,
            1 <= width,
    ;
}

/// Setting the digits of a child changes the digits of the resolutions
/// `from..=child_res` and nothing else.
pub proof fn lemma_child_frame(h: u64, idx: int, from: int, child_res: int)
    requires
        1 <= from,
        child_res <= 15,
    ensures
        header(hexagon_child_at(h, idx, from, child_res)) == header(h),
        header(pentagon_child_at(h, idx, from, child_res)) == header(h),
        forall|r: int|
            1 <= r <= 15 && !(from <= r <= child_res) ==> #[trigger] index_digit(
                hexagon_child_at(h, idx, from, child_res),
                r,
            ) == index_digit(h, r),
        forall|r: int|
            1 <= r <= 15 && !(from <= r <= child_res) ==> #[trigger] index_digit(
                pentagon_child_at(h, idx, from, child_res),
                r,
            ) == index_digit(h, r),
    decreases child_res - from + 1,
{
    if from <= child_res {
        let width = pow7((child_res - from) as nat);
        let pent_width = 1 + (5 * (width - 1)) / 6;
        let hex = with_index_digit(h, from, Direction::of(idx / width));
        let center = with_index_digit(h, from, Direction::CenterDigit);
        let out = with_index_digit(h, from, Direction::of((idx - pent_width) / width + 2));
        lemma_with_index_digit(h, from, Direction::of(idx / width));
        lemma_with_index_digit(h, from, Direction::CenterDigit);
        lemma_with_index_digit(h, from, Direction::of((idx - pent_width) / width + 2));
        lemma_child_frame(hex, idx % width, from + 1, child_res);
        lemma_child_frame(center, idx, from + 1, child_res);
        lemma_child_frame(out, (idx - pent_width) % width, from + 1, child_res);
        assert forall|r: int| 1 <= r <= 15 && !(from <= r <= child_res) implies #[trigger] index_digit(
            hexagon_child_at(h, idx, from, child_res),
            r,
        ) == index_digit(h, r) by {
        }
        assert forall|r: int| 1 <= r <= 15 && !(from <= r <= child_res) implies #[trigger] index_digit(
            pentagon_child_at(h, idx, from, child_res),
            r,
        ) == index_digit(h, r) by {
        }
    }
}

/// The child at the position 0 has the digit 0 at every resolution below
/// its parent's.
pub proof fn lemma_first_child(h: u64, from: int, child_res: int)
    requires
        1 <= from,
        child_res <= 15,
    ensures
        hexagon_child_at(h, 0, from, child_res) == zero_index_digits(h, from, child_res),
        pentagon_child_at(h, 0, from, child_res) == zero_index_digits(h, from, child_res),
    decreases child_res - from + 1,
{
    lemma_zero_index_digits(h, from, child_res);
    if from <= child_res {
        let width = pow7((child_res - from) as nat);
        lemma_pow7((child_res - from) as nat);
        lemma_next_position(0, width);
        assert(0int / width == 0 && 0int % width == 0) by {
            lemma_fundamental_div_mod_converse(0, width, 0, 0);
        }
        let center = with_index_digit(h, from, Direction::CenterDigit);
        lemma_with_index_digit(h, from, Direction::CenterDigit);
        lemma_first_child(center, from + 1, child_res);
        lemma_zero_index_digits(center, from + 1, child_res);
        assert forall|r: int| 1 <= r <= 15 implies index_digit(
            zero_index_digits(center, from + 1, child_res),
            r,
        ) == index_digit(zero_index_digits(h, from, child_res), r) by {
            assert(index_digit(center, r) == (if r == from {
                Direction::CenterDigit
            } else {
                index_digit(h, r)
            }));
        }
        lemma_index_extensionality(
            zero_index_digits(center, from + 1, child_res),
            zero_index_digits(h, from, child_res),
        );
    }
}

/// An index with one digit set and the finer digits down to `child_res`
/// set to 0 is the index with all those digits set to 0 and then that one
/// digit set.
pub proof fn lemma_digit_over_zeros(h: u64, from: int, child_res: int, digit: Direction, any: Direction)
    requires
        1 <= from <= child_res,
        child_res <= 15,
    ensures
        zero_index_digits(with_index_digit(h, from, digit), from + 1, child_res) == with_index_digit(
            zero_index_digits(h, from, child_res),
            from,
            digit,
        ),
        with_index_digit(zero_index_digits(with_index_digit(h, from, any), from + 1, child_res), from, digit)
            == with_index_digit(zero_index_digits(h, from, child_res), from, digit),
        with_index_digit(with_index_digit(zero_index_digits(h, from, child_res), from, any), from, digit)
            == with_index_digit(zero_index_digits(h, from, child_res), from, digit),
        index_digit(zero_index_digits(h, from, child_res), from) == Direction::CenterDigit,
        index_digit(zero_index_digits(with_index_digit(h, from, any), from + 1, child_res), from)
            == any,
{
    let z = zero_index_digits(h, from, child_res);
    let target = with_index_digit(z, from, digit);
    let a = zero_index_digits(with_index_digit(h, from, digit), from + 1, child_res);
    let b = with_index_digit(
        zero_index_digits(with_index_digit(h, from, any), from + 1, child_res),
        from,
        digit,
    );
    let c = with_index_digit(with_index_digit(z, from, any), from, digit);
    lemma_zero_index_digits(h, from, child_res);
    lemma_with_index_digit(z, from, digit);
    lemma_with_index_digit(z, from, any);
    lemma_with_index_digit(with_index_digit(z, from, any), from, digit);
    lemma_with_index_digit(h, from, digit);
    lemma_with_index_digit(h, from, any);
    lemma_zero_index_digits(with_index_digit(h, from, digit), from + 1, child_res);
    lemma_zero_index_digits(with_index_digit(h, from, any), from + 1, child_res);
    lemma_with_index_digit(
        zero_index_digits(with_index_digit(h, from, any), from + 1, child_res),
        from,
        digit,
    );
    assert forall|r: int| 1 <= r <= 15 implies index_digit(a, r) == index_digit(target, r)
        && index_digit(b, r) == index_digit(target, r) && index_digit(c, r) == index_digit(
        target,
        r,
    ) by {
        assert(index_digit(z, r) == (if from <= r <= child_res {
            Direction::CenterDigit
        } else {
            index_digit(h, r)
        }));
        assert(index_digit(with_index_digit(h, from, digit), r) == (if r == from {
            digit
        } else {
            index_digit(h, r)
        }));
        assert(index_digit(with_index_digit(h, from, any), r) == (if r == from {
            any
        } else {
            index_digit(h, r)
        }));
        assert(index_digit(with_index_digit(z, from, any), r) == (if r == from {
            any
        } else {
            index_digit(z, r)
        }));
    }
    lemma_index_extensionality(a, target);
    lemma_index_extensionality(b, target);
    lemma_index_extensionality(c, target);
}

/// The walk from one child of a hexagon to the next. From the last child
/// the carry goes on into the digit above those of the children.
pub proof fn lemma_hexagon_bump(
    h: u64,
    idx: int,
    from: int,
    child_res: int,
    parent_res: i32,
    skip_digit: i32,
)
    requires
        0 <= parent_res < from,
        from <= child_res + 1,
        child_res <= 15,
        skip_digit < from,
        0 <= idx < pow7((child_res - from + 1) as nat),
    ensures
        bumped(
            walk_at(hexagon_child_at(h, idx, from, child_res), parent_res, skip_digit),
            child_res,
        ) == (if idx + 1 < pow7((child_res - from + 1) as nat) {
            walk_at(hexagon_child_at(h, idx + 1, from, child_res), parent_res, skip_digit)
        } else {
            bumped(
                walk_at(zero_index_digits(h, from, child_res), parent_res, skip_digit),
                from - 1,
            )
        }),
    decreases child_res - from + 1,
{
    let x = hexagon_child_at(h, idx, from, child_res);
    let size = pow7((child_res - from + 1) as nat);
    if from <= child_res {
        let width = pow7((child_res - from) as nat);
        lemma_pow7((child_res - from) as nat);
        lemma_next_position(idx, width);
        let d = idx / width;
        let r = idx % width;
        let set = with_index_digit(h, from, Direction::of(d));
        lemma_hexagon_bump(set, r, from + 1, child_res, parent_res, skip_digit);
        if r + 1 < width {
            assert(idx + 1 < size) by (nonlinear_arith)
                requires
                    idx == width * d + r,
                    r + 1 < width,
                    0 <= d <= 6,
                    1 <= width,
                    size == 7 * width,
            ;
            assert(hexagon_child_at(h, idx + 1, from, child_res) == hexagon_child_at(
                set,
                r + 1,
                from + 1,
                child_res,
            ));
        } else {
            // the finer digits start again, and this digit goes on
            let y = zero_index_digits(set, from + 1, child_res);
            let z = zero_index_digits(h, from, child_res);
            assert(bumped(walk_at(x, parent_res, skip_digit), child_res) == bumped(
                walk_at(y, parent_res, skip_digit),
                from,
            ));
            lemma_digit_over_zeros(h, from, child_res, Direction::of(d + 1), Direction::of(d));
            lemma_direction_value_round_trip(Direction::CenterDigit, d);
            lemma_direction_value_round_trip(Direction::CenterDigit, d + 1);
            lemma_with_digit_incremented(y, from);
            let y1 = with_index_digit(z, from, Direction::of(d + 1));
            lemma_with_index_digit(z, from, Direction::of(d + 1));
            let begun = walk_at(y1, parent_res, skip_digit);
            if d + 1 == 7 {
                assert(idx + 1 == size) by (nonlinear_arith)
                    requires
                        idx == width * d + r,
                        r + 1 == width,
                        d == 6,
                        size == 7 * width,
                ;
                lemma_with_digit_incremented(y1, from);
                lemma_digit_over_zeros(
                    h,
                    from,
                    child_res,
                    Direction::CenterDigit,
                    Direction::InvalidDigit,
                );
                lemma_zero_index_digits(h, from, child_res);
                lemma_with_index_digit(z, from, Direction::CenterDigit);
                assert(begun.carried(from) == walk_at(
                    with_digit_incremented(y1, from),
                    parent_res,
                    skip_digit,
                ).carried(from - 1));
            } else {
                assert(idx + 1 < size) by (nonlinear_arith)
                    requires
                        idx == width * d + r,
                        r + 1 == width,
                        0 <= d < 6,
                        1 <= width,
                        size == 7 * width,
                ;
                lemma_first_child(
                    with_index_digit(h, from, Direction::of(d + 1)),
                    from + 1,
                    child_res,
                );
                assert(hexagon_child_at(h, idx + 1, from, child_res) == hexagon_child_at(
                    with_index_digit(h, from, Direction::of(d + 1)),
                    0,
                    from + 1,
                    child_res,
                ));
            }
        }
    }
}

/// The cone of a pentagon's child ends between the resolution above `from`
/// and the resolution of the child; at the position 0 it reaches down to
/// the child.
pub proof fn lemma_cone_end(idx: int, from: int, child_res: int)
    requires
        from <= child_res + 1,
    ensures
        from - 1 <= cone_end(idx, from, child_res) <= child_res,
        cone_end(0, from, child_res) == child_res,
    decreases child_res - from + 1,
{
    if from <= child_res {
        lemma_pow7((child_res - from) as nat);
        lemma_cone_end(idx, from + 1, child_res);
        lemma_cone_end(0, from + 1, child_res);
    }
}

/// The walk from one child of a pentagon to the next. The first digit that
/// leaves 0 passes over 1. From the last child the carry goes on into the
/// digit above those of the children.
pub proof fn lemma_pentagon_bump(h: u64, idx: int, from: int, child_res: int, parent_res: i32)
    requires
        0 <= parent_res < from,
        from <= child_res + 1,
        child_res <= 15,
        0 <= idx < pentagon_children((child_res - from + 1) as nat),
    ensures
        bumped(
            walk_at(
                pentagon_child_at(h, idx, from, child_res),
                parent_res,
                cone_end(idx, from, child_res) as i32,
            ),
            child_res,
        ) == (if idx + 1 < pentagon_children((child_res - from + 1) as nat) {
            walk_at(
                pentagon_child_at(h, idx + 1, from, child_res),
                parent_res,
                cone_end(idx + 1, from, child_res) as i32,
            )
        } else {
            bumped(
                walk_at(zero_index_digits(h, from, child_res), parent_res, (from - 1) as i32),
                from - 1,
            )
        }),
    decreases child_res - from + 1,
{
    let size = pentagon_children((child_res - from + 1) as nat);
    let z = zero_index_digits(h, from, child_res);
    lemma_pow7((child_res - from + 1) as nat);
    lemma_cone_end(idx, from, child_res);
    lemma_cone_end(idx + 1, from, child_res);
    if from <= child_res {
        let width = pow7((child_res - from) as nat);
        let pent_width = 1 + (5 * (width - 1)) / 6;
        lemma_pow7((child_res - from) as nat);
        lemma_cone_end(idx, from + 1, child_res);
        lemma_cone_end(idx + 1, from + 1, child_res);
        if idx < pent_width {
            // the digit is 0: the child lies in the middle
            let center = with_index_digit(h, from, Direction::CenterDigit);
            lemma_pentagon_bump(center, idx, from + 1, child_res, parent_res);
            if idx + 1 < pent_width {
                assert(pentagon_child_at(h, idx + 1, from, child_res) == pentagon_child_at(
                    center,
                    idx + 1,
                    from + 1,
                    child_res,
                ));
            } else {
                // the middle is left: the digit passes from 0 over 1 to 2
                lemma_digit_over_zeros(
                    h,
                    from,
                    child_res,
                    Direction::CenterDigit,
                    Direction::CenterDigit,
                );
                lemma_zero_index_digits(h, from, child_res);
                lemma_with_index_digit(z, from, Direction::CenterDigit);
                lemma_with_digit_incremented(z, from);
                let z1 = with_index_digit(z, from, Direction::KAxesDigit);
                lemma_with_index_digit(z, from, Direction::KAxesDigit);
                lemma_with_digit_incremented(z1, from);
                lemma_digit_over_zeros(
                    h,
                    from,
                    child_res,
                    Direction::JAxesDigit,
                    Direction::KAxesDigit,
                );
                let z2 = with_index_digit(z, from, Direction::JAxesDigit);
                assert(bumped(walk_at(z, parent_res, from as i32), from) == walk_at(
                    z2,
                    parent_res,
                    (from - 1) as i32,
                ));
                lemma_next_position(0, width);
                assert(0int / width == 0 && 0int % width == 0) by {
                    lemma_fundamental_div_mod_converse(0, width, 0, 0);
                }
                lemma_first_child(
                    with_index_digit(h, from, Direction::JAxesDigit),
                    from + 1,
                    child_res,
                );
            }
        } else {
            // the child lies in one of the five hexagons around the middle
            let e = idx - pent_width;
            lemma_next_position(e, width);
            let d = e / width;
            let r = e % width;
            let set = with_index_digit(h, from, Direction::of(d + 2));
            lemma_hexagon_bump(set, r, from + 1, child_res, parent_res, (from - 1) as i32);
            if r + 1 < width {
                assert(idx + 1 < size) by (nonlinear_arith)
                    requires
                        e == width * d + r,
                        r + 1 < width,
                        0 <= d <= 4,
                        1 <= width,
                        size == pent_width + 5 * width,
                        idx == e + pent_width,
                ;
                assert(pentagon_child_at(h, idx + 1, from, child_res) == hexagon_child_at(
                    set,
                    r + 1,
                    from + 1,
                    child_res,
                ));
            } else {
                let y = zero_index_digits(set, from + 1, child_res);
                lemma_digit_over_zeros(
                    h,
                    from,
                    child_res,
                    Direction::of(d + 3),
                    Direction::of(d + 2),
                );
                lemma_direction_value_round_trip(Direction::CenterDigit, d + 2);
                lemma_direction_value_round_trip(Direction::CenterDigit, d + 3);
                lemma_with_digit_incremented(y, from);
                let y1 = with_index_digit(z, from, Direction::of(d + 3));
                lemma_with_index_digit(z, from, Direction::of(d + 3));
                let begun = walk_at(y1, parent_res, (from - 1) as i32);
                assert(bumped(walk_at(y, parent_res, (from - 1) as i32), from) == begun.carried(
                    from,
                ));
                if d + 3 == 7 {
                    assert(idx + 1 == size) by (nonlinear_arith)
                        requires
                            e == width * d + r,
                            r + 1 == width,
                            d == 4,
                            size == pent_width + 5 * width,
                            idx == e + pent_width,
                    ;
                    lemma_with_digit_incremented(y1, from);
                    lemma_digit_over_zeros(
                        h,
                        from,
                        child_res,
                        Direction::CenterDigit,
                        Direction::InvalidDigit,
                    );
                    lemma_zero_index_digits(h, from, child_res);
                    lemma_with_index_digit(z, from, Direction::CenterDigit);
                    assert(begun.carried(from) == walk_at(
                        with_digit_incremented(y1, from),
                        parent_res,
                        (from - 1) as i32,
                    ).carried(from - 1));
                } else {
                    assert(idx + 1 < size) by (nonlinear_arith)
                        requires
                            e == width * d + r,
                            r + 1 == width,
                            0 <= d < 4,
                            1 <= width,
                            size == pent_width + 5 * width,
                            idx == e + pent_width,
                    ;
                    lemma_first_child(
                        with_index_digit(h, from, Direction::of(d + 3)),
                        from + 1,
                        child_res,
                    );
                    assert(pentagon_child_at(h, idx + 1, from, child_res) == hexagon_child_at(
                        with_index_digit(h, from, Direction::of(d + 3)),
                        0,
                        from + 1,
                        child_res,
                    ));
                }
            }
        }
    }
}

/// What no index but `H3_NULL` has: all fields zero.
proof fn lemma_null_index(h: u64)
    by (bit_vector)
    ensures
        h == 0 ==> resolution(h) == 0,
{
}

/// The walk through the children of a cell as it stands before the child
/// at the position `pos`.
pub open spec fn child_walk(parent: u64, child_res: int, pos: int) -> IterCellsChildren {
    walk_at(
        child_at(parent, child_res, pos),
        resolution(parent) as i32,
        if is_pentagon(parent) {
            cone_end(pos, resolution(parent) + 1, child_res) as i32
        } else {
            -1i32
        },
    )
}

/// A child has the resolution of the children and the other fields of its
/// parent, and it is not `H3_NULL` unless its parent is.
pub proof fn lemma_child_fields(parent: u64, child_res: int, pos: int)
    requires
        resolution(parent) <= child_res <= 15,
    ensures
        resolution(child_at(parent, child_res, pos)) == child_res,
        base_cell(child_at(parent, child_res, pos)) == base_cell(parent),
        mode(child_at(parent, child_res, pos)) == mode(parent),
        reserved_bits(child_at(parent, child_res, pos)) == reserved_bits(parent),
        high_bit(child_at(parent, child_res, pos)) == high_bit(parent),
        forall|r: int|
            1 <= r <= 15 && !(resolution(parent) < r <= child_res) ==> #[trigger] index_digit(
                child_at(parent, child_res, pos),
                r,
            ) == index_digit(parent, r),
        parent != H3_NULL ==> child_at(parent, child_res, pos) != H3_NULL,
{
    let set = with_resolution(parent, child_res as u64);
    let child = child_at(parent, child_res, pos);
    lemma_field_bounds(parent);
    lemma_with_resolution(parent, child_res as u64);
    crate::h3_index::lemma_same_digits(set, parent);
    lemma_child_frame(set, pos, resolution(parent) + 1, child_res);
    lemma_header_fields(child, set);
    lemma_null_index(child);
}

/// The walk through the children of a cell starts before the child at the
/// position 0.
pub proof fn lemma_walk_start(parent: u64, child_res: int)
    requires
        parent != H3_NULL,
        resolution(parent) <= child_res <= 15,
    ensures
        IterCellsChildren::start(parent, child_res) == child_walk(parent, child_res, 0),
{
    let parent_res = resolution(parent) as int;
    let set = with_resolution(parent, child_res as u64);
    let zeroed = zero_index_digits(parent, parent_res + 1, child_res);
    let first = with_resolution(zeroed, child_res as u64);
    let child = child_at(parent, child_res, 0);
    lemma_field_bounds(parent);
    lemma_first_child(set, parent_res + 1, child_res);
    lemma_with_resolution(parent, child_res as u64);
    lemma_with_resolution(zeroed, child_res as u64);
    lemma_zero_index_digits(parent, parent_res + 1, child_res);
    lemma_zero_index_digits(set, parent_res + 1, child_res);
    crate::h3_index::lemma_same_digits(set, parent);
    crate::h3_index::lemma_same_digits(first, zeroed);
    lemma_header_fields(zeroed, parent);
    lemma_header_fields(child, set);
    lemma_fields_header(first, child);
    assert forall|r: int| 1 <= r <= 15 implies index_digit(first, r) == index_digit(child, r) by {
    }
    lemma_index_extensionality(first, child);
    // the first child is a pentagon exactly where the parent is one
    lemma_leading_digit_from(first, 1);
    lemma_leading_digit_from(parent, 1);
    if leading_non_zero_digit(parent) == Direction::CenterDigit {
        assert forall|r: int| 1 <= r <= resolution(first) implies index_digit(first, r)
            == Direction::CenterDigit by {
        }
    } else {
        let p = choose|p: int|
            1 <= p <= resolution(parent) && #[trigger] index_digit(parent, p)
                == leading_digit_from(parent, 1) && (forall|r: int|
                1 <= r < p ==> index_digit(parent, r) == Direction::CenterDigit);
        assert(index_digit(first, p) == index_digit(parent, p));
    }
    lemma_cone_end(0, parent_res + 1, child_res);
}

/// The walk through the children of a cell goes from each child to the
/// child at the next position, and is over after the last.
pub proof fn lemma_walk_advances(parent: u64, child_res: int, pos: int)
    requires
        cell_to_children_size(parent, child_res) is Ok,
        0 <= pos < cell_to_children_size(parent, child_res)->Ok_0,
    ensures
        child_walk(parent, child_res, pos).advanced() == (if pos + 1 < cell_to_children_size(
            parent,
            child_res,
        )->Ok_0 {
            child_walk(parent, child_res, pos + 1)
        } else {
            IterCellsChildren::null()
        }),
{
    let parent_res = resolution(parent) as int;
    let set = with_resolution(parent, child_res as u64);
    lemma_field_bounds(parent);
    lemma_child_fields(parent, child_res, pos);
    lemma_cone_end(pos, parent_res + 1, child_res);
    lemma_cone_end(pos + 1, parent_res + 1, child_res);
    let walk = child_walk(parent, child_res, pos);
    if is_pentagon(parent) {
        lemma_pentagon_bump(set, pos, parent_res + 1, child_res, parent_res as i32);
    } else {
        lemma_hexagon_bump(set, pos, parent_res + 1, child_res, parent_res as i32, -1i32);
    }
}

/// The children that the walk gives from a position on are the children at
/// that position and at those after it.
pub proof fn lemma_walk_remaining(parent: u64, child_res: int, pos: int)
    requires
        parent != H3_NULL,
        cell_to_children_size(parent, child_res) is Ok,
        0 <= pos <= cell_to_children_size(parent, child_res)->Ok_0,
    ensures
        (if pos < cell_to_children_size(parent, child_res)->Ok_0 {
            child_walk(parent, child_res, pos)
        } else {
            IterCellsChildren::null()
        }).remaining((cell_to_children_size(parent, child_res)->Ok_0 - pos) as nat) == Seq::new(
            (cell_to_children_size(parent, child_res)->Ok_0 - pos) as nat,
            |k: int| child_at(parent, child_res, pos + k),
        ),
    decreases cell_to_children_size(parent, child_res)->Ok_0 - pos,
{
    let size = cell_to_children_size(parent, child_res)->Ok_0;
    if pos < size {
        let walk = child_walk(parent, child_res, pos);
        lemma_child_fields(parent, child_res, pos);
        lemma_walk_advances(parent, child_res, pos);
        lemma_walk_remaining(parent, child_res, pos + 1);
        let after = Seq::new(
            (size - pos - 1) as nat,
            |k: int| child_at(parent, child_res, pos + 1 + k),
        );
        assert(walk.remaining((size - pos) as nat) == seq![walk.h] + walk.advanced().remaining(
            (size - pos - 1) as nat,
        ));
    }
}

/// The children of a cell are as many as their number says, and the child
/// at each position of their list is the one that `child_at` names.
pub proof fn lemma_cell_to_children(parent: u64, child_res: int)
    requires
        parent != H3_NULL,
        cell_to_children(parent, child_res) is Ok,
    ensures
        cell_to_children(parent, child_res)->Ok_0.len() == cell_to_children_size(
            parent,
            child_res,
        )->Ok_0,
        forall|pos: int|
            0 <= pos < cell_to_children_size(parent, child_res)->Ok_0 ==> #[trigger] cell_to_children(
                parent,
                child_res,
            )->Ok_0[pos] == child_at(parent, child_res, pos),
        forall|pos: int|
            0 <= pos < cell_to_children_size(parent, child_res)->Ok_0 ==> child_pos_to_cell(
                pos,
                parent,
                child_res,
            ) == Ok::<u64, Error>(#[trigger] cell_to_children(parent, child_res)->Ok_0[pos]),
{
    lemma_field_bounds(parent);
    lemma_pow7((child_res - resolution(parent)) as nat);
    lemma_walk_start(parent, child_res);
    lemma_walk_remaining(parent, child_res, 0);
}

/// Setting the digits of a child of a hexagon from two positions gives two
/// children.
pub proof fn lemma_hexagon_child_injective(
    h: u64,
    first: int,
    second: int,
    from: int,
    child_res: int,
)
    requires
        1 <= from,
        from <= child_res + 1,
        child_res <= 15,
        0 <= first < pow7((child_res - from + 1) as nat),
        0 <= second < pow7((child_res - from + 1) as nat),
        hexagon_child_at(h, first, from, child_res) == hexagon_child_at(
            h,
            second,
            from,
            child_res,
        ),
    ensures
        first == second,
    decreases child_res - from + 1,
{
    if from <= child_res {
        let width = pow7((child_res - from) as nat);
        lemma_pow7((child_res - from) as nat);
        lemma_next_position(first, width);
        lemma_next_position(second, width);
        let a = with_index_digit(h, from, Direction::of(first / width));
        let b = with_index_digit(h, from, Direction::of(second / width));
        lemma_with_index_digit(h, from, Direction::of(first / width));
        lemma_with_index_digit(h, from, Direction::of(second / width));
        lemma_child_frame(a, first % width, from + 1, child_res);
        lemma_child_frame(b, second % width, from + 1, child_res);
        assert(index_digit(hexagon_child_at(a, first % width, from + 1, child_res), from)
            == index_digit(a, from));
        assert(index_digit(hexagon_child_at(b, second % width, from + 1, child_res), from)
            == index_digit(b, from));
        lemma_direction_value_round_trip(Direction::CenterDigit, first / width);
        lemma_direction_value_round_trip(Direction::CenterDigit, second / width);
        lemma_hexagon_child_injective(a, first % width, second % width, from + 1, child_res);
    }
}

/// Setting the digits of a child of a pentagon from two positions gives
/// two children.
pub proof fn lemma_pentagon_child_injective(
    h: u64,
    first: int,
    second: int,
    from: int,
    child_res: int,
)
    requires
        1 <= from,
        from <= child_res + 1,
        child_res <= 15,
        0 <= first < pentagon_children((child_res - from + 1) as nat),
        0 <= second < pentagon_children((child_res - from + 1) as nat),
        pentagon_child_at(h, first, from, child_res) == pentagon_child_at(
            h,
            second,
            from,
            child_res,
        ),
    ensures
        first == second,
    decreases child_res - from + 1,
{
    lemma_pow7((child_res - from + 1) as nat);
    if from <= child_res {
        let width = pow7((child_res - from) as nat);
        let pent_width = 1 + (5 * (width - 1)) / 6;
        lemma_pow7((child_res - from) as nat);
        let center = with_index_digit(h, from, Direction::CenterDigit);
        lemma_with_index_digit(h, from, Direction::CenterDigit);
        let e1 = first - pent_width;
        let e2 = second - pent_width;
        let a = with_index_digit(h, from, Direction::of(e1 / width + 2));
        let b = with_index_digit(h, from, Direction::of(e2 / width + 2));
        lemma_with_index_digit(h, from, Direction::of(e1 / width + 2));
        lemma_with_index_digit(h, from, Direction::of(e2 / width + 2));
        lemma_child_frame(center, first, from + 1, child_res);
        lemma_child_frame(center, second, from + 1, child_res);
        lemma_child_frame(a, e1 % width, from + 1, child_res);
        lemma_child_frame(b, e2 % width, from + 1, child_res);
        assert(index_digit(pentagon_child_at(center, first, from + 1, child_res), from)
            == index_digit(center, from));
        assert(index_digit(pentagon_child_at(center, second, from + 1, child_res), from)
            == index_digit(center, from));
        assert(index_digit(hexagon_child_at(a, e1 % width, from + 1, child_res), from)
            == index_digit(a, from));
        assert(index_digit(hexagon_child_at(b, e2 % width, from + 1, child_res), from)
            == index_digit(b, from));
        if first >= pent_width {
            lemma_next_position(e1, width);
            lemma_direction_value_round_trip(Direction::CenterDigit, e1 / width + 2);
        }
        if second >= pent_width {
            lemma_next_position(e2, width);
            lemma_direction_value_round_trip(Direction::CenterDigit, e2 / width + 2);
        }
        if first < pent_width && second < pent_width {
            lemma_pentagon_child_injective(center, first, second, from + 1, child_res);
        } else if first >= pent_width && second >= pent_width {
            lemma_hexagon_child_injective(a, e1 % width, e2 % width, from + 1, child_res);
        }
    }
}

/// The children at two positions are two cells.
pub proof fn lemma_child_at_injective(parent: u64, child_res: int, first: int, second: int)
    requires
        cell_to_children_size(parent, child_res) is Ok,
        0 <= first < cell_to_children_size(parent, child_res)->Ok_0,
        0 <= second < cell_to_children_size(parent, child_res)->Ok_0,
        child_at(parent, child_res, first) == child_at(parent, child_res, second),
    ensures
        first == second,
{
    lemma_field_bounds(parent);
    let set = with_resolution(parent, child_res as u64);
    if is_pentagon(parent) {
        lemma_pentagon_child_injective(set, first, second, resolution(parent) + 1, child_res);
    } else {
        lemma_hexagon_child_injective(set, first, second, resolution(parent) + 1, child_res);
    }
}

/// The digits of a child below its parent are moves, never the unused
/// digit, and the first of them that is not 0 is not 1 in a child of a
/// pentagon.
pub proof fn lemma_child_digits(h: u64, idx: int, from: int, child_res: int)
    requires
        1 <= from,
        from <= child_res + 1,
        child_res <= 15,
        0 <= idx,
    ensures
        idx < pow7((child_res - from + 1) as nat) ==> forall|r: int|
            from <= r <= child_res ==> #[trigger] index_digit(
                hexagon_child_at(h, idx, from, child_res),
                r,
            ) != Direction::InvalidDigit,
        idx < pentagon_children((child_res - from + 1) as nat) ==> forall|r: int|
            from <= r <= child_res ==> #[trigger] index_digit(
                pentagon_child_at(h, idx, from, child_res),
                r,
            ) != Direction::InvalidDigit,
        idx < pentagon_children((child_res - from + 1) as nat) && resolution(h) == child_res
            ==> leading_digit_from(pentagon_child_at(h, idx, from, child_res), from)
            != Direction::KAxesDigit,
    decreases child_res - from + 1,
{
    lemma_pow7((child_res - from + 1) as nat);
    if from <= child_res {
        let width = pow7((child_res - from) as nat);
        let pent_width = 1 + (5 * (width - 1)) / 6;
        lemma_pow7((child_res - from) as nat);
        lemma_next_position(idx, width);
        let hex = with_index_digit(h, from, Direction::of(idx / width));
        let center = with_index_digit(h, from, Direction::CenterDigit);
        lemma_with_index_digit(h, from, Direction::of(idx / width));
        lemma_with_index_digit(h, from, Direction::CenterDigit);
        lemma_child_digits(hex, idx % width, from + 1, child_res);
        lemma_child_digits(center, idx, from + 1, child_res);
        lemma_child_frame(hex, idx % width, from + 1, child_res);
        lemma_child_frame(center, idx, from + 1, child_res);
        lemma_direction_value_round_trip(Direction::CenterDigit, idx / width);
        if idx < pow7((child_res - from + 1) as nat) {
            let x = hexagon_child_at(h, idx, from, child_res);
            assert forall|r: int| from <= r <= child_res implies #[trigger] index_digit(x, r)
                != Direction::InvalidDigit by {
            }
        }
        if idx < pentagon_children((child_res - from + 1) as nat) {
            let x = pentagon_child_at(h, idx, from, child_res);
            lemma_child_frame(h, idx, from, child_res);
            lemma_header_fields(x, h);
            if idx < pent_width {
                assert forall|r: int| from <= r <= child_res implies #[trigger] index_digit(x, r)
                    != Direction::InvalidDigit by {
                }
                if resolution(h) == child_res {
                    lemma_header_fields(center, h);
                }
            } else {
                let e = idx - pent_width;
                lemma_next_position(e, width);
                let out = with_index_digit(h, from, Direction::of(e / width + 2));
                lemma_with_index_digit(h, from, Direction::of(e / width + 2));
                lemma_child_digits(out, e % width, from + 1, child_res);
                lemma_child_frame(out, e % width, from + 1, child_res);
                lemma_direction_value_round_trip(Direction::CenterDigit, e / width + 2);
                assert forall|r: int| from <= r <= child_res implies #[trigger] index_digit(x, r)
                    != Direction::InvalidDigit by {
                }
            }
        }
    }
}

/// Two indexes of at least the resolution `upto` whose digits agree from
/// the resolution `from` up to `upto`, where their digit is not 0, have
/// the same leading digit from `from` on.
pub proof fn lemma_leading_digit_agrees(a: u64, b: u64, from: int, upto: int)
    requires
        1 <= from <= upto,
        upto <= resolution(a),
        upto <= resolution(b),
        forall|r: int| from <= r <= upto ==> index_digit(a, r) == index_digit(b, r),
        index_digit(a, upto) != Direction::CenterDigit,
    ensures
        leading_digit_from(a, from) == leading_digit_from(b, from),
    decreases upto - from,
{
    lemma_field_bounds(a);
    lemma_field_bounds(b);
    if from < upto && index_digit(a, from) == Direction::CenterDigit {
        lemma_leading_digit_agrees(a, b, from + 1, upto);
    }
}

/// The children of a cell are cells.
pub proof fn lemma_children_are_valid(parent: u64, child_res: int, pos: int)
    requires
        is_valid_cell(parent),
        cell_to_children_size(parent, child_res) is Ok,
        0 <= pos < cell_to_children_size(parent, child_res)->Ok_0,
    ensures
        is_valid_cell(child_at(parent, child_res, pos)),
{
    let parent_res = resolution(parent) as int;
    let set = with_resolution(parent, child_res as u64);
    let child = child_at(parent, child_res, pos);
    lemma_field_bounds(parent);
    lemma_child_fields(parent, child_res, pos);
    lemma_with_resolution(parent, child_res as u64);
    lemma_child_digits(set, pos, parent_res + 1, child_res);
    assert forall|r: int| 1 <= r <= resolution(child) implies index_digit(child, r)
        != Direction::InvalidDigit by {
    }
    assert forall|r: int| resolution(child) < r <= 15 implies index_digit(child, r)
        == Direction::InvalidDigit by {
    }
    if is_base_cell_pentagon(base_cell(parent) as int) {
        lemma_leading_digit_from(parent, 1);
        if leading_non_zero_digit(parent) == Direction::CenterDigit {
            // the parent is a pentagon
            assert forall|q: int| 1 <= q < parent_res + 1 implies index_digit(child, q)
                == Direction::CenterDigit by {
            }
            lemma_leading_digit_skip(child, 1, parent_res + 1);
        } else {
            let p = choose|p: int|
                1 <= p <= resolution(parent) && #[trigger] index_digit(parent, p)
                    == leading_digit_from(parent, 1) && (forall|r: int|
                    1 <= r < p ==> index_digit(parent, r) == Direction::CenterDigit);
            assert forall|r: int| 1 <= r <= p implies index_digit(parent, r) == index_digit(
                child,
                r,
            ) by {
            }
            lemma_leading_digit_agrees(parent, child, 1, p);
        }
    }
}

} // verus!
