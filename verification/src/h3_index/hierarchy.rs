use vstd::prelude::*;
use vstd::arithmetic::power::pow;
use crate::constants::MAX_H3_RES;
use crate::coord_ijk::Direction;
use crate::error::Error;
use crate::h3_index::{
    H3Index, H3_GET_RESOLUTION, H3_SET_INDEX_DIGIT, H3_SET_RESOLUTION, _hasChildAtRes,
    has_child_at_res, isPentagon, is_pentagon, is_valid_cell, resolution, with_index_digit,
    with_resolution,
};
use crate::iterators::IterCellsChildren;
use crate::H3_NULL;

verus! {

/// Seven to the power of `n`: the number of cells of a hexagon `n`
/// resolutions below it.
pub open spec fn pow7(n: nat) -> int
    decreases n,
{
    if n == 0 {
        1
    } else {
        7 * pow7((n - 1) as nat)
    }
}

/// The sum of the powers of seven below `n`, which is `(7^n - 1) / 6`.
pub open spec fn sevens_below(n: nat) -> int
    decreases n,
{
    if n == 0 {
        0
    } else {
        7 * sevens_below((n - 1) as nat) + 1
    }
}

/// The number of cells of a pentagon `n` resolutions below it: the
/// pentagon in the middle, and of each of the five hexagons around the
/// pentagons above it all the cells.
pub open spec fn pentagon_children(n: nat) -> int {
    1 + 5 * ((pow7(n) - 1) / 6)
}

/// The number of children of a cell at a resolution; none are counted at a
/// resolution that is coarser than the cell's or finer than the finest.
pub open spec fn cell_to_children_size(h: u64, child_res: int) -> Result<int, Error> {
    if !has_child_at_res(h, child_res) {
        Err(Error::ResDomain)
    } else if is_pentagon(h) {
        Ok(pentagon_children((child_res - resolution(h)) as nat))
    } else {
        Ok(pow7((child_res - resolution(h)) as nat))
    }
}

/// The powers of seven are those of the library, they are positive and
/// grow, and one less than a power of seven is six times the sum of the
/// powers below it.
pub proof fn lemma_pow7(n: nat)
    ensures
        pow7(n) == pow(7, n),
        pow7(n) == 6 * sevens_below(n) + 1,
        sevens_below(n) >= 0,
        pow7(n) >= 1,
        (pow7(n) - 1) / 6 == sevens_below(n),
        (5 * (pow7(n) - 1)) / 6 == 5 * sevens_below(n),
        pentagon_children(n) == 1 + 5 * sevens_below(n),
        n <= 15 ==> pow7(n) <= 4747561509943,
    decreases n,
{
    reveal(pow);
    if n > 0 {
        lemma_pow7((n - 1) as nat);
    }
    if n <= 15 {
        lemma_pow7_bounded(n);
    }
}

/// Up to the finest resolution the powers of seven stay below `7^15`.
proof fn lemma_pow7_bounded(n: nat)
    requires
        n <= 15,
    ensures
        pow7(n) <= 4747561509943,
{
    reveal_with_fuel(pow7, 16);
}

/// `base` to the power of `exp`, computed by `num::pow`, which squares and
/// multiplies: for a base that is not negative no product on the way is
/// larger than the result, so none overflows where the result fits.
#[verifier::external_body]
fn pow_i64(base: i64, exp: usize) -> (power: i64)
    requires
        0 <= base,
        pow(base as int, exp as nat) <= i64::MAX,
    ensures
        power == pow(base as int, exp as nat),
{
    num::pow(base, exp)
}

/// Seven to the power of `n`.
fn pow7_of(n: i32) -> (power: i64)
    requires
        0 <= n <= 15,
    ensures
        power == pow7(n as nat),
        1 <= power <= 4747561509943,
{
    proof {
        lemma_pow7(n as nat);
    }
    pow_i64(7, n as usize)
}

/// The number of children of a cell at a resolution, counted as for a
/// pentagon where the cell is one.
pub fn cellToChildrenSize(h: H3Index, childRes: i32) -> (size: Result<i64, Error>)
    ensures
        match cell_to_children_size(h, childRes as int) {
            Ok(n) => size == Ok::<i64, Error>(n as i64) && 1 <= n <= 4747561509943,
            Err(e) => size == Err::<i64, Error>(e),
        },
{
    if !_hasChildAtRes(h, childRes) {
        return Err(Error::ResDomain);
    }
    let n: i32 = childRes - H3_GET_RESOLUTION(h);
    proof {
        lemma_pow7(n as nat);
    }
    if isPentagon(h) {
        Ok(1 + 5 * ((pow7_of(n) - 1) / 6))
    } else {
        Ok(pow7_of(n))
    }
}

/// The children of a cell at a resolution, in the order of their digits:
/// what the walk through them gives, which is cut off at their number.
pub open spec fn cell_to_children(h: u64, child_res: int) -> Result<Seq<u64>, Error> {
    match cell_to_children_size(h, child_res) {
        Err(e) => Err(e),
        Ok(n) => Ok(IterCellsChildren::start(h, child_res).remaining(n as nat)),
    }
}

/// The children of a cell at a resolution, in the order of their digits:
/// as many as `cellToChildrenSize` says, each at the position at which
/// `childPosToCell` finds it. `H3_NULL` has no children.
pub fn cellToChildren(h: H3Index, childRes: i32) -> (children: Result<Vec<H3Index>, Error>)
    ensures
        match cell_to_children(h, childRes as int) {
            Ok(cells) => children is Ok && children->Ok_0@ == cells,
            Err(e) => children == Err::<Vec<H3Index>, Error>(e),
        },
        children is Ok && h != H3_NULL ==> children->Ok_0@.len() == cell_to_children_size(
            h,
            childRes as int,
        )->Ok_0 && (forall|pos: int|
            0 <= pos < children->Ok_0@.len() ==> #[trigger] children->Ok_0@[pos] == child_at(
                h,
                childRes as int,
                pos,
            )),
        children is Ok && h == H3_NULL ==> children->Ok_0@.len() == 0,
        children is Ok && is_valid_cell(h) ==> forall|pos: int|
            0 <= pos < children->Ok_0@.len() ==> is_valid_cell(#[trigger] children->Ok_0@[pos]),
{
    proof {
        if h != H3_NULL && cell_to_children(h, childRes as int) is Ok {
            crate::h3_index::enumeration::lemma_cell_to_children(h, childRes as int);
            if is_valid_cell(h) {
                assert forall|pos: int|
                    0 <= pos < cell_to_children_size(h, childRes as int)->Ok_0 implies is_valid_cell(
                    #[trigger] child_at(h, childRes as int, pos),
                ) by {
                    crate::h3_index::enumeration::lemma_children_are_valid(
                        h,
                        childRes as int,
                        pos,
                    );
                }
            }
        } else {
            crate::h3_index::lemma_null_is_no_cell();
        }
    }
    let size: i64 = match cellToChildrenSize(h, childRes) {
        Ok(size) => size,
        Err(e) => {
            return Err(e);
        },
    };
    let mut children: Vec<H3Index> = Vec::new();
    let mut iter = IterCellsChildren::from_parent(h, childRes);
    let ghost start = iter;
    let mut count: i64 = 0;
    while count < size
        invariant
            0 <= count <= size,
            iter.wf(),
            cell_to_children(h, childRes as int) == Ok::<Seq<u64>, Error>(
                start.remaining(size as nat),
            ),
            children@ + iter.remaining((size - count) as nat) == start.remaining(size as nat),
        decreases size - count,
    {
        match iter.next() {
            Some(child) => {
                proof {
                }
                children.push(child);
            },
            None => {
                proof {
                    if h != H3_NULL {
                        crate::h3_index::enumeration::lemma_cell_to_children(h, childRes as int);
                        if is_valid_cell(h) {
                            assert forall|pos: int|
                                0 <= pos < cell_to_children_size(
                                    h,
                                    childRes as int,
                                )->Ok_0 implies is_valid_cell(
                                #[trigger] child_at(h, childRes as int, pos),
                            ) by {
                                crate::h3_index::enumeration::lemma_children_are_valid(
                                    h,
                                    childRes as int,
                                    pos,
                                );
                            }
                        }
                    } else {
                        crate::h3_index::lemma_null_is_no_cell();
                    }
                }
                return Ok(children);
            },
        }
        count = count + 1;
    }
    proof {
    }
    Ok(children)
}

/// The child of a hexagon, or of a cell below a pentagon that has left the
/// pentagon's middle, with the digits of resolutions `from..=child_res` set
/// from its position `idx` among the cells below resolution `from - 1`:
/// each digit is the part of the position that the sizes of the finer
/// resolutions leave.
pub open spec fn hexagon_child_at(h: u64, idx: int, from: int, child_res: int) -> u64
    decreases child_res - from + 1,
{
    if from > child_res {
        h
    } else {
        let width = pow7((child_res - from) as nat);
        hexagon_child_at(
            with_index_digit(h, from, Direction::of(idx / width)),
            idx % width,
            from + 1,
            child_res,
        )
    }
}

/// The child of a pentagon with the digits of resolutions
/// `from..=child_res` set from its position `idx`. The first positions
/// belong to the children of the pentagon in the middle, whose digit is 0.
/// The others follow in the five hexagons around it, whose digits start at
/// 2, for a pentagon has no child with the digit 1.
pub open spec fn pentagon_child_at(h: u64, idx: int, from: int, child_res: int) -> u64
    decreases child_res - from + 1,
{
    if from > child_res {
        h
    } else {
        let width = pow7((child_res - from) as nat);
        let pent_width = 1 + (5 * (width - 1)) / 6;
        if idx < pent_width {
            pentagon_child_at(
                with_index_digit(h, from, Direction::CenterDigit),
                idx,
                from + 1,
                child_res,
            )
        } else {
            hexagon_child_at(
                with_index_digit(h, from, Direction::of((idx - pent_width) / width + 2)),
                (idx - pent_width) % width,
                from + 1,
                child_res,
            )
        }
    }
}

/// The child of a cell at a position among its children of a resolution.
pub open spec fn child_at(parent: u64, child_res: int, pos: int) -> u64 {
    if is_pentagon(parent) {
        pentagon_child_at(
            with_resolution(parent, child_res as u64),
            pos,
            resolution(parent) + 1,
            child_res,
        )
    } else {
        hexagon_child_at(
            with_resolution(parent, child_res as u64),
            pos,
            resolution(parent) + 1,
            child_res,
        )
    }
}

/// Whether a position names a child of a cell at a resolution.
pub open spec fn validate_child_pos(child_pos: int, parent: u64, child_res: int) -> Result<(), Error> {
    match cell_to_children_size(parent, child_res) {
        Err(e) => Err(e),
        Ok(n) => if child_pos < 0 || child_pos >= n {
            Err(Error::Domain)
        } else {
            Ok(())
        },
    }
}

/// The child of a cell at a position among its children of a resolution.
/// There is none at a resolution that is none, at one coarser than the
/// cell's, or at a position that is none.
pub open spec fn child_pos_to_cell(child_pos: int, parent: u64, child_res: int) -> Result<
    u64,
    Error,
> {
    if child_res < 0 || child_res > 15 {
        Err(Error::ResDomain)
    } else if child_res < resolution(parent) {
        Err(Error::ResMismatch)
    } else if validate_child_pos(child_pos, parent, child_res) is Err {
        Err(validate_child_pos(child_pos, parent, child_res)->Err_0)
    } else {
        Ok(child_at(parent, child_res, child_pos))
    }
}

/// Checks that a position names a child of a cell at a resolution.
pub fn validateChildPos(childPos: i64, parent: H3Index, childRes: i32) -> (valid: Result<(), Error>)
    ensures
        valid == validate_child_pos(childPos as int, parent, childRes as int),
{
    let maxChildCount = match cellToChildrenSize(parent, childRes) {
        Ok(n) => n,
        Err(e) => {
            return Err(e);
        },
    };
    if childPos < 0 || childPos >= maxChildCount {
        return Err(Error::Domain);
    }
    Ok(())
}

/// Sets the digits of a child of a hexagon from its position.
fn set_hexagon_digits(child: &mut H3Index, idx: i64, from: i32, childRes: i32)
    requires
        1 <= from,
        from <= childRes + 1,
        childRes <= 15,
        0 <= idx < pow7((childRes - from + 1) as nat),
    ensures
        *final(child) == hexagon_child_at(*old(child), idx as int, from as int, childRes as int),
{
    let ghost target = hexagon_child_at(*child, idx as int, from as int, childRes as int);
    let mut idx = idx;
    let mut res: i32 = from;
    while res <= childRes
        invariant
            1 <= from <= res <= childRes + 1,
            childRes <= 15,
            0 <= idx < pow7((childRes - res + 1) as nat),
            hexagon_child_at(*child, idx as int, res as int, childRes as int) == target,
        decreases childRes + 1 - res,
    {
        let resWidth: i64 = pow7_of(childRes - res);
        proof {
            assert(idx / resWidth < 7 && 0 <= idx % resWidth < resWidth && 0 <= idx / resWidth)
                by (nonlinear_arith)
                requires
                    0 <= idx < 7 * resWidth,
                    resWidth >= 1,
            ;
        }
        H3_SET_INDEX_DIGIT(child, res, (idx / resWidth) as i32);
        idx = idx % resWidth;
        res = res + 1;
    }
}

/// The child of a cell at a position in the list of its children of a
/// resolution, in the order of their digits.
pub fn childPosToCell(childPos: i64, parent: H3Index, childRes: i32) -> (child: Result<
    H3Index,
    Error,
>)
    ensures
        child == child_pos_to_cell(childPos as int, parent, childRes as int),
        child is Ok && is_valid_cell(parent) ==> is_valid_cell(child->Ok_0),
{
    proof {
        if is_valid_cell(parent) && child_pos_to_cell(childPos as int, parent, childRes as int)
            is Ok {
            crate::h3_index::enumeration::lemma_children_are_valid(
                parent,
                childRes as int,
                childPos as int,
            );
        }
    }
    // Validate resolution
    if childRes < 0 || childRes > MAX_H3_RES {
        return Err(Error::ResDomain);
    }
    // Validate parent resolution

    let parentRes = H3_GET_RESOLUTION(parent);
    if childRes < parentRes {
        return Err(Error::ResMismatch);
    }
    // Validate child pos

    match validateChildPos(childPos, parent, childRes) {
        Ok(_) => {},
        Err(e) => {
            return Err(e);
        },
    }

    let mut child = parent;
    let mut idx = childPos;

    H3_SET_RESOLUTION(&mut child, childRes);
    let ghost target = child_at(parent, childRes as int, childPos as int);

    if isPentagon(parent) {
        // Pentagon tile logic. Pentagon tiles skip the 1 digit, so the offsets
        // are different
        let mut res: i32 = parentRes + 1;
        while res <= childRes
            invariant
                0 <= parentRes < res <= childRes + 1,
                childRes <= 15,
                child_pos_to_cell(childPos as int, parent, childRes as int) == Ok::<u64, Error>(
                    target,
                ),
                is_valid_cell(parent) ==> is_valid_cell(target),
                0 <= idx < pentagon_children((childRes - res + 1) as nat),
                pentagon_child_at(child, idx as int, res as int, childRes as int) == target,
            decreases childRes + 1 - res,
        {
            let resWidth: i64 = pow7_of(childRes - res);
            proof {
                lemma_pow7((childRes - res) as nat);
                lemma_pow7((childRes - res + 1) as nat);
            }
            // While we are inside a parent pentagon, we need to check if
            // this cell is a pentagon, and if not, we need to offset its
            // digit to account for the skipped direction
            let pentWidth: i64 = 1 + (5 * (resWidth - 1)) / 6;
            if idx < pentWidth {
                H3_SET_INDEX_DIGIT(&mut child, res, 0);
            } else {
                idx = idx - pentWidth;
                proof {
                    assert(idx / resWidth < 5 && 0 <= idx % resWidth < resWidth && 0 <= idx
                        / resWidth) by (nonlinear_arith)
                        requires
                            0 <= idx < 5 * resWidth,
                            resWidth >= 1,
                    ;
                }
                H3_SET_INDEX_DIGIT(&mut child, res, (idx / resWidth) as i32 + 2);
                // We're no longer inside a pentagon, continue as for hex
                set_hexagon_digits(&mut child, idx % resWidth, res + 1, childRes);
                return Ok(child);
            }
            res = res + 1;
        }
    } else {
        // Hexagon tile logic. Offsets are simple powers of 7
        set_hexagon_digits(&mut child, idx, parentRes + 1, childRes);
    }
    Ok(child)
}

} // verus!
