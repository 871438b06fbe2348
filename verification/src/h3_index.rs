use vstd::prelude::*;
use crate::base_cells::pentagons::{_isBaseCellPentagon, is_base_cell_pentagon};
use crate::constants::{H3_CELL_MODE, MAX_H3_RES, NUM_BASE_CELLS};
use crate::coord_ijk::{Direction, _rotate60ccw, _rotate60cw};

pub mod enumeration;
pub mod hierarchy;
pub mod projected;
pub mod projection;
pub mod validity;

pub use crate::h3_index::hierarchy::{
    cellToChildren, cellToChildrenSize, childPosToCell, validateChildPos,
};
pub use crate::h3_index::projection::{_faceIjkToH3, _h3ToFaceIjk, _h3ToFaceIjkWithInitializedFijk};

verus! {

/// A cell or an edge of the grid, packed into 64 bits. From the top: one
/// reserved bit, four bits of mode, three reserved bits, four bits of
/// resolution, seven bits of base cell, and fifteen digits of three bits
/// each, the coarsest first.
pub type H3Index = u64;

/// An index with mode 0, resolution 0, base cell 0 and every digit unused.
pub const H3_INIT: u64 = 0x0000_1fff_ffff_ffff;

/// The number of bits in an index.
pub const H3_NUM_BITS: i32 = 64;

/// The bit offset of the highest bit.
pub const H3_MAX_OFFSET: i32 = 63;

/// The bit offset of the mode.
pub const H3_MODE_OFFSET: i32 = 59;

/// The bit offset of the base cell.
pub const H3_BC_OFFSET: i32 = 45;

/// The bit offset of the resolution.
pub const H3_RES_OFFSET: i32 = 52;

/// The bit offset of the reserved bits.
pub const H3_RESERVED_OFFSET: i32 = 56;

/// The number of bits in one digit.
pub const H3_PER_DIGIT_OFFSET: i32 = 3;

/// The highest bit alone.
pub const H3_HIGH_BIT_MASK: u64 = 0x8000_0000_0000_0000;

/// Everything but the highest bit.
pub const H3_HIGH_BIT_MASK_NEGATIVE: u64 = 0x7fff_ffff_ffff_ffff;

/// The four bits of the mode.
pub const H3_MODE_MASK: u64 = 0x7800_0000_0000_0000;

/// Everything but the mode.
pub const H3_MODE_MASK_NEGATIVE: u64 = 0x87ff_ffff_ffff_ffff;

/// The seven bits of the base cell.
pub const H3_BC_MASK: u64 = 0x000f_e000_0000_0000;

/// Everything but the base cell.
pub const H3_BC_MASK_NEGATIVE: u64 = 0xfff0_1fff_ffff_ffff;

/// The three reserved bits.
pub const H3_RESERVED_MASK: u64 = 0x0700_0000_0000_0000;

/// Everything but the three reserved bits.
pub const H3_RESERVED_MASK_NEGATIVE: u64 = 0xf8ff_ffff_ffff_ffff;

/// The four bits of the resolution.
pub const H3_RES_MASK: u64 = 0x00f0_0000_0000_0000;

/// Everything but the resolution.
pub const H3_RES_MASK_NEGATIVE: u64 = 0xff0f_ffff_ffff_ffff;

/// The three bits of the finest digit.
pub const H3_DIGIT_MASK: u64 = 7;

/// Everything but the finest digit.
pub const H3_DIGIT_MASK_NEGATIVE: u64 = 0xffff_ffff_ffff_fff8;

// ---------------------------------------------------------------------
// The fields of an index
// ---------------------------------------------------------------------

/// The highest bit of an index.
pub open spec fn high_bit(h: u64) -> u64 {
    (h & H3_HIGH_BIT_MASK) >> 63
}

/// The mode of an index.
pub open spec fn mode(h: u64) -> u64 {
    (h & H3_MODE_MASK) >> 59
}

/// The three reserved bits of an index; in a directed edge, its direction.
pub open spec fn reserved_bits(h: u64) -> u64 {
    (h & H3_RESERVED_MASK) >> 56
}

/// The resolution of an index.
pub open spec fn resolution(h: u64) -> u64 {
    (h & H3_RES_MASK) >> 52
}

/// The base cell of an index.
pub open spec fn base_cell(h: u64) -> u64 {
    (h & H3_BC_MASK) >> 45
}

/// All the bits above the digits.
pub open spec fn header(h: u64) -> u64 {
    h >> 45
}

/// The three bits found `shift` bits above the lowest one.
pub open spec fn digit_bits(h: u64, shift: u64) -> u64 {
    (h >> shift) & 7
}

/// The index with the three bits at `shift` replaced.
pub open spec fn with_digit_bits(h: u64, shift: u64, bits: u64) -> u64 {
    (h & !(7u64 << shift)) | (bits << shift)
}

/// How far above the lowest bit the digit of resolution `res` lies.
pub open spec fn digit_shift(res: int) -> u64 {
    ((15 - res) * 3) as u64
}

/// The digit of resolution `res`, for `res` in `1..=15`.
pub open spec fn index_digit(h: u64, res: int) -> Direction {
    Direction::of(digit_bits(h, digit_shift(res)) as int)
}

/// The index with another highest bit.
pub open spec fn with_high_bit(h: u64, v: u64) -> u64 {
    (h & H3_HIGH_BIT_MASK_NEGATIVE) | (v << 63)
}

/// The index with another mode.
pub open spec fn with_mode(h: u64, v: u64) -> u64 {
    (h & H3_MODE_MASK_NEGATIVE) | (v << 59)
}

/// The index with other reserved bits.
pub open spec fn with_reserved_bits(h: u64, v: u64) -> u64 {
    (h & H3_RESERVED_MASK_NEGATIVE) | (v << 56)
}

/// The index with another resolution.
pub open spec fn with_resolution(h: u64, v: u64) -> u64 {
    (h & H3_RES_MASK_NEGATIVE) | (v << 52)
}

/// The index with another base cell.
pub open spec fn with_base_cell(h: u64, v: u64) -> u64 {
    (h & H3_BC_MASK_NEGATIVE) | (v << 45)
}

/// The index with another digit at resolution `res`.
pub open spec fn with_index_digit(h: u64, res: int, digit: Direction) -> u64 {
    with_digit_bits(h, digit_shift(res), digit.value() as u64)
}

/// Whether two indexes have the same fifteen digits.
pub open spec fn same_digits(a: u64, b: u64) -> bool {
    a & H3_INIT == b & H3_INIT
}

/// Whether two indexes agree in every field but the one that `mask` covers.
pub open spec fn same_outside(a: u64, b: u64, mask: u64) -> bool {
    a & !mask == b & !mask
}

// ---------------------------------------------------------------------
// Facts about the bit layout
// ---------------------------------------------------------------------

/// Every field stays within its width.
pub proof fn lemma_field_bounds(h: u64)
    by (bit_vector)
    ensures
        high_bit(h) <= 1,
        mode(h) <= 15,
        reserved_bits(h) <= 7,
        resolution(h) <= 15,
        base_cell(h) <= 127,
{
}

/// The fields above the digits are read off the header.
pub proof fn lemma_header_fields(a: u64, b: u64)
    by (bit_vector)
    requires
        header(a) == header(b),
    ensures
        high_bit(a) == high_bit(b),
        mode(a) == mode(b),
        reserved_bits(a) == reserved_bits(b),
        resolution(a) == resolution(b),
        base_cell(a) == base_cell(b),
{
}

/// Replacing the highest bit changes that field and no other.
pub proof fn lemma_with_high_bit(h: u64, v: u64)
    by (bit_vector)
    requires
        v <= 1,
    ensures
        high_bit(with_high_bit(h, v)) == v,
        mode(with_high_bit(h, v)) == mode(h),
        reserved_bits(with_high_bit(h, v)) == reserved_bits(h),
        resolution(with_high_bit(h, v)) == resolution(h),
        base_cell(with_high_bit(h, v)) == base_cell(h),
        same_digits(with_high_bit(h, v), h),
        high_bit(h) == v ==> with_high_bit(h, v) == h,
{
}

/// Replacing the mode changes that field and no other.
pub proof fn lemma_with_mode(h: u64, v: u64)
    by (bit_vector)
    requires
        v <= 15,
    ensures
        mode(with_mode(h, v)) == v,
        high_bit(with_mode(h, v)) == high_bit(h),
        reserved_bits(with_mode(h, v)) == reserved_bits(h),
        resolution(with_mode(h, v)) == resolution(h),
        base_cell(with_mode(h, v)) == base_cell(h),
        same_digits(with_mode(h, v), h),
        mode(h) == v ==> with_mode(h, v) == h,
{
}

/// Replacing the reserved bits changes that field and no other.
pub proof fn lemma_with_reserved_bits(h: u64, v: u64)
    by (bit_vector)
    requires
        v <= 7,
    ensures
        reserved_bits(with_reserved_bits(h, v)) == v,
        high_bit(with_reserved_bits(h, v)) == high_bit(h),
        mode(with_reserved_bits(h, v)) == mode(h),
        resolution(with_reserved_bits(h, v)) == resolution(h),
        base_cell(with_reserved_bits(h, v)) == base_cell(h),
        same_digits(with_reserved_bits(h, v), h),
        reserved_bits(h) == v ==> with_reserved_bits(h, v) == h,
{
}

/// Replacing the resolution changes that field and no other.
pub proof fn lemma_with_resolution(h: u64, v: u64)
    by (bit_vector)
    requires
        v <= 15,
    ensures
        resolution(with_resolution(h, v)) == v,
        high_bit(with_resolution(h, v)) == high_bit(h),
        mode(with_resolution(h, v)) == mode(h),
        reserved_bits(with_resolution(h, v)) == reserved_bits(h),
        base_cell(with_resolution(h, v)) == base_cell(h),
        same_digits(with_resolution(h, v), h),
        resolution(h) == v ==> with_resolution(h, v) == h,
{
}

/// Replacing the base cell changes that field and no other.
pub proof fn lemma_with_base_cell(h: u64, v: u64)
    by (bit_vector)
    requires
        v <= 127,
    ensures
        base_cell(with_base_cell(h, v)) == v,
        high_bit(with_base_cell(h, v)) == high_bit(h),
        mode(with_base_cell(h, v)) == mode(h),
        reserved_bits(with_base_cell(h, v)) == reserved_bits(h),
        resolution(with_base_cell(h, v)) == resolution(h),
        same_digits(with_base_cell(h, v), h),
        base_cell(h) == v ==> with_base_cell(h, v) == h,
{
}

/// Three bits read at the place of a digit are the same in two indexes with
/// the same digits.
pub proof fn lemma_same_digits_bits(a: u64, b: u64, shift: u64)
    by (bit_vector)
    requires
        same_digits(a, b),
        shift <= 42,
    ensures
        digit_bits(a, shift) == digit_bits(b, shift),
{
}

/// Replacing three bits at the place of a digit changes that digit, leaves
/// the bits at the place of every other digit, and leaves the header.
pub proof fn lemma_with_digit_bits(h: u64, shift: u64, other: u64, bits: u64)
    by (bit_vector)
    requires
        shift <= 42,
        shift % 3 == 0,
        other <= 42,
        other % 3 == 0,
        bits <= 7,
    ensures
        digit_bits(with_digit_bits(h, shift, bits), shift) == bits,
        other != shift ==> digit_bits(with_digit_bits(h, shift, bits), other) == digit_bits(
            h,
            other,
        ),
        header(with_digit_bits(h, shift, bits)) == header(h),
        digit_bits(h, shift) <= 7,
        digit_bits(h, shift) == bits ==> with_digit_bits(h, shift, bits) == h,
{
}

/// An index is its header and its fifteen digits.
pub proof fn lemma_index_extensionality_bits(a: u64, b: u64)
    by (bit_vector)
    requires
        header(a) == header(b),
        digit_bits(a, 0) == digit_bits(b, 0),
        digit_bits(a, 3) == digit_bits(b, 3),
        digit_bits(a, 6) == digit_bits(b, 6),
        digit_bits(a, 9) == digit_bits(b, 9),
        digit_bits(a, 12) == digit_bits(b, 12),
        digit_bits(a, 15) == digit_bits(b, 15),
        digit_bits(a, 18) == digit_bits(b, 18),
        digit_bits(a, 21) == digit_bits(b, 21),
        digit_bits(a, 24) == digit_bits(b, 24),
        digit_bits(a, 27) == digit_bits(b, 27),
        digit_bits(a, 30) == digit_bits(b, 30),
        digit_bits(a, 33) == digit_bits(b, 33),
        digit_bits(a, 36) == digit_bits(b, 36),
        digit_bits(a, 39) == digit_bits(b, 39),
        digit_bits(a, 42) == digit_bits(b, 42),
    ensures
        a == b,
{
}

/// The place of a digit, as a number of bits.
pub proof fn lemma_digit_shift(res: int)
    requires
        1 <= res <= 15,
    ensures
        digit_shift(res) <= 42,
        digit_shift(res) % 3 == 0,
        digit_shift(res) == 45 - 3 * res,
{
}

/// The three bits of a digit name it.
pub proof fn lemma_index_digit_value(h: u64, res: int)
    requires
        1 <= res <= 15,
    ensures
        index_digit(h, res).value() == digit_bits(h, digit_shift(res)),
{
    lemma_digit_shift(res);
    lemma_with_digit_bits(h, digit_shift(res), 0, 0);
}

/// Replacing a digit changes that digit and nothing else.
pub proof fn lemma_with_index_digit(h: u64, res: int, digit: Direction)
    requires
        1 <= res <= 15,
    ensures
        index_digit(with_index_digit(h, res, digit), res) == digit,
        forall|r: int|
            1 <= r <= 15 && r != res ==> #[trigger] index_digit(
                with_index_digit(h, res, digit),
                r,
            ) == index_digit(h, r),
        header(with_index_digit(h, res, digit)) == header(h),
        high_bit(with_index_digit(h, res, digit)) == high_bit(h),
        mode(with_index_digit(h, res, digit)) == mode(h),
        reserved_bits(with_index_digit(h, res, digit)) == reserved_bits(h),
        resolution(with_index_digit(h, res, digit)) == resolution(h),
        base_cell(with_index_digit(h, res, digit)) == base_cell(h),
        index_digit(h, res) == digit ==> with_index_digit(h, res, digit) == h,
{
    let s = digit_shift(res);
    let b = digit.value() as u64;
    let out = with_index_digit(h, res, digit);
    lemma_digit_shift(res);
    lemma_with_digit_bits(h, s, s, b);
    lemma_header_fields(out, h);
    assert forall|r: int| 1 <= r <= 15 && r != res implies #[trigger] index_digit(out, r)
        == index_digit(h, r) by {
        lemma_digit_shift(r);
        lemma_with_digit_bits(h, s, digit_shift(r), b);
    }
    if index_digit(h, res) == digit {
        lemma_index_digit_value(h, res);
    }
}

/// Two indexes with the same header and the same fifteen digits are the
/// same index.
pub proof fn lemma_index_extensionality(a: u64, b: u64)
    requires
        header(a) == header(b),
        forall|r: int| 1 <= r <= 15 ==> index_digit(a, r) == index_digit(b, r),
    ensures
        a == b,
{
    assert forall|r: int| 1 <= r <= 15 implies digit_bits(a, digit_shift(r)) == digit_bits(
        b,
        digit_shift(r),
    ) by {
        lemma_index_digit_value(a, r);
        lemma_index_digit_value(b, r);
    }
    assert(digit_shift(15) == 0 && digit_shift(14) == 3 && digit_shift(13) == 6);
    assert(digit_shift(12) == 9 && digit_shift(11) == 12 && digit_shift(10) == 15);
    assert(digit_shift(9) == 18 && digit_shift(8) == 21 && digit_shift(7) == 24);
    assert(digit_shift(6) == 27 && digit_shift(5) == 30 && digit_shift(4) == 33);
    assert(digit_shift(3) == 36 && digit_shift(2) == 39 && digit_shift(1) == 42);
    lemma_index_extensionality_bits(a, b);
}

/// Two indexes with the same digits have the same digit at every
/// resolution.
pub proof fn lemma_same_digits(a: u64, b: u64)
    requires
        same_digits(a, b),
    ensures
        forall|r: int| 1 <= r <= 15 ==> #[trigger] index_digit(a, r) == index_digit(b, r),
{
    assert forall|r: int| 1 <= r <= 15 implies #[trigger] index_digit(a, r) == index_digit(
        b,
        r,
    ) by {
        lemma_digit_shift(r);
        lemma_same_digits_bits(a, b, digit_shift(r));
    }
}

// ---------------------------------------------------------------------
// Reading and writing the fields
// ---------------------------------------------------------------------

/// The highest bit of an index.
pub fn H3_GET_HIGH_BIT(h3: H3Index) -> (v: i32)
    ensures
        v == high_bit(h3),
        0 <= v <= 1,
{
    proof {
        lemma_field_bounds(h3);
    }
    ((h3 & H3_HIGH_BIT_MASK) >> 63) as i32
}

/// Sets the highest bit of an index.
pub fn H3_SET_HIGH_BIT(h3: &mut H3Index, v: i32)
    requires
        0 <= v <= 1,
    ensures
        *final(h3) == with_high_bit(*old(h3), v as u64),
        high_bit(*final(h3)) == v,
        mode(*final(h3)) == mode(*old(h3)),
        reserved_bits(*final(h3)) == reserved_bits(*old(h3)),
        resolution(*final(h3)) == resolution(*old(h3)),
        base_cell(*final(h3)) == base_cell(*old(h3)),
        same_digits(*final(h3), *old(h3)),
{
    proof {
        lemma_with_high_bit(*h3, v as u64);
    }
    *h3 = (*h3 & H3_HIGH_BIT_MASK_NEGATIVE) | ((v as u64) << 63);
}

/// The mode of an index.
pub fn H3_GET_MODE(h3: H3Index) -> (v: i32)
    ensures
        v == mode(h3),
        0 <= v <= 15,
{
    proof {
        lemma_field_bounds(h3);
    }
    ((h3 & H3_MODE_MASK) >> 59) as i32
}

/// Sets the mode of an index.
pub fn H3_SET_MODE(h3: &mut H3Index, v: i32)
    requires
        0 <= v <= 15,
    ensures
        *final(h3) == with_mode(*old(h3), v as u64),
        mode(*final(h3)) == v,
        high_bit(*final(h3)) == high_bit(*old(h3)),
        reserved_bits(*final(h3)) == reserved_bits(*old(h3)),
        resolution(*final(h3)) == resolution(*old(h3)),
        base_cell(*final(h3)) == base_cell(*old(h3)),
        same_digits(*final(h3), *old(h3)),
{
    proof {
        lemma_with_mode(*h3, v as u64);
    }
    *h3 = (*h3 & H3_MODE_MASK_NEGATIVE) | ((v as u64) << 59);
}

/// The base cell of an index.
pub fn H3_GET_BASE_CELL(h3: H3Index) -> (v: i32)
    ensures
        v == base_cell(h3),
        0 <= v <= 127,
{
    proof {
        lemma_field_bounds(h3);
    }
    ((h3 & H3_BC_MASK) >> 45) as i32
}

/// Sets the base cell of an index.
pub fn H3_SET_BASE_CELL(h3: &mut H3Index, bc: i32)
    requires
        0 <= bc <= 127,
    ensures
        *final(h3) == with_base_cell(*old(h3), bc as u64),
        base_cell(*final(h3)) == bc,
        high_bit(*final(h3)) == high_bit(*old(h3)),
        mode(*final(h3)) == mode(*old(h3)),
        reserved_bits(*final(h3)) == reserved_bits(*old(h3)),
        resolution(*final(h3)) == resolution(*old(h3)),
        same_digits(*final(h3), *old(h3)),
{
    proof {
        lemma_with_base_cell(*h3, bc as u64);
    }
    *h3 = (*h3 & H3_BC_MASK_NEGATIVE) | ((bc as u64) << 45);
}

/// The resolution of an index.
pub fn H3_GET_RESOLUTION(h3: H3Index) -> (v: i32)
    ensures
        v == resolution(h3),
        0 <= v <= 15,
{
    proof {
        lemma_field_bounds(h3);
    }
    ((h3 & H3_RES_MASK) >> 52) as i32
}

/// Sets the resolution of an index.
pub fn H3_SET_RESOLUTION(h3: &mut H3Index, res: i32)
    requires
        0 <= res <= 15,
    ensures
        *final(h3) == with_resolution(*old(h3), res as u64),
        resolution(*final(h3)) == res,
        high_bit(*final(h3)) == high_bit(*old(h3)),
        mode(*final(h3)) == mode(*old(h3)),
        reserved_bits(*final(h3)) == reserved_bits(*old(h3)),
        base_cell(*final(h3)) == base_cell(*old(h3)),
        same_digits(*final(h3), *old(h3)),
{
    proof {
        lemma_with_resolution(*h3, res as u64);
    }
    *h3 = (*h3 & H3_RES_MASK_NEGATIVE) | ((res as u64) << 52);
}

/// The digit of resolution `res`.
pub fn H3_GET_INDEX_DIGIT(h3: H3Index, res: i32) -> (digit: Direction)
    requires
        1 <= res <= 15,
    ensures
        digit == index_digit(h3, res as int),
{
    let shift: u64 = ((MAX_H3_RES - res) * H3_PER_DIGIT_OFFSET) as u64;
    let bits: u64 = (h3 >> shift) & H3_DIGIT_MASK;
    proof {
        lemma_digit_shift(res as int);
        lemma_with_digit_bits(h3, shift, 0, 0);
    }
    match Direction::from_u64(bits) {
        Some(d) => d,
        None => Direction::InvalidDigit,
    }
}

/// Sets the digit of resolution `res` to the digit that `digit` stands for.
pub fn H3_SET_INDEX_DIGIT(h3: &mut H3Index, res: i32, digit: i32)
    requires
        1 <= res <= 15,
        0 <= digit <= 7,
    ensures
        *final(h3) == with_index_digit(*old(h3), res as int, Direction::of(digit as int)),
        index_digit(*final(h3), res as int) == Direction::of(digit as int),
        forall|r: int|
            1 <= r <= 15 && r != res ==> #[trigger] index_digit(*final(h3), r) == index_digit(
                *old(h3),
                r,
            ),
        header(*final(h3)) == header(*old(h3)),
        high_bit(*final(h3)) == high_bit(*old(h3)),
        mode(*final(h3)) == mode(*old(h3)),
        reserved_bits(*final(h3)) == reserved_bits(*old(h3)),
        resolution(*final(h3)) == resolution(*old(h3)),
        base_cell(*final(h3)) == base_cell(*old(h3)),
{
    let shift: u64 = ((MAX_H3_RES - res) * H3_PER_DIGIT_OFFSET) as u64;
    proof {
        lemma_with_index_digit(*h3, res as int, Direction::of(digit as int));
    }
    *h3 = (*h3 & !(H3_DIGIT_MASK << shift)) | ((digit as u64) << shift);
}

/// Sets the three reserved bits of an index. Any value but zero makes an
/// index that is no cell.
pub fn H3_SET_RESERVED_BITS(h3: &mut H3Index, v: i32)
    requires
        0 <= v <= 7,
    ensures
        *final(h3) == with_reserved_bits(*old(h3), v as u64),
        reserved_bits(*final(h3)) == v,
        high_bit(*final(h3)) == high_bit(*old(h3)),
        mode(*final(h3)) == mode(*old(h3)),
        resolution(*final(h3)) == resolution(*old(h3)),
        base_cell(*final(h3)) == base_cell(*old(h3)),
        same_digits(*final(h3), *old(h3)),
{
    proof {
        lemma_with_reserved_bits(*h3, v as u64);
    }
    *h3 = (*h3 & H3_RESERVED_MASK_NEGATIVE) | ((v as u64) << 56);
}

/// The three reserved bits of an index.
pub fn H3_GET_RESERVED_BITS(h3: H3Index) -> (v: i32)
    ensures
        v == reserved_bits(h3),
        0 <= v <= 7,
{
    proof {
        lemma_field_bounds(h3);
    }
    ((h3 & H3_RESERVED_MASK) >> 56) as i32
}

/// The resolution of an index.
pub fn getResolution(h: H3Index) -> (res: i32)
    ensures
        res == resolution(h),
        0 <= res <= 15,
{
    H3_GET_RESOLUTION(h)
}

/// Whether a resolution is of Class III: the odd resolutions are, the even
/// ones are of Class II.
pub open spec fn is_class_iii(res: int) -> bool {
    res % 2 != 0
}

/// Whether a resolution is of Class III.
pub fn isResolutionClassIII(res: i32) -> (odd: bool)
    ensures
        odd == is_class_iii(res as int),
{
    (res % 2) != 0
}

// ---------------------------------------------------------------------
// Cells
// ---------------------------------------------------------------------

/// The first digit that is not the centre among the digits of resolutions
/// `res..=resolution(h)`, and the centre digit where there is none.
pub open spec fn leading_digit_from(h: u64, res: int) -> Direction
    decreases 16 - res,
{
    if res < 1 || res > 15 || res > resolution(h) {
        Direction::CenterDigit
    } else if index_digit(h, res) != Direction::CenterDigit {
        index_digit(h, res)
    } else {
        leading_digit_from(h, res + 1)
    }
}

/// The coarsest digit of an index that is not the centre, and the centre
/// digit where all its digits are.
pub open spec fn leading_non_zero_digit(h: u64) -> Direction {
    leading_digit_from(h, 1)
}

/// Whether an index, taken as a cell, is a pentagon: its base cell is one,
/// and all its digits are the centre.
pub open spec fn is_pentagon(h: u64) -> bool {
    is_base_cell_pentagon(base_cell(h) as int) && leading_non_zero_digit(h)
        == Direction::CenterDigit
}

/// Whether an index names a cell: the highest bit and the reserved bits are
/// zero, the mode is that of a cell, the base cell is one of the 122, the
/// digits up to the resolution are moves and those beyond it are unused,
/// and in a pentagon's base cell the first move is not along the deleted
/// `k` axis.
pub open spec fn is_valid_cell(h: u64) -> bool {
    &&& high_bit(h) == 0
    &&& mode(h) == 1
    &&& reserved_bits(h) == 0
    &&& base_cell(h) < 122
    &&& forall|r: int| 1 <= r <= resolution(h) ==> index_digit(h, r) != Direction::InvalidDigit
    &&& forall|r: int| resolution(h) < r <= 15 ==> index_digit(h, r) == Direction::InvalidDigit
    &&& is_base_cell_pentagon(base_cell(h) as int) ==> leading_non_zero_digit(h)
        != Direction::KAxesDigit
}

/// The leading digit among the digits from `res` on is the centre exactly
/// where all of them are, and else it is the first that is not.
pub proof fn lemma_leading_digit_from(h: u64, res: int)
    requires
        1 <= res,
    ensures
        leading_digit_from(h, res) == Direction::CenterDigit <==> (forall|r: int|
            res <= r <= resolution(h) ==> index_digit(h, r) == Direction::CenterDigit),
        leading_digit_from(h, res) != Direction::CenterDigit ==> exists|p: int|
            res <= p <= resolution(h) && #[trigger] index_digit(h, p) == leading_digit_from(h, res)
                && (forall|r: int| res <= r < p ==> index_digit(h, r) == Direction::CenterDigit),
    decreases 16 - res,
{
    lemma_field_bounds(h);
    if res > resolution(h) {
    } else if index_digit(h, res) != Direction::CenterDigit {
    } else {
        lemma_leading_digit_from(h, res + 1);
        if leading_digit_from(h, res) != Direction::CenterDigit {
            let p = choose|p: int|
                res + 1 <= p <= resolution(h) && #[trigger] index_digit(h, p) == leading_digit_from(
                    h,
                    res + 1,
                ) && (forall|r: int| res + 1 <= r < p ==> index_digit(h, r) == Direction::CenterDigit);
            assert(index_digit(h, p) == leading_digit_from(h, res));
            assert forall|r: int| res <= r < p implies index_digit(h, r)
                == Direction::CenterDigit by {
            }
        } else {
            assert forall|r: int| res <= r <= resolution(h) implies index_digit(h, r)
                == Direction::CenterDigit by {
            }
        }
    }
}

/// `H3_NULL` is no cell.
pub proof fn lemma_null_is_no_cell()
    ensures
        !is_valid_cell(0),
{
    assert(mode(0) == 0) by (bit_vector);
}

/// What holds of every cell: the digits beyond its resolution are unused,
/// those up to it are moves, and in the base cell of a pentagon the first
/// move is never along `k`.
pub proof fn lemma_valid_cell_digits(h: u64)
    requires
        is_valid_cell(h),
    ensures
        forall|r: int| resolution(h) < r <= 15 ==> index_digit(h, r) == Direction::InvalidDigit,
        forall|r: int| 1 <= r <= resolution(h) ==> 0 <= (#[trigger] index_digit(h, r)).value() <= 6,
        is_base_cell_pentagon(base_cell(h) as int) ==> leading_non_zero_digit(h)
            != Direction::KAxesDigit,
        is_pentagon(h) ==> leading_non_zero_digit(h) == Direction::CenterDigit,
{
    assert forall|r: int| 1 <= r <= resolution(h) implies 0 <= (#[trigger] index_digit(
        h,
        r,
    )).value() <= 6 by {
    }
}

/// The coarsest digit of an index that is not the centre.
pub fn _h3LeadingNonZeroDigit(h: H3Index) -> (digit: Direction)
    ensures
        digit == leading_non_zero_digit(h),
{
    let res: i32 = H3_GET_RESOLUTION(h);
    let mut r: i32 = 1;
    while r <= res
        invariant
            1 <= r <= res + 1,
            res == resolution(h),
            res <= 15,
            leading_digit_from(h, r as int) == leading_non_zero_digit(h),
        decreases res + 1 - r,
    {
        let d = H3_GET_INDEX_DIGIT(h, r);
        if d != Direction::CenterDigit {
            return d;
        }
        r = r + 1;
    }
    // if we're here it's all 0's
    Direction::CenterDigit
}

/// Whether an index, taken as a cell, is a pentagon.
pub fn isPentagon(h: H3Index) -> (pentagon: bool)
    ensures
        pentagon == is_pentagon(h),
{
    _isBaseCellPentagon(H3_GET_BASE_CELL(h)) && _h3LeadingNonZeroDigit(h) == Direction::CenterDigit
}

/// Whether an index names a cell, hexagon or pentagon.
pub fn isValidCell(h: H3Index) -> (valid: bool)
    ensures
        valid == is_valid_cell(h),
{
    if H3_GET_HIGH_BIT(h) != 0 {
        return false;
    }
    if H3_GET_MODE(h) != H3_CELL_MODE {
        return false;
    }
    if H3_GET_RESERVED_BITS(h) != 0 {
        return false;
    }
    let baseCell = H3_GET_BASE_CELL(h);
    if baseCell < 0 || baseCell >= NUM_BASE_CELLS {
        // Base cells less than zero can not be represented in an index
        return false;
    }
    let res = H3_GET_RESOLUTION(h);
    if res < 0 || res > MAX_H3_RES {
        // Resolutions less than zero can not be represented in an index
        return false;
    }
    let mut foundFirstNonZeroDigit = false;
    let mut r: i32 = 1;
    while r <= res
        invariant
            1 <= r <= res + 1,
            res == resolution(h),
            res <= 15,
            baseCell == base_cell(h),
            forall|q: int| 1 <= q < r ==> index_digit(h, q) != Direction::InvalidDigit,
            !foundFirstNonZeroDigit ==> leading_digit_from(h, r as int) == leading_non_zero_digit(
                h,
            ),
            foundFirstNonZeroDigit ==> !(is_base_cell_pentagon(baseCell as int)
                && leading_non_zero_digit(h) == Direction::KAxesDigit),
        decreases res + 1 - r,
    {
        let digit = H3_GET_INDEX_DIGIT(h, r);
        if !foundFirstNonZeroDigit && digit != Direction::CenterDigit {
            foundFirstNonZeroDigit = true;
            if _isBaseCellPentagon(baseCell) && digit == Direction::KAxesDigit {
                return false;
            }
        }
        if digit == Direction::InvalidDigit {
            return false;
        }
        r = r + 1;
    }
    let mut r: i32 = res + 1;
    while r <= MAX_H3_RES
        invariant
            res + 1 <= r <= 16,
            res == resolution(h),
            forall|q: int| res < q < r ==> index_digit(h, q) == Direction::InvalidDigit,
        decreases 16 - r,
    {
        let digit = H3_GET_INDEX_DIGIT(h, r);
        if digit != Direction::InvalidDigit {
            return false;
        }
        r = r + 1;
    }
    true
}

/// Whether a cell has children at a resolution: every resolution from its
/// own to the finest.
pub open spec fn has_child_at_res(h: u64, child_res: int) -> bool {
    resolution(h) <= child_res <= 15
}

/// Whether a cell has children at a resolution. Every cell is its own child
/// at its own resolution.
pub fn _hasChildAtRes(h: H3Index, childRes: i32) -> (has: bool)
    ensures
        has == has_child_at_res(h, childRes as int),
{
    let parentRes = H3_GET_RESOLUTION(h);
    if childRes < parentRes || childRes > MAX_H3_RES {
        return false;
    }
    true
}

/// Whether an index is the cell of a resolution and a base cell, all of
/// whose digits up to the resolution are one digit.
pub open spec fn is_initialized_index(h: u64, res: int, base_cell: int, digit: Direction) -> bool {
    &&& high_bit(h) == 0
    &&& mode(h) == 1
    &&& reserved_bits(h) == 0
    &&& resolution(h) == res
    &&& self::base_cell(h) == base_cell
    &&& forall|r: int| 1 <= r <= res ==> index_digit(h, r) == digit
    &&& forall|r: int| res < r <= 15 ==> index_digit(h, r) == Direction::InvalidDigit
}

/// The five fields above the digits make up the header.
pub proof fn lemma_fields_header(a: u64, b: u64)
    by (bit_vector)
    requires
        high_bit(a) == high_bit(b),
        mode(a) == mode(b),
        reserved_bits(a) == reserved_bits(b),
        resolution(a) == resolution(b),
        base_cell(a) == base_cell(b),
    ensures
        header(a) == header(b),
{
}

/// What the blank index holds, and that two indexes with the same digits
/// have the same bits at the place of every digit.
pub proof fn lemma_init_index()
    by (bit_vector)
    ensures
        high_bit(H3_INIT) == 0,
        mode(H3_INIT) == 0,
        reserved_bits(H3_INIT) == 0,
        resolution(H3_INIT) == 0,
        base_cell(H3_INIT) == 0,
        forall|shift: u64| shift <= 42 ==> #[trigger] digit_bits(H3_INIT, shift) == 7,
{
}

/// Makes the cell of a resolution and a base cell, with all its digits up
/// to the resolution set to one digit.
pub fn setH3Index(hp: &mut H3Index, res: i32, base_cell: i32, init_digit: i32)
    requires
        0 <= res <= 15,
        0 <= base_cell <= 127,
        0 <= init_digit <= 7,
    ensures
        is_initialized_index(
            *final(hp),
            res as int,
            base_cell as int,
            Direction::of(init_digit as int),
        ),
{
    let mut h: H3Index = H3_INIT;
    proof {
        lemma_init_index();
        assert forall|r: int| 1 <= r <= 15 implies index_digit(H3_INIT, r)
            == Direction::InvalidDigit by {
            lemma_digit_shift(r);
        }
    }
    H3_SET_MODE(&mut h, H3_CELL_MODE);
    H3_SET_RESOLUTION(&mut h, res);
    H3_SET_BASE_CELL(&mut h, base_cell);
    proof {
        lemma_same_digits(h, H3_INIT);
    }
    let mut r: i32 = 1;
    while r <= res
        invariant
            1 <= r <= res + 1,
            res <= 15,
            0 <= init_digit <= 7,
            high_bit(h) == 0,
            mode(h) == 1,
            reserved_bits(h) == 0,
            resolution(h) == res,
            self::base_cell(h) == base_cell,
            forall|q: int| 1 <= q < r ==> index_digit(h, q) == Direction::of(init_digit as int),
            forall|q: int| r <= q <= 15 ==> index_digit(h, q) == Direction::InvalidDigit,
        decreases res + 1 - r,
    {
        H3_SET_INDEX_DIGIT(&mut h, r, init_digit);
        r = r + 1;
    }
    *hp = h;
}

// ---------------------------------------------------------------------
// Turning an index
// ---------------------------------------------------------------------

/// The index with the digits of resolutions `res..=resolution(h)` turned
/// 60 degrees counter-clockwise.
pub open spec fn rotate60_ccw_from(h: u64, res: int) -> u64
    decreases 16 - res,
{
    if res < 1 || res > 15 || res > resolution(h) {
        h
    } else {
        rotate60_ccw_from(with_index_digit(h, res, index_digit(h, res).rotated_ccw()), res + 1)
    }
}

/// The index with the digits of resolutions `res..=resolution(h)` turned
/// 60 degrees clockwise.
pub open spec fn rotate60_cw_from(h: u64, res: int) -> u64
    decreases 16 - res,
{
    if res < 1 || res > 15 || res > resolution(h) {
        h
    } else {
        rotate60_cw_from(with_index_digit(h, res, index_digit(h, res).rotated_cw()), res + 1)
    }
}

/// The index with every digit up to its resolution turned 60 degrees
/// counter-clockwise.
pub open spec fn rotate60_ccw(h: u64) -> u64 {
    rotate60_ccw_from(h, 1)
}

/// The index with every digit up to its resolution turned 60 degrees
/// clockwise.
pub open spec fn rotate60_cw(h: u64) -> u64 {
    rotate60_cw_from(h, 1)
}

/// The index turned 60 degrees counter-clockwise about the centre of a
/// pentagon. A pentagon has no `k` axis: where the first move would come to
/// lie on it, the index is turned once more.
pub open spec fn rotate_pent60_ccw(h: u64) -> u64 {
    if leading_non_zero_digit(h).rotated_ccw() == Direction::KAxesDigit {
        rotate60_ccw(rotate60_ccw(h))
    } else {
        rotate60_ccw(h)
    }
}

/// The index turned 60 degrees clockwise about the centre of a pentagon.
pub open spec fn rotate_pent60_cw(h: u64) -> u64 {
    if leading_non_zero_digit(h).rotated_cw() == Direction::KAxesDigit {
        rotate60_cw(rotate60_cw(h))
    } else {
        rotate60_cw(h)
    }
}

/// Turning the digits from `res` on turns each of them, and leaves the
/// coarser digits, the unused digits and the header.
pub proof fn lemma_rotate60_ccw_from(h: u64, res: int)
    requires
        1 <= res,
    ensures
        header(rotate60_ccw_from(h, res)) == header(h),
        resolution(rotate60_ccw_from(h, res)) == resolution(h),
        forall|r: int|
            1 <= r <= 15 ==> #[trigger] index_digit(rotate60_ccw_from(h, res), r) == (if res <= r
                <= resolution(h) {
                index_digit(h, r).rotated_ccw()
            } else {
                index_digit(h, r)
            }),
    decreases 16 - res,
{
    if !(res > 15 || res > resolution(h)) {
        let h1 = with_index_digit(h, res, index_digit(h, res).rotated_ccw());
        lemma_with_index_digit(h, res, index_digit(h, res).rotated_ccw());
        lemma_rotate60_ccw_from(h1, res + 1);
        assert forall|r: int| 1 <= r <= 15 implies #[trigger] index_digit(
            rotate60_ccw_from(h, res),
            r,
        ) == (if res <= r <= resolution(h) {
            index_digit(h, r).rotated_ccw()
        } else {
            index_digit(h, r)
        }) by {
            assert(index_digit(rotate60_ccw_from(h1, res + 1), r) == (if res + 1 <= r
                <= resolution(h1) {
                index_digit(h1, r).rotated_ccw()
            } else {
                index_digit(h1, r)
            }));
        }
    }
}

/// Turning the digits from `res` on clockwise turns each of them, and
/// leaves the coarser digits, the unused digits and the header.
pub proof fn lemma_rotate60_cw_from(h: u64, res: int)
    requires
        1 <= res,
    ensures
        header(rotate60_cw_from(h, res)) == header(h),
        resolution(rotate60_cw_from(h, res)) == resolution(h),
        forall|r: int|
            1 <= r <= 15 ==> #[trigger] index_digit(rotate60_cw_from(h, res), r) == (if res <= r
                <= resolution(h) {
                index_digit(h, r).rotated_cw()
            } else {
                index_digit(h, r)
            }),
    decreases 16 - res,
{
    if !(res > 15 || res > resolution(h)) {
        let h1 = with_index_digit(h, res, index_digit(h, res).rotated_cw());
        lemma_with_index_digit(h, res, index_digit(h, res).rotated_cw());
        lemma_rotate60_cw_from(h1, res + 1);
        assert forall|r: int| 1 <= r <= 15 implies #[trigger] index_digit(
            rotate60_cw_from(h, res),
            r,
        ) == (if res <= r <= resolution(h) {
            index_digit(h, r).rotated_cw()
        } else {
            index_digit(h, r)
        }) by {
            assert(index_digit(rotate60_cw_from(h1, res + 1), r) == (if res + 1 <= r
                <= resolution(h1) {
                index_digit(h1, r).rotated_cw()
            } else {
                index_digit(h1, r)
            }));
        }
    }
}

/// Turning an index turns every digit up to its resolution, and leaves the
/// unused digits and all the fields above the digits.
pub proof fn lemma_rotate60(h: u64)
    ensures
        header(rotate60_ccw(h)) == header(h),
        header(rotate60_cw(h)) == header(h),
        resolution(rotate60_ccw(h)) == resolution(h),
        resolution(rotate60_cw(h)) == resolution(h),
        base_cell(rotate60_ccw(h)) == base_cell(h),
        base_cell(rotate60_cw(h)) == base_cell(h),
        forall|r: int|
            1 <= r <= 15 ==> #[trigger] index_digit(rotate60_ccw(h), r) == (if r <= resolution(h) {
                index_digit(h, r).rotated_ccw()
            } else {
                index_digit(h, r)
            }),
        forall|r: int|
            1 <= r <= 15 ==> #[trigger] index_digit(rotate60_cw(h), r) == (if r <= resolution(h) {
                index_digit(h, r).rotated_cw()
            } else {
                index_digit(h, r)
            }),
{
    lemma_rotate60_ccw_from(h, 1);
    lemma_rotate60_cw_from(h, 1);
    lemma_header_fields(rotate60_ccw(h), h);
    lemma_header_fields(rotate60_cw(h), h);
}

/// Turning an index clockwise undoes turning it counter-clockwise.
pub proof fn lemma_rotate60_inverse(h: u64)
    ensures
        rotate60_cw(rotate60_ccw(h)) == h,
        rotate60_ccw(rotate60_cw(h)) == h,
{
    lemma_rotate60(h);
    lemma_rotate60(rotate60_ccw(h));
    lemma_rotate60(rotate60_cw(h));
    assert forall|r: int| 1 <= r <= 15 implies index_digit(rotate60_cw(rotate60_ccw(h)), r)
        == index_digit(h, r) by {
        crate::coord_ijk::lemma_digit_rotations(index_digit(h, r));
    }
    assert forall|r: int| 1 <= r <= 15 implies index_digit(rotate60_ccw(rotate60_cw(h)), r)
        == index_digit(h, r) by {
        crate::coord_ijk::lemma_digit_rotations(index_digit(h, r));
    }
    lemma_index_extensionality(rotate60_cw(rotate60_ccw(h)), h);
    lemma_index_extensionality(rotate60_ccw(rotate60_cw(h)), h);
}

/// The leading digit of a turned index is the turned leading digit.
pub proof fn lemma_rotate60_leading_digit(h: u64)
    ensures
        leading_non_zero_digit(rotate60_ccw(h)) == leading_non_zero_digit(h).rotated_ccw(),
        leading_non_zero_digit(rotate60_cw(h)) == leading_non_zero_digit(h).rotated_cw(),
{
    lemma_rotate60(h);
    lemma_leading_digit_mapped(h, rotate60_ccw(h), 1, true);
    lemma_leading_digit_mapped(h, rotate60_cw(h), 1, false);
}

/// Where every digit of one index is the turned digit of another, so is the
/// leading digit.
proof fn lemma_leading_digit_mapped(h: u64, out: u64, res: int, ccw: bool)
    requires
        1 <= res,
        resolution(out) == resolution(h),
        forall|r: int|
            1 <= r <= 15 && r <= resolution(h) ==> #[trigger] index_digit(out, r) == (if ccw {
                index_digit(h, r).rotated_ccw()
            } else {
                index_digit(h, r).rotated_cw()
            }),
    ensures
        leading_digit_from(out, res) == (if ccw {
            leading_digit_from(h, res).rotated_ccw()
        } else {
            leading_digit_from(h, res).rotated_cw()
        }),
    decreases 16 - res,
{
    if !(res > 15 || res > resolution(h)) {
        assert(index_digit(out, res) == (if ccw {
            index_digit(h, res).rotated_ccw()
        } else {
            index_digit(h, res).rotated_cw()
        }));
        lemma_leading_digit_mapped(h, out, res + 1, ccw);
    }
}

/// Turns an index 60 degrees counter-clockwise.
pub fn _h3Rotate60ccw(h: H3Index) -> (out: H3Index)
    ensures
        out == rotate60_ccw(h),
{
    let mut h = h;
    let ghost h0 = h;
    let res: i32 = H3_GET_RESOLUTION(h);
    let mut r: i32 = 1;
    while r <= res
        invariant
            1 <= r <= res + 1,
            res <= 15,
            resolution(h) == res,
            rotate60_ccw_from(h, r as int) == rotate60_ccw(h0),
        decreases res + 1 - r,
    {
        let oldDigit: Direction = H3_GET_INDEX_DIGIT(h, r);
        proof {
            crate::coord_ijk::lemma_direction_value_round_trip(oldDigit.rotated_ccw(), 0);
        }
        H3_SET_INDEX_DIGIT(&mut h, r, _rotate60ccw(oldDigit).bits() as i32);
        r = r + 1;
    }
    h
}

/// Turns an index 60 degrees clockwise.
pub fn _h3Rotate60cw(h: H3Index) -> (out: H3Index)
    ensures
        out == rotate60_cw(h),
{
    let mut h = h;
    let ghost h0 = h;
    let res: i32 = H3_GET_RESOLUTION(h);
    let mut r: i32 = 1;
    while r <= res
        invariant
            1 <= r <= res + 1,
            res <= 15,
            resolution(h) == res,
            rotate60_cw_from(h, r as int) == rotate60_cw(h0),
        decreases res + 1 - r,
    {
        let oldIndex: Direction = H3_GET_INDEX_DIGIT(h, r);
        proof {
            crate::coord_ijk::lemma_direction_value_round_trip(oldIndex.rotated_cw(), 0);
        }
        H3_SET_INDEX_DIGIT(&mut h, r, _rotate60cw(oldIndex).bits() as i32);
        r = r + 1;
    }
    h
}

/// Where the digits of resolutions `from..to` are all the centre, the
/// leading digit from `from` on is the leading digit from `to` on.
pub proof fn lemma_leading_digit_skip(h: u64, from: int, to: int)
    requires
        1 <= from <= to,
        to <= resolution(h) + 1,
        forall|q: int| from <= q < to ==> index_digit(h, q) == Direction::CenterDigit,
    ensures
        leading_digit_from(h, from) == leading_digit_from(h, to),
    decreases to - from,
{
    lemma_field_bounds(h);
    if from < to {
        lemma_leading_digit_skip(h, from + 1, to);
    }
}

/// The step of the turn about a pentagon at which the whole index is turned
/// once more: what is left to do then leads to the index turned twice.
proof fn lemma_pent_extra_turn_ccw(h0: u64, h1: u64, h2: u64, res: int)
    requires
        1 <= res <= resolution(h0) <= 15,
        forall|q: int| 1 <= q < res ==> index_digit(h0, q) == Direction::CenterDigit,
        h1 == with_index_digit(h0, res, index_digit(h0, res).rotated_ccw()),
        h2 == rotate60_ccw(h1),
    ensures
        rotate60_ccw_from(h2, res + 1) == rotate60_ccw(rotate60_ccw(h0)),
{
    let lhs = rotate60_ccw_from(h2, res + 1);
    let rhs = rotate60_ccw(rotate60_ccw(h0));
    lemma_with_index_digit(h0, res, index_digit(h0, res).rotated_ccw());
    lemma_rotate60(h1);
    lemma_rotate60_ccw_from(h2, res + 1);
    lemma_rotate60(h0);
    lemma_rotate60(rotate60_ccw(h0));
    assert forall|r: int| 1 <= r <= 15 implies index_digit(lhs, r) == index_digit(rhs, r) by {
        let d0 = index_digit(h0, r);
        assert(index_digit(rotate60_ccw(h0), r) == (if r <= resolution(h0) {
            d0.rotated_ccw()
        } else {
            d0
        }));
        assert(index_digit(rhs, r) == (if r <= resolution(h0) {
            d0.rotated_ccw().rotated_ccw()
        } else {
            d0
        }));
        assert(index_digit(h1, r) == (if r == res {
            d0.rotated_ccw()
        } else {
            d0
        }));
        assert(index_digit(h2, r) == (if r <= resolution(h0) {
            index_digit(h1, r).rotated_ccw()
        } else {
            index_digit(h1, r)
        }));
        assert(index_digit(lhs, r) == (if res + 1 <= r <= resolution(h0) {
            index_digit(h2, r).rotated_ccw()
        } else {
            index_digit(h2, r)
        }));
    }
    lemma_index_extensionality(lhs, rhs);
}

/// Turns an index 60 degrees counter-clockwise about the centre of a
/// pentagon: every digit is turned, and when the first move comes to lie on
/// the deleted `k` axis, the whole index is turned once more.
pub fn _h3RotatePent60ccw(h: H3Index) -> (out: H3Index)
    ensures
        out == rotate_pent60_ccw(h),
{
    let mut h = h;
    let ghost h0 = h;
    let ghost mut target = rotate60_ccw(h0);
    // rotate in place; skips any leading 1 digits (k-axis)
    let mut foundFirstNonZeroDigit: i32 = 0;
    let res: i32 = H3_GET_RESOLUTION(h);
    let mut r: i32 = 1;
    while r <= res
        invariant
            1 <= r <= res + 1,
            res <= 15,
            resolution(h) == res,
            resolution(h0) == res,
            foundFirstNonZeroDigit == 0 || foundFirstNonZeroDigit == 1,
            rotate60_ccw_from(h, r as int) == target,
            foundFirstNonZeroDigit == 0 ==> h == h0 && target == rotate60_ccw(h0)
                && leading_digit_from(h0, r as int) == leading_non_zero_digit(h0) && (forall|q: int|
                1 <= q < r ==> index_digit(h0, q) == Direction::CenterDigit),
            foundFirstNonZeroDigit == 1 ==> target == rotate_pent60_ccw(h0),
        decreases res + 1 - r,
    {
        // rotate this digit
        let oldIndex: Direction = H3_GET_INDEX_DIGIT(h, r);
        proof {
            crate::coord_ijk::lemma_direction_value_round_trip(oldIndex.rotated_ccw(), 0);
            lemma_with_index_digit(h, r as int, oldIndex.rotated_ccw());
        }
        H3_SET_INDEX_DIGIT(&mut h, r, _rotate60ccw(oldIndex).bits() as i32);

        // look for the first non-zero digit so we
        // can adjust for deleted k-axes sequence
        // if necessary
        if foundFirstNonZeroDigit == 0 && H3_GET_INDEX_DIGIT(h, r) != Direction::CenterDigit {
            foundFirstNonZeroDigit = 1;
            proof {
                lemma_leading_digit_skip(h, 1, r as int);
            }

            // adjust for deleted k-axes sequence
            if _h3LeadingNonZeroDigit(h) == Direction::KAxesDigit {
                let ghost h1 = h;
                h = _h3Rotate60ccw(h);
                proof {
                    lemma_rotate60(h1);
                    lemma_pent_extra_turn_ccw(h0, h1, h, r as int);
                    target = rotate60_ccw(rotate60_ccw(h0));
                }
            }
        }
        r = r + 1;
    }
    h
}

/// The step of the turn about a pentagon at which the whole index is turned
/// once more: what is left to do then leads to the index turned twice.
proof fn lemma_pent_extra_turn_cw(h0: u64, h1: u64, h2: u64, res: int)
    requires
        1 <= res <= resolution(h0) <= 15,
        forall|q: int| 1 <= q < res ==> index_digit(h0, q) == Direction::CenterDigit,
        h1 == with_index_digit(h0, res, index_digit(h0, res).rotated_cw()),
        h2 == rotate60_cw(h1),
    ensures
        rotate60_cw_from(h2, res + 1) == rotate60_cw(rotate60_cw(h0)),
{
    let lhs = rotate60_cw_from(h2, res + 1);
    let rhs = rotate60_cw(rotate60_cw(h0));
    lemma_with_index_digit(h0, res, index_digit(h0, res).rotated_cw());
    lemma_rotate60(h1);
    lemma_rotate60_cw_from(h2, res + 1);
    lemma_rotate60(h0);
    lemma_rotate60(rotate60_cw(h0));
    assert forall|r: int| 1 <= r <= 15 implies index_digit(lhs, r) == index_digit(rhs, r) by {
        let d0 = index_digit(h0, r);
        assert(index_digit(rotate60_cw(h0), r) == (if r <= resolution(h0) {
            d0.rotated_cw()
        } else {
            d0
        }));
        assert(index_digit(rhs, r) == (if r <= resolution(h0) {
            d0.rotated_cw().rotated_cw()
        } else {
            d0
        }));
        assert(index_digit(h1, r) == (if r == res {
            d0.rotated_cw()
        } else {
            d0
        }));
        assert(index_digit(h2, r) == (if r <= resolution(h0) {
            index_digit(h1, r).rotated_cw()
        } else {
            index_digit(h1, r)
        }));
        assert(index_digit(lhs, r) == (if res + 1 <= r <= resolution(h0) {
            index_digit(h2, r).rotated_cw()
        } else {
            index_digit(h2, r)
        }));
    }
    lemma_index_extensionality(lhs, rhs);
}

/// Turns an index 60 degrees clockwise about the centre of a
/// pentagon: every digit is turned, and when the first move comes to lie on
/// the deleted `k` axis, the whole index is turned once more.
pub fn _h3RotatePent60cw(h: H3Index) -> (out: H3Index)
    ensures
        out == rotate_pent60_cw(h),
{
    let mut h = h;
    let ghost h0 = h;
    let ghost mut target = rotate60_cw(h0);
    // rotate in place; skips any leading 1 digits (k-axis)
    let mut foundFirstNonZeroDigit: i32 = 0;
    let res: i32 = H3_GET_RESOLUTION(h);
    let mut r: i32 = 1;
    while r <= res
        invariant
            1 <= r <= res + 1,
            res <= 15,
            resolution(h) == res,
            resolution(h0) == res,
            foundFirstNonZeroDigit == 0 || foundFirstNonZeroDigit == 1,
            rotate60_cw_from(h, r as int) == target,
            foundFirstNonZeroDigit == 0 ==> h == h0 && target == rotate60_cw(h0)
                && leading_digit_from(h0, r as int) == leading_non_zero_digit(h0) && (forall|q: int|
                1 <= q < r ==> index_digit(h0, q) == Direction::CenterDigit),
            foundFirstNonZeroDigit == 1 ==> target == rotate_pent60_cw(h0),
        decreases res + 1 - r,
    {
        // rotate this digit
        let oldIndex: Direction = H3_GET_INDEX_DIGIT(h, r);
        proof {
            crate::coord_ijk::lemma_direction_value_round_trip(oldIndex.rotated_cw(), 0);
            lemma_with_index_digit(h, r as int, oldIndex.rotated_cw());
        }
        H3_SET_INDEX_DIGIT(&mut h, r, _rotate60cw(oldIndex).bits() as i32);

        // look for the first non-zero digit so we
        // can adjust for deleted k-axes sequence
        // if necessary
        if foundFirstNonZeroDigit == 0 && H3_GET_INDEX_DIGIT(h, r) != Direction::CenterDigit {
            foundFirstNonZeroDigit = 1;
            proof {
                lemma_leading_digit_skip(h, 1, r as int);
            }

            // adjust for deleted k-axes sequence
            if _h3LeadingNonZeroDigit(h) == Direction::KAxesDigit {
                let ghost h1 = h;
                h = _h3Rotate60cw(h);
                proof {
                    lemma_rotate60(h1);
                    lemma_pent_extra_turn_cw(h0, h1, h, r as int);
                    target = rotate60_cw(rotate60_cw(h0));
                }
            }
        }
        r = r + 1;
    }
    h
}

/// The mask that keeps every bit but `digits` digits of three bits, the
/// lowest of which lies `shift` bits above the lowest bit.
pub open spec fn digits_cleared_mask(digits: u64, shift: u64) -> u64 {
    !((!(!0u64 << (3 * digits) as u64)) << shift)
}

/// The index with the digits of resolutions `start..=end` set to the
/// centre; the index itself where `start > end`.
pub open spec fn zero_index_digits(h: u64, start: int, end: int) -> u64 {
    if start > end {
        h
    } else {
        h & digits_cleared_mask((end - start + 1) as u64, digit_shift(end))
    }
}

/// What the mask clears and what it keeps.
pub proof fn lemma_digits_cleared_mask(h: u64, digits: u64, shift: u64, other: u64)
    by (bit_vector)
    requires
        1 <= digits <= 15,
        shift <= 42,
        shift % 3 == 0,
        3 * digits + shift <= 45,
        other <= 42,
        other % 3 == 0,
    ensures
        header(h & digits_cleared_mask(digits, shift)) == header(h),
        shift <= other < shift + 3 * digits ==> digit_bits(
            h & digits_cleared_mask(digits, shift),
            other,
        ) == 0,
        !(shift <= other < shift + 3 * digits) ==> digit_bits(
            h & digits_cleared_mask(digits, shift),
            other,
        ) == digit_bits(h, other),
{
}

/// Clearing the digits of resolutions `start..=end` sets them to the centre
/// and leaves every other digit and all the fields above the digits.
pub proof fn lemma_zero_index_digits(h: u64, start: int, end: int)
    requires
        start > end || (1 <= start && end <= 15),
    ensures
        header(zero_index_digits(h, start, end)) == header(h),
        resolution(zero_index_digits(h, start, end)) == resolution(h),
        base_cell(zero_index_digits(h, start, end)) == base_cell(h),
        forall|r: int|
            1 <= r <= 15 ==> #[trigger] index_digit(zero_index_digits(h, start, end), r) == (
            if start <= r <= end {
                Direction::CenterDigit
            } else {
                index_digit(h, r)
            }),
{
    let out = zero_index_digits(h, start, end);
    if start <= end {
        let n = (end - start + 1) as u64;
        let s = digit_shift(end);
        lemma_digit_shift(end);
        lemma_digits_cleared_mask(h, n, s, 0);
        assert forall|r: int| 1 <= r <= 15 implies #[trigger] index_digit(out, r) == (if start
            <= r <= end {
            Direction::CenterDigit
        } else {
            index_digit(h, r)
        }) by {
            lemma_digit_shift(r);
            lemma_digits_cleared_mask(h, n, s, digit_shift(r));
        }
    }
    lemma_header_fields(out, h);
}

/// Sets the digits of resolutions `start..=end` to the centre. Does nothing
/// where `start > end`.
pub fn _zeroIndexDigits(h: H3Index, start: i32, end: i32) -> (out: H3Index)
    requires
        start > end || (1 <= start && end <= 15),
    ensures
        out == zero_index_digits(h, start as int, end as int),
{
    if start > end {
        return h;
    }
    let mut m: H3Index = 0;
    m = !m;
    m = m << ((H3_PER_DIGIT_OFFSET * (end - start + 1)) as u64);
    m = !m;
    m = m << ((H3_PER_DIGIT_OFFSET * (MAX_H3_RES - end)) as u64);
    m = !m;
    h & m
}

/// The index turned counter-clockwise `n` times.
pub open spec fn rotate60_ccw_times(h: u64, n: nat) -> u64
    decreases n,
{
    if n == 0 {
        h
    } else {
        rotate60_ccw_times(rotate60_ccw(h), (n - 1) as nat)
    }
}

/// The index turned counter-clockwise about the centre of a pentagon `n`
/// times.
pub open spec fn rotate_pent60_ccw_times(h: u64, n: nat) -> u64
    decreases n,
{
    if n == 0 {
        h
    } else {
        rotate_pent60_ccw_times(rotate_pent60_ccw(h), (n - 1) as nat)
    }
}

/// Turns an index counter-clockwise a number of times.
pub fn _h3Rotate60ccwTimes(h: H3Index, turns: i32) -> (out: H3Index)
    requires
        0 <= turns,
    ensures
        out == rotate60_ccw_times(h, turns as nat),
{
    let mut h = h;
    let ghost h0 = h;
    let mut i: i32 = 0;
    while i < turns
        invariant
            0 <= i <= turns,
            rotate60_ccw_times(h, (turns - i) as nat) == rotate60_ccw_times(h0, turns as nat),
        decreases turns - i,
    {
        h = _h3Rotate60ccw(h);
        i = i + 1;
    }
    h
}

/// Turns an index counter-clockwise about the centre of a pentagon a number
/// of times.
pub fn _h3RotatePent60ccwTimes(h: H3Index, turns: i32) -> (out: H3Index)
    requires
        0 <= turns,
    ensures
        out == rotate_pent60_ccw_times(h, turns as nat),
{
    let mut h = h;
    let ghost h0 = h;
    let mut i: i32 = 0;
    while i < turns
        invariant
            0 <= i <= turns,
            rotate_pent60_ccw_times(h, (turns - i) as nat) == rotate_pent60_ccw_times(
                h0,
                turns as nat,
            ),
        decreases turns - i,
    {
        h = _h3RotatePent60ccw(h);
        i = i + 1;
    }
    h
}

} // verus!
