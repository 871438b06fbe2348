use vstd::prelude::*;
use crate::constants::MAX_H3_RES;
use crate::coord_ijk::Direction;
use crate::h3_index::{
    H3Index, H3_GET_INDEX_DIGIT, H3_GET_RESOLUTION, H3_PER_DIGIT_OFFSET, H3_SET_RESOLUTION,
    _zeroIndexDigits, digit_bits, digit_shift, header, index_digit, isPentagon, is_pentagon,
    lemma_digit_shift, lemma_header_fields, lemma_index_digit_value,
    lemma_with_index_digit, lemma_zero_index_digits, resolution, with_digit_bits,
    with_index_digit, with_resolution, zero_index_digits,
};
use crate::H3_NULL;

verus! {

/// A walk through the children of a cell at one resolution, in the order of
/// their digits. `h` is the child that comes next, or `H3_NULL` once the
/// walk is over.
pub struct IterCellsChildren {
    /// The child that comes next.
    pub h: H3Index,
    /// The resolution of the parent, -1 once the walk is over.
    pub _parentRes: i32,
    /// In the children of a pentagon, the finest resolution up to which all
    /// the digits of the next child are still the centre: there the digit
    /// 1, which a pentagon lacks, is passed over. Else -1.
    pub _skipDigit: i32,
}

/// The index with one added to its digit of resolution `res`; where the
/// digit was 7, it becomes 0 and the next coarser digit is carried into.
pub open spec fn with_digit_incremented(h: u64, res: int) -> u64 {
    h.wrapping_add(1u64 << digit_shift(res))
}

/// Adding one to three bits below 7 changes those three bits alone. Adding
/// one to three bits that are 7 sets them to 0 and adds one to the three
/// bits above them.
pub proof fn lemma_increment_bits(h: u64, shift: u64)
    by (bit_vector)
    requires
        shift <= 42,
        shift % 3 == 0,
    ensures
        digit_bits(h, shift) <= 6 ==> h.wrapping_add(1u64 << shift) == with_digit_bits(
            h,
            shift,
            (digit_bits(h, shift) + 1) as u64,
        ),
        digit_bits(h, shift) == 7 ==> h.wrapping_add(1u64 << shift) == with_digit_bits(
            h,
            shift,
            0,
        ).wrapping_add(1u64 << ((shift + 3) as u64)),
{
}

/// Adding one to a digit below 7 changes that digit alone. Adding one to a
/// digit 7 sets it to 0 and adds one to the next coarser digit.
pub proof fn lemma_with_digit_incremented(h: u64, res: int)
    requires
        1 <= res <= 15,
    ensures
        index_digit(h, res) != Direction::InvalidDigit ==> with_digit_incremented(h, res)
            == with_index_digit(h, res, Direction::of(index_digit(h, res).value() + 1)),
        index_digit(h, res) == Direction::InvalidDigit ==> with_digit_incremented(h, res)
            == with_digit_incremented(
            with_index_digit(h, res, Direction::CenterDigit),
            res - 1,
        ),
{
    lemma_digit_shift(res);
    lemma_index_digit_value(h, res);
    lemma_increment_bits(h, digit_shift(res));
    crate::coord_ijk::lemma_direction_value_round_trip(
        Direction::CenterDigit,
        index_digit(h, res).value() + 1,
    );
}

impl IterCellsChildren {
    /// The walk that is over.
    pub open spec fn null() -> IterCellsChildren {
        IterCellsChildren { h: H3_NULL, _parentRes: -1i32, _skipDigit: -1i32 }
    }

    /// Whether the walk is one that `from_parent` and `next` make: while it
    /// goes on, the resolution of the parent is not finer than that of the
    /// children.
    pub open spec fn wf(self) -> bool {
        self.h != 0 ==> {
            &&& 0 <= self._parentRes <= resolution(self.h)
            &&& forall|r: int|
                self._parentRes < r <= resolution(self.h) ==> #[trigger] index_digit(self.h, r)
                    != Direction::InvalidDigit
        }
    }

    /// The walk through the children of `h` at the resolution `child_res`,
    /// before its first child: that is the centre child, all of whose
    /// digits below the parent are 0. There are no children at a coarser
    /// resolution than the parent's, nor of `H3_NULL`.
    pub open spec fn start(h: u64, child_res: int) -> IterCellsChildren {
        if child_res < resolution(h) || child_res > 15 || h == H3_NULL {
            IterCellsChildren::null()
        } else {
            let first = with_resolution(
                zero_index_digits(h, resolution(h) + 1, child_res),
                child_res as u64,
            );
            IterCellsChildren {
                h: first,
                _parentRes: resolution(h) as i32,
                _skipDigit: if is_pentagon(first) {
                    child_res as i32
                } else {
                    -1i32
                },
            }
        }
    }

    /// The walk after the carries from the digit of resolution `res`
    /// upwards, one having been added to that digit. A digit that has
    /// reached 7 is carried into the next coarser one; a carry into the
    /// parent's own digit ends the walk. In the children of a pentagon, the
    /// first digit that is not 0 passes over 1.
    pub open spec fn carried(self, res: int) -> IterCellsChildren
        decreases res - self._parentRes,
    {
        if res <= self._parentRes {
            IterCellsChildren::null()
        } else if res == self._skipDigit && index_digit(self.h, res) == Direction::KAxesDigit {
            IterCellsChildren {
                h: with_digit_incremented(self.h, res),
                _parentRes: self._parentRes,
                _skipDigit: (self._skipDigit - 1) as i32,
            }
        } else if index_digit(self.h, res) == Direction::InvalidDigit {
            IterCellsChildren {
                h: with_digit_incremented(self.h, res),
                _parentRes: self._parentRes,
                _skipDigit: self._skipDigit,
            }.carried(res - 1)
        } else {
            self
        }
    }

    /// The walk one child further.
    pub open spec fn advanced(self) -> IterCellsChildren {
        IterCellsChildren {
            h: with_digit_incremented(self.h, resolution(self.h) as int),
            _parentRes: self._parentRes,
            _skipDigit: self._skipDigit,
        }.carried(resolution(self.h) as int)
    }

    /// The children that a walk still gives, `limit` of them at most.
    pub open spec fn remaining(self, limit: nat) -> Seq<u64>
        decreases limit,
    {
        if limit == 0 || self.h == H3_NULL {
            Seq::empty()
        } else {
            seq![self.h] + self.advanced().remaining((limit - 1) as nat)
        }
    }

    /// The walk through the children of a cell at a resolution.
    pub fn from_parent(h: H3Index, childRes: i32) -> (it: IterCellsChildren)
        ensures
            it == IterCellsChildren::start(h, childRes as int),
            it.wf(),
    {
        let ghost parent = h;
        let mut h = h;
        let _parentRes = H3_GET_RESOLUTION(h);

        if childRes < _parentRes || childRes > MAX_H3_RES || h == H3_NULL {
            return Self::_null_iter();
        }
        h = _zeroIndexDigits(h, _parentRes + 1, childRes);
        proof {
            lemma_zero_index_digits(parent, _parentRes + 1, childRes as int);
            crate::h3_index::lemma_with_resolution(h, childRes as u64);
            crate::h3_index::lemma_same_digits(with_resolution(h, childRes as u64), h);
        }
        H3_SET_RESOLUTION(&mut h, childRes);

        let _skipDigit: i32 = if isPentagon(h) {
            childRes
        } else {
            -1
        };
        IterCellsChildren { h, _parentRes, _skipDigit }
    }

    /// The walk that is over.
    pub fn _null_iter() -> (it: IterCellsChildren)
        ensures
            it == IterCellsChildren::null(),
    {
        IterCellsChildren { h: H3_NULL, _parentRes: -1, _skipDigit: -1 }
    }

    /// The digit of resolution `res` of the child that comes next.
    pub fn _getResDigit(&self, res: i32) -> (digit: Direction)
        requires
            1 <= res <= 15,
        ensures
            digit == index_digit(self.h, res as int),
    {
        H3_GET_INDEX_DIGIT(self.h, res)
    }

    /// Adds one to the digit of resolution `res` of the child that comes
    /// next. A digit 7 becomes 0, and the next coarser digit, or below the
    /// first digit the base cell, is carried into.
    pub fn _incrementResDigit(&mut self, res: i32)
        requires
            0 <= res <= 15,
        ensures
            final(self).h == with_digit_incremented(old(self).h, res as int),
            final(self)._parentRes == old(self)._parentRes,
            final(self)._skipDigit == old(self)._skipDigit,
    {
        let mut val: H3Index = 1;
        val = val << ((H3_PER_DIGIT_OFFSET * (MAX_H3_RES - res)) as u64);
        self.h = self.h.wrapping_add(val);
    }

    /// The next child, and nothing once the walk is over.
    pub fn next(&mut self) -> (child: Option<H3Index>)
        requires
            old(self).wf(),
        ensures
            old(self).h == H3_NULL ==> child is None && *final(self) == *old(self),
            old(self).h != H3_NULL ==> child == Some(old(self).h) && *final(self) == old(
                self,
            ).advanced(),
            final(self).wf(),
    {
        // once h == H3_NULL, the iterator returns an infinite sequence of H3_NULL
        if self.h == H3_NULL {
            return None;
        }
        let ret = self.h;
        let childRes = H3_GET_RESOLUTION(self.h);
        proof {
            if childRes > self._parentRes {
                lemma_with_digit_incremented(self.h, childRes as int);
                lemma_with_index_digit(
                    self.h,
                    childRes as int,
                    Direction::of(index_digit(self.h, childRes as int).value() + 1),
                );
            }
        }
        self._incrementResDigit(childRes);
        let ghost begun = *self;

        let mut i: i32 = childRes;
        while i >= self._parentRes
            invariant
                old(self).h != H3_NULL,
                ret == old(self).h,
                begun.carried(childRes as int) == old(self).advanced(),
                0 <= self._parentRes,
                -1 <= i <= 15,
                i >= self._parentRes - 1,
                self.carried(i as int) == begun.carried(childRes as int),
                i < self._parentRes ==> *self == IterCellsChildren::null(),
                childRes <= 15,
                i <= childRes,
                i > self._parentRes ==> resolution(self.h) == childRes && header(self.h) == header(
                    ret,
                ) && (forall|r: int|
                    self._parentRes < r <= childRes && r != i ==> #[trigger] index_digit(self.h, r)
                        != Direction::InvalidDigit),
            decreases i + 1,
        {
            if i == self._parentRes {
                // if we're modifying the parent resolution digit, then we're done
                *self = IterCellsChildren::_null_iter();
                return Some(ret);
            }
            // PENTAGON_SKIPPED_DIGIT == 1

            if i == self._skipDigit && self._getResDigit(i) == Direction::KAxesDigit {
                // Then we are iterating through the children of a pentagon cell.
                // All children of a pentagon have the property that the first
                // nonzero digit between the parent and child resolutions is
                // not 1.
                // I.e., we never see a sequence like 00001.
                // Thus, we skip the `1` in this digit.
                proof {
                    lemma_with_digit_incremented(self.h, i as int);
                    lemma_with_index_digit(self.h, i as int, Direction::JAxesDigit);
                    lemma_header_fields(with_digit_incremented(self.h, i as int), self.h);
                }
                self._incrementResDigit(i);
                self._skipDigit = self._skipDigit - 1;
                return Some(ret);
            }
            // INVALID_DIGIT == 7

            if self._getResDigit(i) == Direction::InvalidDigit {
                proof {
                    let zeroed = with_index_digit(self.h, i as int, Direction::CenterDigit);
                    lemma_with_digit_incremented(self.h, i as int);
                    lemma_with_index_digit(self.h, i as int, Direction::CenterDigit);
                    if i - 1 > self._parentRes {
                        lemma_with_digit_incremented(zeroed, i - 1);
                        lemma_with_index_digit(
                            zeroed,
                            i - 1,
                            Direction::of(index_digit(zeroed, i - 1).value() + 1),
                        );
                        lemma_header_fields(with_digit_incremented(self.h, i as int), self.h);
                    }
                }
                self._incrementResDigit(i);  // zeros out it[i] and increments it[i-1] by 1
            } else {
                return Some(ret);
            }
            i = i - 1;
        }
        Some(ret)
    }
}

} // verus!
