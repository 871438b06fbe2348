use vstd::prelude::*;
use crate::coord_ijk::Direction;

verus! {

/// The digit that replaces a digit of a Class III resolution when the cell
/// moves one step: by the digit, then by the direction of the step.
pub const NEW_DIGIT_II: [[Direction; 7]; 7] = [
    [
        Direction::CenterDigit,
        Direction::KAxesDigit,
        Direction::JAxesDigit,
        Direction::JKAxesDigit,
        Direction::IAxesDigit,
        Direction::IKAxesDigit,
        Direction::IJAxesDigit,
    ],
    [
        Direction::KAxesDigit,
        Direction::IAxesDigit,
        Direction::JKAxesDigit,
        Direction::IJAxesDigit,
        Direction::IKAxesDigit,
        Direction::JAxesDigit,
        Direction::CenterDigit,
    ],
    [
        Direction::JAxesDigit,
        Direction::JKAxesDigit,
        Direction::KAxesDigit,
        Direction::IAxesDigit,
        Direction::IJAxesDigit,
        Direction::CenterDigit,
        Direction::IKAxesDigit,
    ],
    [
        Direction::JKAxesDigit,
        Direction::IJAxesDigit,
        Direction::IAxesDigit,
        Direction::IKAxesDigit,
        Direction::CenterDigit,
        Direction::KAxesDigit,
        Direction::JAxesDigit,
    ],
    [
        Direction::IAxesDigit,
        Direction::IKAxesDigit,
        Direction::IJAxesDigit,
        Direction::CenterDigit,
        Direction::JAxesDigit,
        Direction::JKAxesDigit,
        Direction::KAxesDigit,
    ],
    [
        Direction::IKAxesDigit,
        Direction::JAxesDigit,
        Direction::CenterDigit,
        Direction::KAxesDigit,
        Direction::JKAxesDigit,
        Direction::IJAxesDigit,
        Direction::IAxesDigit,
    ],
    [
        Direction::IJAxesDigit,
        Direction::CenterDigit,
        Direction::IKAxesDigit,
        Direction::JAxesDigit,
        Direction::KAxesDigit,
        Direction::IAxesDigit,
        Direction::JKAxesDigit,
    ],
];

/// The direction in which the parent moves when a cell of a Class III
/// resolution moves one step, or the centre where the parent stays: by the
/// digit, then by the direction of the step.
pub const NEW_ADJUSTMENT_II: [[Direction; 7]; 7] = [
    [
        Direction::CenterDigit,
        Direction::CenterDigit,
        Direction::CenterDigit,
        Direction::CenterDigit,
        Direction::CenterDigit,
        Direction::CenterDigit,
        Direction::CenterDigit,
    ],
    [
        Direction::CenterDigit,
        Direction::KAxesDigit,
        Direction::CenterDigit,
        Direction::KAxesDigit,
        Direction::CenterDigit,
        Direction::IKAxesDigit,
        Direction::CenterDigit,
    ],
    [
        Direction::CenterDigit,
        Direction::CenterDigit,
        Direction::JAxesDigit,
        Direction::JKAxesDigit,
        Direction::CenterDigit,
        Direction::CenterDigit,
        Direction::JAxesDigit,
    ],
    [
        Direction::CenterDigit,
        Direction::KAxesDigit,
        Direction::JKAxesDigit,
        Direction::JKAxesDigit,
        Direction::CenterDigit,
        Direction::CenterDigit,
        Direction::CenterDigit,
    ],
    [
        Direction::CenterDigit,
        Direction::CenterDigit,
        Direction::CenterDigit,
        Direction::CenterDigit,
        Direction::IAxesDigit,
        Direction::IAxesDigit,
        Direction::IJAxesDigit,
    ],
    [
        Direction::CenterDigit,
        Direction::IKAxesDigit,
        Direction::CenterDigit,
        Direction::CenterDigit,
        Direction::IAxesDigit,
        Direction::IKAxesDigit,
        Direction::CenterDigit,
    ],
    [
        Direction::CenterDigit,
        Direction::CenterDigit,
        Direction::JAxesDigit,
        Direction::CenterDigit,
        Direction::IJAxesDigit,
        Direction::CenterDigit,
        Direction::IJAxesDigit,
    ],
];

/// The digit that replaces a digit of a Class II resolution when the cell
/// moves one step: by the digit, then by the direction of the step.
pub const NEW_DIGIT_III: [[Direction; 7]; 7] = [
    [
        Direction::CenterDigit,
        Direction::KAxesDigit,
        Direction::JAxesDigit,
        Direction::JKAxesDigit,
        Direction::IAxesDigit,
        Direction::IKAxesDigit,
        Direction::IJAxesDigit,
    ],
    [
        Direction::KAxesDigit,
        Direction::JAxesDigit,
        Direction::JKAxesDigit,
        Direction::IAxesDigit,
        Direction::IKAxesDigit,
        Direction::IJAxesDigit,
        Direction::CenterDigit,
    ],
    [
        Direction::JAxesDigit,
        Direction::JKAxesDigit,
        Direction::IAxesDigit,
        Direction::IKAxesDigit,
        Direction::IJAxesDigit,
        Direction::CenterDigit,
        Direction::KAxesDigit,
    ],
    [
        Direction::JKAxesDigit,
        Direction::IAxesDigit,
        Direction::IKAxesDigit,
        Direction::IJAxesDigit,
        Direction::CenterDigit,
        Direction::KAxesDigit,
        Direction::JAxesDigit,
    ],
    [
        Direction::IAxesDigit,
        Direction::IKAxesDigit,
        Direction::IJAxesDigit,
        Direction::CenterDigit,
        Direction::KAxesDigit,
        Direction::JAxesDigit,
        Direction::JKAxesDigit,
    ],
    [
        Direction::IKAxesDigit,
        Direction::IJAxesDigit,
        Direction::CenterDigit,
        Direction::KAxesDigit,
        Direction::JAxesDigit,
        Direction::JKAxesDigit,
        Direction::IAxesDigit,
    ],
    [
        Direction::IJAxesDigit,
        Direction::CenterDigit,
        Direction::KAxesDigit,
        Direction::JAxesDigit,
        Direction::JKAxesDigit,
        Direction::IAxesDigit,
        Direction::IKAxesDigit,
    ],
];

/// The direction in which the parent moves when a cell of a Class II
/// resolution moves one step, or the centre where the parent stays: by the
/// digit, then by the direction of the step.
pub const NEW_ADJUSTMENT_III: [[Direction; 7]; 7] = [
    [
        Direction::CenterDigit,
        Direction::CenterDigit,
        Direction::CenterDigit,
        Direction::CenterDigit,
        Direction::CenterDigit,
        Direction::CenterDigit,
        Direction::CenterDigit,
    ],
    [
        Direction::CenterDigit,
        Direction::KAxesDigit,
        Direction::CenterDigit,
        Direction::JKAxesDigit,
        Direction::CenterDigit,
        Direction::KAxesDigit,
        Direction::CenterDigit,
    ],
    [
        Direction::CenterDigit,
        Direction::CenterDigit,
        Direction::JAxesDigit,
        Direction::JAxesDigit,
        Direction::CenterDigit,
        Direction::CenterDigit,
        Direction::IJAxesDigit,
    ],
    [
        Direction::CenterDigit,
        Direction::JKAxesDigit,
        Direction::JAxesDigit,
        Direction::JKAxesDigit,
        Direction::CenterDigit,
        Direction::CenterDigit,
        Direction::CenterDigit,
    ],
    [
        Direction::CenterDigit,
        Direction::CenterDigit,
        Direction::CenterDigit,
        Direction::CenterDigit,
        Direction::IAxesDigit,
        Direction::IKAxesDigit,
        Direction::IAxesDigit,
    ],
    [
        Direction::CenterDigit,
        Direction::KAxesDigit,
        Direction::CenterDigit,
        Direction::CenterDigit,
        Direction::IKAxesDigit,
        Direction::IKAxesDigit,
        Direction::CenterDigit,
    ],
    [
        Direction::CenterDigit,
        Direction::CenterDigit,
        Direction::IJAxesDigit,
        Direction::CenterDigit,
        Direction::IAxesDigit,
        Direction::CenterDigit,
        Direction::IJAxesDigit,
    ],
];

/// The digit that replaces `digit` when the cell moves one step in the
/// direction `dir`, at a resolution of Class III or of Class II.
#[verifier::opaque]
pub open spec fn new_digit(class_iii: bool, digit: Direction, dir: Direction) -> Direction {
    if class_iii {
        NEW_DIGIT_II[digit.value()][dir.value()]
    } else {
        NEW_DIGIT_III[digit.value()][dir.value()]
    }
}

/// The direction in which the parent has to move when a cell with the digit
/// `digit` moves one step in the direction `dir`; the centre where the
/// parent stays.
#[verifier::opaque]
pub open spec fn new_adjustment(class_iii: bool, digit: Direction, dir: Direction) -> Direction {
    if class_iii {
        NEW_ADJUSTMENT_II[digit.value()][dir.value()]
    } else {
        NEW_ADJUSTMENT_III[digit.value()][dir.value()]
    }
}

/// The tables hold moves only, never the invalid digit. A step in the
/// direction of the centre changes no digit and moves no parent, and a
/// step from the centre child leads to the child in that direction and
/// moves no parent.
pub proof fn lemma_digit_tables(class_iii: bool, digit: Direction, dir: Direction)
    requires
        digit != Direction::InvalidDigit,
        dir != Direction::InvalidDigit,
    ensures
        new_digit(class_iii, digit, dir) != Direction::InvalidDigit,
        new_adjustment(class_iii, digit, dir) != Direction::InvalidDigit,
        new_digit(class_iii, digit, Direction::CenterDigit) == digit,
        new_adjustment(class_iii, digit, Direction::CenterDigit) == Direction::CenterDigit,
        new_digit(class_iii, Direction::CenterDigit, dir) == dir,
        new_adjustment(class_iii, Direction::CenterDigit, dir) == Direction::CenterDigit,
{
    reveal(new_digit);
    reveal(new_adjustment);
}

/// The digit that replaces `digit` when the cell moves one step in the
/// direction `dir`.
pub fn newDigit(classIII: bool, digit: Direction, dir: Direction) -> (new: Direction)
    requires
        digit != Direction::InvalidDigit,
        dir != Direction::InvalidDigit,
    ensures
        new == new_digit(classIII, digit, dir),
        new != Direction::InvalidDigit,
{
    proof {
        reveal(new_digit);
    }
    proof {
        lemma_digit_tables(classIII, digit, dir);
    }
    if classIII {
        NEW_DIGIT_II[digit.bits() as usize][dir.bits() as usize]
    } else {
        NEW_DIGIT_III[digit.bits() as usize][dir.bits() as usize]
    }
}

/// The direction in which the parent has to move when a cell with the digit
/// `digit` moves one step in the direction `dir`.
pub fn newAdjustment(classIII: bool, digit: Direction, dir: Direction) -> (next: Direction)
    requires
        digit != Direction::InvalidDigit,
        dir != Direction::InvalidDigit,
    ensures
        next == new_adjustment(classIII, digit, dir),
        next != Direction::InvalidDigit,
{
    proof {
        reveal(new_adjustment);
    }
    proof {
        lemma_digit_tables(classIII, digit, dir);
    }
    if classIII {
        NEW_ADJUSTMENT_II[digit.bits() as usize][dir.bits() as usize]
    } else {
        NEW_ADJUSTMENT_III[digit.bits() as usize][dir.bits() as usize]
    }
}

} // verus!
