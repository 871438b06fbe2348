use vstd::prelude::*;

verus! {

/// A lattice coordinate on the three axes `i`, `j` and `k`, which lie 120
/// degrees apart. Adding the same number to all three components names the
/// same lattice point.
#[derive(Clone, Copy, Debug, PartialEq, Eq, Structural)]
pub struct CoordIJK {
    pub i: i32,
    pub j: i32,
    pub k: i32,
}

/// The mathematical value of a `CoordIJK`: three unbounded integers.
pub struct Ijk {
    pub i: int,
    pub j: int,
    pub k: int,
}

impl View for CoordIJK {
    type V = Ijk;

    open spec fn view(&self) -> Ijk {
        Ijk { i: self.i as int, j: self.j as int, k: self.k as int }
    }
}

/// The integer nearest to `n / 7`. No integer is halfway between two
/// multiples of a seventh, so there is no tie to break.
pub open spec fn nearest_seventh(n: int) -> int {
    (n + 3) / 7
}

impl Ijk {
    /// Whether every component can be stored in an `i32`.
    pub open spec fn fits(self) -> bool {
        &&& i32::MIN <= self.i <= i32::MAX
        &&& i32::MIN <= self.j <= i32::MAX
        &&& i32::MIN <= self.k <= i32::MAX
    }

    /// Whether every component lies in `[-bound, bound]`.
    pub open spec fn within(self, bound: int) -> bool {
        &&& -bound <= self.i <= bound
        &&& -bound <= self.j <= bound
        &&& -bound <= self.k <= bound
    }

    /// The sum of two coordinates, component by component.
    pub open spec fn plus(self, other: Ijk) -> Ijk {
        Ijk { i: self.i + other.i, j: self.j + other.j, k: self.k + other.k }
    }

    /// The difference of two coordinates, component by component.
    pub open spec fn minus(self, other: Ijk) -> Ijk {
        Ijk { i: self.i - other.i, j: self.j - other.j, k: self.k - other.k }
    }

    /// The coordinate with every component multiplied by a factor.
    pub open spec fn scaled(self, factor: int) -> Ijk {
        Ijk { i: self.i * factor, j: self.j * factor, k: self.k * factor }
    }

    /// The smallest of the three components.
    pub open spec fn min_component(self) -> int {
        if self.i <= self.j && self.i <= self.k {
            self.i
        } else if self.j <= self.k {
            self.j
        } else {
            self.k
        }
    }

    /// The largest of the three components.
    pub open spec fn max_component(self) -> int {
        if self.i >= self.j && self.i >= self.k {
            self.i
        } else if self.j >= self.k {
            self.j
        } else {
            self.k
        }
    }

    /// Normal form: no component is negative and at least one is zero.
    pub open spec fn is_normal(self) -> bool {
        self.min_component() == 0
    }

    /// The normal form of the same lattice point: every component shifted by
    /// the smallest one.
    pub open spec fn normalized(self) -> Ijk {
        let m = self.min_component();
        Ijk { i: self.i - m, j: self.j - m, k: self.k - m }
    }

    /// The point turned 60 degrees counter-clockwise about the origin.
    pub open spec fn rotated_ccw(self) -> Ijk {
        Ijk { i: self.i + self.k, j: self.i + self.j, k: self.j + self.k }.normalized()
    }

    /// The point turned 60 degrees clockwise about the origin.
    pub open spec fn rotated_cw(self) -> Ijk {
        Ijk { i: self.i + self.j, j: self.j + self.k, k: self.i + self.k }.normalized()
    }

    /// The centre child of the cell in the next finer grid, where that grid
    /// is turned counter-clockwise, before normalisation.
    pub open spec fn down_ap7_raw(self) -> Ijk {
        Ijk { i: 3 * self.i + self.j, j: 3 * self.j + self.k, k: self.i + 3 * self.k }
    }

    /// The centre child in the next finer, counter-clockwise grid.
    pub open spec fn down_ap7(self) -> Ijk {
        self.down_ap7_raw().normalized()
    }

    /// The centre child of the cell in the next finer grid, where that grid
    /// is turned clockwise, before normalisation.
    pub open spec fn down_ap7r_raw(self) -> Ijk {
        Ijk { i: 3 * self.i + self.k, j: self.i + 3 * self.j, k: self.j + 3 * self.k }
    }

    /// The centre child in the next finer, clockwise grid.
    pub open spec fn down_ap7r(self) -> Ijk {
        self.down_ap7r_raw().normalized()
    }

    /// The parent of the cell in the next coarser grid, seen from a
    /// counter-clockwise grid.
    pub open spec fn up_ap7(self) -> Ijk {
        let i = self.i - self.k;
        let j = self.j - self.k;
        Ijk { i: nearest_seventh(3 * i - j), j: nearest_seventh(i + 2 * j), k: 0 }.normalized()
    }

    /// The parent of the cell in the next coarser grid, seen from a
    /// clockwise grid.
    pub open spec fn up_ap7r(self) -> Ijk {
        let i = self.i - self.k;
        let j = self.j - self.k;
        Ijk { i: nearest_seventh(2 * i + j), j: nearest_seventh(3 * j - i), k: 0 }.normalized()
    }

    /// The neighbouring point in the direction of a digit; the point itself
    /// for the centre digit and for the invalid one.
    pub open spec fn neighbor(self, digit: Direction) -> Ijk {
        if digit == Direction::CenterDigit || digit == Direction::InvalidDigit {
            self
        } else {
            self.plus(digit.unit_vector()).normalized()
        }
    }
}

/// A digit of a cell index: one of the seven moves on the lattice, or the
/// marker that fills the unused positions of an index.
#[derive(Clone, Copy, Debug, PartialEq, Eq, Structural)]
pub enum Direction {
    /// No move: the centre child.
    CenterDigit,
    /// The `k` axis.
    KAxesDigit,
    /// The `j` axis.
    JAxesDigit,
    /// Between the `j` and `k` axes.
    JKAxesDigit,
    /// The `i` axis.
    IAxesDigit,
    /// Between the `i` and `k` axes.
    IKAxesDigit,
    /// Between the `i` and `j` axes.
    IJAxesDigit,
    /// Not a move.
    InvalidDigit,
}

impl Direction {
    /// Every move is less than this digit, which is the invalid digit.
    pub const NUM_DIGITS: Direction = Direction::InvalidDigit;

    /// The digit that no child of a pentagon has.
    pub const PENTAGON_SKIPPED_DIGIT: Direction = Direction::KAxesDigit;

    /// The three bits that stand for the digit in an index.
    pub open spec fn value(self) -> int {
        match self {
            Direction::CenterDigit => 0,
            Direction::KAxesDigit => 1,
            Direction::JAxesDigit => 2,
            Direction::JKAxesDigit => 3,
            Direction::IAxesDigit => 4,
            Direction::IKAxesDigit => 5,
            Direction::IJAxesDigit => 6,
            Direction::InvalidDigit => 7,
        }
    }

    /// The digit that three bits stand for; the invalid digit for anything
    /// outside of `0..=6`.
    pub open spec fn of(v: int) -> Direction {
        if v == 0 {
            Direction::CenterDigit
        } else if v == 1 {
            Direction::KAxesDigit
        } else if v == 2 {
            Direction::JAxesDigit
        } else if v == 3 {
            Direction::JKAxesDigit
        } else if v == 4 {
            Direction::IAxesDigit
        } else if v == 5 {
            Direction::IKAxesDigit
        } else if v == 6 {
            Direction::IJAxesDigit
        } else {
            Direction::InvalidDigit
        }
    }

    /// The unit vector of the move; the zero vector for the two digits that
    /// are no move.
    pub open spec fn unit_vector(self) -> Ijk {
        match self {
            Direction::CenterDigit => Ijk { i: 0, j: 0, k: 0 },
            Direction::KAxesDigit => Ijk { i: 0, j: 0, k: 1 },
            Direction::JAxesDigit => Ijk { i: 0, j: 1, k: 0 },
            Direction::JKAxesDigit => Ijk { i: 0, j: 1, k: 1 },
            Direction::IAxesDigit => Ijk { i: 1, j: 0, k: 0 },
            Direction::IKAxesDigit => Ijk { i: 1, j: 0, k: 1 },
            Direction::IJAxesDigit => Ijk { i: 1, j: 1, k: 0 },
            Direction::InvalidDigit => Ijk { i: 0, j: 0, k: 0 },
        }
    }

    /// The digit of a unit vector in normal form; the invalid digit for any
    /// other vector.
    pub open spec fn of_unit_vector(c: Ijk) -> Direction {
        if 0 <= c.i <= 1 && 0 <= c.j <= 1 && 0 <= c.k <= 1 && c.i + c.j + c.k <= 2 {
            Direction::of(4 * c.i + 2 * c.j + c.k)
        } else {
            Direction::InvalidDigit
        }
    }

    /// The move turned 60 degrees counter-clockwise.
    pub open spec fn rotated_ccw(self) -> Direction {
        match self {
            Direction::KAxesDigit => Direction::IKAxesDigit,
            Direction::IKAxesDigit => Direction::IAxesDigit,
            Direction::IAxesDigit => Direction::IJAxesDigit,
            Direction::IJAxesDigit => Direction::JAxesDigit,
            Direction::JAxesDigit => Direction::JKAxesDigit,
            Direction::JKAxesDigit => Direction::KAxesDigit,
            Direction::CenterDigit => Direction::CenterDigit,
            Direction::InvalidDigit => Direction::InvalidDigit,
        }
    }

    /// The move turned 60 degrees clockwise.
    pub open spec fn rotated_cw(self) -> Direction {
        match self {
            Direction::KAxesDigit => Direction::JKAxesDigit,
            Direction::JKAxesDigit => Direction::JAxesDigit,
            Direction::JAxesDigit => Direction::IJAxesDigit,
            Direction::IJAxesDigit => Direction::IAxesDigit,
            Direction::IAxesDigit => Direction::IKAxesDigit,
            Direction::IKAxesDigit => Direction::KAxesDigit,
            Direction::CenterDigit => Direction::CenterDigit,
            Direction::InvalidDigit => Direction::InvalidDigit,
        }
    }

    /// The move turned counter-clockwise `n` times.
    pub open spec fn rotated_ccw_times(self, n: nat) -> Direction
        decreases n,
    {
        if n == 0 {
            self
        } else {
            self.rotated_ccw().rotated_ccw_times((n - 1) as nat)
        }
    }

    /// The three bits that stand for the digit.
    pub fn bits(self) -> (v: u8)
        ensures
            v == self.value(),
            v <= 7,
    {
        match self {
            Direction::CenterDigit => 0,
            Direction::KAxesDigit => 1,
            Direction::JAxesDigit => 2,
            Direction::JKAxesDigit => 3,
            Direction::IAxesDigit => 4,
            Direction::IKAxesDigit => 5,
            Direction::IJAxesDigit => 6,
            Direction::InvalidDigit => 7,
        }
    }

    /// The digit for a number in `0..=7`, and nothing for a larger one.
    pub fn from_u64(n: u64) -> (d: Option<Direction>)
        ensures
            n <= 7 ==> d == Some(Direction::of(n as int)),
            n > 7 ==> d is None,
    {
        if n == 0 {
            Some(Direction::CenterDigit)
        } else if n == 1 {
            Some(Direction::KAxesDigit)
        } else if n == 2 {
            Some(Direction::JAxesDigit)
        } else if n == 3 {
            Some(Direction::JKAxesDigit)
        } else if n == 4 {
            Some(Direction::IAxesDigit)
        } else if n == 5 {
            Some(Direction::IKAxesDigit)
        } else if n == 6 {
            Some(Direction::IJAxesDigit)
        } else if n == 7 {
            Some(Direction::InvalidDigit)
        } else {
            None
        }
    }
}

/// A digit and its three bits determine each other.
pub proof fn lemma_direction_value_round_trip(d: Direction, v: int)
    ensures
        Direction::of(d.value()) == d,
        0 <= d.value() <= 7,
        0 <= v <= 7 ==> Direction::of(v).value() == v,
{
}

/// Turning a move clockwise undoes turning it counter-clockwise, and six
/// turns in one sense bring every move back.
pub proof fn lemma_digit_rotations(d: Direction)
    ensures
        d.rotated_ccw().rotated_cw() == d,
        d.rotated_cw().rotated_ccw() == d,
        d.rotated_ccw_times(6) == d,
        d.rotated_ccw_times(5) == d.rotated_cw(),
{
    reveal_with_fuel(Direction::rotated_ccw_times, 7);
}

/// Turning a move and then taking its unit vector is turning the unit
/// vector.
pub proof fn lemma_digit_rotation_is_vector_rotation(d: Direction)
    ensures
        d.rotated_ccw().unit_vector() == d.unit_vector().rotated_ccw(),
        d.rotated_cw().unit_vector() == d.unit_vector().rotated_cw(),
{
}

/// The nearest seventh is the one integer within three sevenths.
pub proof fn lemma_nearest_seventh(n: int, q: int)
    ensures
        -3 <= n - 7 * nearest_seventh(n) <= 3,
        -3 <= n - 7 * q <= 3 ==> q == nearest_seventh(n),
{
}

/// Normalising gives a normal form of the same point, and changes nothing
/// on a normal form.
pub proof fn lemma_normalized(c: Ijk)
    ensures
        c.normalized().is_normal(),
        c.normalized().i >= 0 && c.normalized().j >= 0 && c.normalized().k >= 0,
        c.normalized().normalized() == c.normalized(),
        c.is_normal() ==> c.normalized() == c,
        c.normalized().max_component() == c.max_component() - c.min_component(),
{
}

/// The span of a point, the difference of its largest and smallest
/// components, is its distance from the origin in cells. Normalising puts
/// the span into the largest component, and turning the point keeps it.
pub proof fn lemma_rotation_keeps_span(c: Ijk)
    ensures
        c.normalized().max_component() == c.max_component() - c.min_component(),
        c.rotated_ccw().max_component() == c.max_component() - c.min_component(),
        c.rotated_cw().max_component() == c.max_component() - c.min_component(),
        c.rotated_ccw().is_normal(),
        c.rotated_cw().is_normal(),
        c.max_component() >= c.min_component(),
{
}

impl Ijk {
    /// The difference of the largest and the smallest component: how many
    /// cells the point lies from the origin.
    pub open spec fn span(self) -> int {
        self.max_component() - self.min_component()
    }
}

/// The parent of a cell lies less than half as far from the origin as the
/// cell, but for the rounding.
pub proof fn lemma_up_ap7_span(c: Ijk)
    ensures
        c.up_ap7().is_normal(),
        c.up_ap7r().is_normal(),
        7 * c.up_ap7().max_component() <= 3 * c.span() + 6,
        7 * c.up_ap7r().max_component() <= 3 * c.span() + 6,
{
}

/// The centre child of a cell lies at most three times as far from the
/// origin as the cell, and a neighbour at most one cell further.
pub proof fn lemma_down_ap7_span(c: Ijk, digit: Direction)
    ensures
        c.down_ap7().is_normal(),
        c.down_ap7r().is_normal(),
        c.down_ap7().max_component() <= 3 * c.span(),
        c.down_ap7r().max_component() <= 3 * c.span(),
        c.is_normal() ==> c.neighbor(digit).is_normal() && c.neighbor(digit).max_component()
            <= c.max_component() + 1,
{
}

/// Sets the three components of a coordinate.
pub fn _setIJK(ijk: &mut CoordIJK, i: i32, j: i32, k: i32)
    ensures
        *final(ijk) == (CoordIJK { i, j, k }),
{
    ijk.i = i;
    ijk.j = j;
    ijk.k = k;
}

/// Whether two coordinates have the same three components.
pub fn _ijkMatches(c1: CoordIJK, c2: CoordIJK) -> (same: bool)
    ensures
        same == (c1 == c2),
        same == (c1@ == c2@),
{
    c1.i == c2.i && c1.j == c2.j && c1.k == c2.k
}

/// Adds two coordinates component by component.
pub fn _ijkAdd(h1: CoordIJK, h2: CoordIJK, sum: &mut CoordIJK)
    requires
        h1@.plus(h2@).fits(),
    ensures
        final(sum)@ == h1@.plus(h2@),
{
    sum.i = h1.i + h2.i;
    sum.j = h1.j + h2.j;
    sum.k = h1.k + h2.k;
}

/// Subtracts the second coordinate from the first, component by component.
pub fn _ijkSub(h1: CoordIJK, h2: CoordIJK, diff: &mut CoordIJK)
    requires
        h1@.minus(h2@).fits(),
    ensures
        final(diff)@ == h1@.minus(h2@),
{
    diff.i = h1.i - h2.i;
    diff.j = h1.j - h2.j;
    diff.k = h1.k - h2.k;
}

/// Multiplies every component by a factor.
pub fn _ijkScale(c: &mut CoordIJK, factor: i32)
    requires
        old(c)@.scaled(factor as int).fits(),
    ensures
        final(c)@ == old(c)@.scaled(factor as int),
{
    c.i = c.i * factor;
    c.j = c.j * factor;
    c.k = c.k * factor;
}

/// Brings a coordinate into normal form: first the negative components are
/// removed, one axis after the other, then the smallest component is
/// subtracted from all three.
pub fn _ijkNormalize(c: &mut CoordIJK)
    requires
        old(c)@.normalized().fits(),
    ensures
        final(c)@ == old(c)@.normalized(),
{
    let mut i: i64 = c.i as i64;
    let mut j: i64 = c.j as i64;
    let mut k: i64 = c.k as i64;

    // remove any negative values
    if i < 0 {
        j = j - i;
        k = k - i;
        i = 0;
    }
    if j < 0 {
        i = i - j;
        k = k - j;
        j = 0;
    }
    if k < 0 {
        i = i - k;
        j = j - k;
        k = 0;
    }

    // remove the min value if needed
    let mut min: i64 = i;
    if j < min {
        min = j;
    }
    if k < min {
        min = k;
    }
    if min > 0 {
        i = i - min;
        j = j - min;
        k = k - min;
    }
    c.i = i as i32;
    c.j = j as i32;
    c.k = k as i32;
}

/// The digit of a unit vector, which need not be in normal form; the invalid
/// digit for every other vector.
pub fn _unitIjkToDigit(ijk: CoordIJK) -> (digit: Direction)
    requires
        ijk@.normalized().fits(),
    ensures
        digit == Direction::of_unit_vector(ijk@.normalized()),
{
    let mut c: CoordIJK = ijk;
    _ijkNormalize(&mut c);
    if c.i == 0 && c.j == 0 && c.k == 0 {
        Direction::CenterDigit
    } else if c.i == 0 && c.j == 0 && c.k == 1 {
        Direction::KAxesDigit
    } else if c.i == 0 && c.j == 1 && c.k == 0 {
        Direction::JAxesDigit
    } else if c.i == 0 && c.j == 1 && c.k == 1 {
        Direction::JKAxesDigit
    } else if c.i == 1 && c.j == 0 && c.k == 0 {
        Direction::IAxesDigit
    } else if c.i == 1 && c.j == 0 && c.k == 1 {
        Direction::IKAxesDigit
    } else if c.i == 1 && c.j == 1 && c.k == 0 {
        Direction::IJAxesDigit
    } else {
        Direction::InvalidDigit
    }
}

/// The integer nearest to a seventh of `n`.
fn nearest_seventh_of(n: i64) -> (q: i64)
    requires
        -0x4_0000_0000 <= n <= 0x4_0000_0000,
    ensures
        q == nearest_seventh(n as int),
{
    let m: i64 = n + 3;
    if m >= 0 {
        m / 7
    } else {
        -((6 - m) / 7)
    }
}

/// Replaces a coordinate by that of its parent in the next coarser grid,
/// seen from a counter-clockwise grid.
pub fn _upAp7(ijk: &mut CoordIJK)
    requires
        old(ijk)@.up_ap7().fits(),
    ensures
        final(ijk)@ == old(ijk)@.up_ap7(),
{
    let i: i64 = ijk.i as i64 - ijk.k as i64;
    let j: i64 = ijk.j as i64 - ijk.k as i64;
    let ni: i64 = nearest_seventh_of(3 * i - j);
    let nj: i64 = nearest_seventh_of(i + 2 * j);
    let min: i64 = if ni <= nj && ni <= 0 {
        ni
    } else if nj <= 0 {
        nj
    } else {
        0
    };
    ijk.i = (ni - min) as i32;
    ijk.j = (nj - min) as i32;
    ijk.k = (0 - min) as i32;
}

/// Replaces a coordinate by that of its parent in the next coarser grid,
/// seen from a clockwise grid.
pub fn _upAp7r(ijk: &mut CoordIJK)
    requires
        old(ijk)@.up_ap7r().fits(),
    ensures
        final(ijk)@ == old(ijk)@.up_ap7r(),
{
    let i: i64 = ijk.i as i64 - ijk.k as i64;
    let j: i64 = ijk.j as i64 - ijk.k as i64;
    let ni: i64 = nearest_seventh_of(2 * i + j);
    let nj: i64 = nearest_seventh_of(3 * j - i);
    let min: i64 = if ni <= nj && ni <= 0 {
        ni
    } else if nj <= 0 {
        nj
    } else {
        0
    };
    ijk.i = (ni - min) as i32;
    ijk.j = (nj - min) as i32;
    ijk.k = (0 - min) as i32;
}

/// Stores the normal form of three wide components.
fn store_normalized(ijk: &mut CoordIJK, i: i64, j: i64, k: i64)
    requires
        -0x4_0000_0000 <= i <= 0x4_0000_0000,
        -0x4_0000_0000 <= j <= 0x4_0000_0000,
        -0x4_0000_0000 <= k <= 0x4_0000_0000,
        (Ijk { i: i as int, j: j as int, k: k as int }).normalized().fits(),
    ensures
        final(ijk)@ == (Ijk { i: i as int, j: j as int, k: k as int }).normalized(),
{
    let min: i64 = if i <= j && i <= k {
        i
    } else if j <= k {
        j
    } else {
        k
    };
    ijk.i = (i - min) as i32;
    ijk.j = (j - min) as i32;
    ijk.k = (k - min) as i32;
}

/// Replaces a coordinate by that of its centre child in the next finer,
/// counter-clockwise grid.
pub fn _downAp7(ijk: &mut CoordIJK)
    requires
        old(ijk)@.down_ap7().fits(),
    ensures
        final(ijk)@ == old(ijk)@.down_ap7(),
{
    let i: i64 = ijk.i as i64;
    let j: i64 = ijk.j as i64;
    let k: i64 = ijk.k as i64;
    store_normalized(ijk, 3 * i + j, 3 * j + k, i + 3 * k);
}

/// Replaces a coordinate by that of its centre child in the next finer,
/// clockwise grid.
pub fn _downAp7r(ijk: &mut CoordIJK)
    requires
        old(ijk)@.down_ap7r().fits(),
    ensures
        final(ijk)@ == old(ijk)@.down_ap7r(),
{
    let i: i64 = ijk.i as i64;
    let j: i64 = ijk.j as i64;
    let k: i64 = ijk.k as i64;
    store_normalized(ijk, 3 * i + k, i + 3 * j, j + 3 * k);
}

/// Moves a coordinate one step in the direction of a digit. The centre
/// digit and the invalid digit leave it as it is.
pub fn _neighbor(ijk: &mut CoordIJK, digit: Direction)
    requires
        old(ijk)@.neighbor(digit).fits(),
    ensures
        final(ijk)@ == old(ijk)@.neighbor(digit),
{
    let (di, dj, dk): (i64, i64, i64) = match digit {
        Direction::CenterDigit => return ,
        Direction::InvalidDigit => return ,
        Direction::KAxesDigit => (0, 0, 1),
        Direction::JAxesDigit => (0, 1, 0),
        Direction::JKAxesDigit => (0, 1, 1),
        Direction::IAxesDigit => (1, 0, 0),
        Direction::IKAxesDigit => (1, 0, 1),
        Direction::IJAxesDigit => (1, 1, 0),
    };
    let i: i64 = ijk.i as i64;
    let j: i64 = ijk.j as i64;
    let k: i64 = ijk.k as i64;
    store_normalized(ijk, i + di, j + dj, k + dk);
}

/// Turns a coordinate 60 degrees counter-clockwise about the origin.
pub fn _ijkRotate60ccw(ijk: &mut CoordIJK)
    requires
        old(ijk)@.rotated_ccw().fits(),
    ensures
        final(ijk)@ == old(ijk)@.rotated_ccw(),
{
    let i: i64 = ijk.i as i64;
    let j: i64 = ijk.j as i64;
    let k: i64 = ijk.k as i64;
    store_normalized(ijk, i + k, i + j, j + k);
}

/// Turns a coordinate 60 degrees clockwise about the origin.
pub fn _ijkRotate60cw(ijk: &mut CoordIJK)
    requires
        old(ijk)@.rotated_cw().fits(),
    ensures
        final(ijk)@ == old(ijk)@.rotated_cw(),
{
    let i: i64 = ijk.i as i64;
    let j: i64 = ijk.j as i64;
    let k: i64 = ijk.k as i64;
    store_normalized(ijk, i + j, j + k, i + k);
}

/// Turns a digit 60 degrees counter-clockwise.
pub fn _rotate60ccw(digit: Direction) -> (turned: Direction)
    ensures
        turned == digit.rotated_ccw(),
{
    match digit {
        Direction::KAxesDigit => Direction::IKAxesDigit,
        Direction::IKAxesDigit => Direction::IAxesDigit,
        Direction::IAxesDigit => Direction::IJAxesDigit,
        Direction::IJAxesDigit => Direction::JAxesDigit,
        Direction::JAxesDigit => Direction::JKAxesDigit,
        Direction::JKAxesDigit => Direction::KAxesDigit,
        Direction::CenterDigit => digit,
        Direction::InvalidDigit => digit,
    }
}

/// Turns a digit 60 degrees clockwise.
pub fn _rotate60cw(digit: Direction) -> (turned: Direction)
    ensures
        turned == digit.rotated_cw(),
{
    match digit {
        Direction::KAxesDigit => Direction::JKAxesDigit,
        Direction::JKAxesDigit => Direction::JAxesDigit,
        Direction::JAxesDigit => Direction::IJAxesDigit,
        Direction::IJAxesDigit => Direction::IAxesDigit,
        Direction::IAxesDigit => Direction::IKAxesDigit,
        Direction::IKAxesDigit => Direction::KAxesDigit,
        Direction::CenterDigit => digit,
        Direction::InvalidDigit => digit,
    }
}

/// The cell of the whole plane that is meant by a cell `(i, j)` found for
/// the absolute values of a point's two coordinates: where the first
/// coordinate of the point is negative, the cell lies mirrored at the `j`
/// axis, and where the second is, mirrored at the `i` axis.
pub open spec fn folded(i: int, j: int, x_negative: bool, y_negative: bool) -> Ijk {
    let across = if x_negative {
        j - i
    } else {
        i
    };
    if y_negative {
        Ijk { i: across - j, j: -j, k: 0 }.normalized()
    } else {
        Ijk { i: across, j: j, k: 0 }.normalized()
    }
}

/// Folds a cell found in the quadrant of the plane where both coordinates
/// are positive across the axes into the quadrant of the point it was found
/// for, and brings it into normal form.
pub fn _foldAcrossAxes(h: &mut CoordIJK, xNegative: bool, yNegative: bool)
    requires
        0 <= old(h).j <= 0x2000_0000,
        -0x2000_0000 <= old(h).i <= 0x2000_0000,
    ensures
        final(h)@ == folded(old(h).i as int, old(h).j as int, xNegative, yNegative),
{
    let mut i: i32 = h.i;
    let mut j: i32 = h.j;
    if xNegative {
        if (j % 2) == 0 {
            // even
            let axisi: i32 = j / 2;
            let diff: i32 = i - axisi;
            i = i - 2 * diff;
        } else {
            let axisi: i32 = (j + 1) / 2;
            let diff: i32 = i - axisi;
            i = i - (2 * diff + 1);
        }
    }
    if yNegative {
        i = i - (2 * j + 1) / 2;
        j = -j;
    }
    h.i = i;
    h.j = j;
    h.k = 0;
    _ijkNormalize(h);
}

} // verus!
