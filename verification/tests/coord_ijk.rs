use h3grid::coord_ijk::{
    CoordIJK, Direction, _downAp7, _downAp7r, _ijkAdd, _ijkMatches, _ijkNormalize,
    _foldAcrossAxes, _ijkRotate60ccw, _ijkRotate60cw, _ijkScale, _ijkSub, _neighbor,
    _rotate60ccw, _rotate60cw,
    _setIJK, _unitIjkToDigit, _upAp7, _upAp7r,
};

fn ijk(i: i32, j: i32, k: i32) -> CoordIJK {
    CoordIJK { i, j, k }
}

const MOVES: [Direction; 6] = [
    Direction::KAxesDigit,
    Direction::JAxesDigit,
    Direction::JKAxesDigit,
    Direction::IAxesDigit,
    Direction::IKAxesDigit,
    Direction::IJAxesDigit,
];

#[test]
fn set_and_match() {
    let mut c = ijk(0, 0, 0);
    _setIJK(&mut c, 1, -2, 3);
    assert_eq!(c, ijk(1, -2, 3));
    assert!(_ijkMatches(c, ijk(1, -2, 3)));
    assert!(!_ijkMatches(c, ijk(1, -2, 4)));
    assert!(!_ijkMatches(c, ijk(2, -1, 4)));
}

#[test]
fn add_sub_scale() {
    let mut c = ijk(0, 0, 0);
    _ijkAdd(ijk(1, 2, 3), ijk(10, -20, 30), &mut c);
    assert_eq!(c, ijk(11, -18, 33));
    _ijkSub(ijk(1, 2, 3), ijk(10, -20, 30), &mut c);
    assert_eq!(c, ijk(-9, 22, -27));
    _ijkScale(&mut c, -3);
    assert_eq!(c, ijk(27, -66, 81));
    _ijkScale(&mut c, 0);
    assert_eq!(c, ijk(0, 0, 0));
}

#[test]
fn normalize() {
    let mut c = ijk(-1, -2, -3);
    _ijkNormalize(&mut c);
    assert_eq!(c, ijk(2, 1, 0));
    let mut c = ijk(5, 3, 4);
    _ijkNormalize(&mut c);
    assert_eq!(c, ijk(2, 0, 1));
    let mut c = ijk(0, -3, 5);
    _ijkNormalize(&mut c);
    assert_eq!(c, ijk(3, 0, 8));
    let mut c = ijk(2, 0, 1);
    _ijkNormalize(&mut c);
    assert_eq!(c, ijk(2, 0, 1));
    // the components on the way do not fit, the result does
    let mut c = ijk(i32::MIN, -1, i32::MIN + 5);
    _ijkNormalize(&mut c);
    assert_eq!(c, ijk(0, i32::MAX, 5));
}

#[test]
fn unit_vectors_and_digits() {
    assert_eq!(_unitIjkToDigit(ijk(0, 0, 0)), Direction::CenterDigit);
    assert_eq!(_unitIjkToDigit(ijk(0, 0, 1)), Direction::KAxesDigit);
    assert_eq!(_unitIjkToDigit(ijk(0, 1, 0)), Direction::JAxesDigit);
    assert_eq!(_unitIjkToDigit(ijk(0, 1, 1)), Direction::JKAxesDigit);
    assert_eq!(_unitIjkToDigit(ijk(1, 0, 0)), Direction::IAxesDigit);
    assert_eq!(_unitIjkToDigit(ijk(1, 0, 1)), Direction::IKAxesDigit);
    assert_eq!(_unitIjkToDigit(ijk(1, 1, 0)), Direction::IJAxesDigit);
    // not in normal form
    assert_eq!(_unitIjkToDigit(ijk(5, 5, 6)), Direction::KAxesDigit);
    assert_eq!(_unitIjkToDigit(ijk(-1, -1, 0)), Direction::KAxesDigit);
    assert_eq!(_unitIjkToDigit(ijk(1, 1, 1)), Direction::CenterDigit);
    // no unit vectors
    assert_eq!(_unitIjkToDigit(ijk(2, 0, 0)), Direction::InvalidDigit);
    assert_eq!(_unitIjkToDigit(ijk(0, 1, 2)), Direction::InvalidDigit);
}

#[test]
fn digits_and_their_bits() {
    for bits in 0..8u64 {
        let digit = Direction::from_u64(bits).unwrap();
        assert_eq!(digit.bits() as u64, bits);
        assert_eq!(digit as u64, bits);
    }
    assert_eq!(Direction::from_u64(8), None);
    assert_eq!(Direction::from_u64(7), Some(Direction::InvalidDigit));
    assert_eq!(Direction::from_u64(u64::MAX), None);
    assert_eq!(Direction::NUM_DIGITS, Direction::InvalidDigit);
    assert_eq!(Direction::PENTAGON_SKIPPED_DIGIT, Direction::KAxesDigit);
}

#[test]
fn parents_and_children() {
    let mut c = ijk(0, 1911, 6094);
    _upAp7(&mut c);
    assert_eq!(c, ijk(52, 0, 2066));
    let mut c = ijk(0, 1911, 6094);
    _upAp7r(&mut c);
    assert_eq!(c, ijk(0, 1417, 2339));
    let mut c = ijk(7, 3, 0);
    _upAp7(&mut c);
    assert_eq!(c, ijk(3, 2, 0));
    let mut c = ijk(7, 3, 0);
    _upAp7r(&mut c);
    assert_eq!(c, ijk(2, 0, 0));
    let mut c = ijk(1, 2, 0);
    _downAp7(&mut c);
    assert_eq!(c, ijk(4, 5, 0));
    let mut c = ijk(1, 2, 0);
    _downAp7r(&mut c);
    assert_eq!(c, ijk(1, 5, 0));
    let mut c = ijk(0, -3, 5);
    _downAp7(&mut c);
    assert_eq!(c, ijk(1, 0, 19));
}

#[test]
fn the_parent_of_a_centre_child_is_the_parent() {
    for i in 0..6 {
        for j in 0..6 {
            let parent = {
                let mut p = ijk(i, j, 0);
                _ijkNormalize(&mut p);
                p
            };
            let mut c = parent;
            _downAp7(&mut c);
            for digit in MOVES {
                let mut n = c;
                _neighbor(&mut n, digit);
                _upAp7(&mut n);
                assert_eq!(n, parent);
            }
            _upAp7(&mut c);
            assert_eq!(c, parent);
            let mut c = parent;
            _downAp7r(&mut c);
            _upAp7r(&mut c);
            assert_eq!(c, parent);
        }
    }
}

#[test]
fn neighbours() {
    let mut c = ijk(3, 0, 2);
    _neighbor(&mut c, Direction::CenterDigit);
    assert_eq!(c, ijk(3, 0, 2));
    _neighbor(&mut c, Direction::InvalidDigit);
    assert_eq!(c, ijk(3, 0, 2));
    _neighbor(&mut c, Direction::JAxesDigit);
    assert_eq!(c, ijk(2, 0, 1));
    _neighbor(&mut c, Direction::IKAxesDigit);
    assert_eq!(c, ijk(3, 0, 2));
    _neighbor(&mut c, Direction::KAxesDigit);
    assert_eq!(c, ijk(3, 0, 3));
    // a coordinate that is not in normal form stays so without a move
    let mut c = ijk(4, 1, 3);
    _neighbor(&mut c, Direction::CenterDigit);
    assert_eq!(c, ijk(4, 1, 3));
}

#[test]
fn turning_coordinates() {
    let mut c = ijk(1, 2, 0);
    _ijkRotate60ccw(&mut c);
    assert_eq!(c, ijk(0, 2, 1));
    let mut c = ijk(1, 2, 0);
    _ijkRotate60cw(&mut c);
    assert_eq!(c, ijk(2, 1, 0));
    let mut c = ijk(-1, 4, 2);
    _ijkRotate60ccw(&mut c);
    assert_eq!(c, ijk(0, 2, 5));
    let mut c = ijk(-1, 4, 2);
    _ijkRotate60cw(&mut c);
    assert_eq!(c, ijk(2, 5, 0));
    let mut c = ijk(7, 0, 3);
    for _ in 0..6 {
        _ijkRotate60ccw(&mut c);
    }
    assert_eq!(c, ijk(7, 0, 3));
    _ijkRotate60ccw(&mut c);
    _ijkRotate60cw(&mut c);
    assert_eq!(c, ijk(7, 0, 3));
}

#[test]
fn turning_digits() {
    assert_eq!(_rotate60ccw(Direction::KAxesDigit), Direction::IKAxesDigit);
    assert_eq!(_rotate60ccw(Direction::IKAxesDigit), Direction::IAxesDigit);
    assert_eq!(_rotate60ccw(Direction::IAxesDigit), Direction::IJAxesDigit);
    assert_eq!(_rotate60ccw(Direction::IJAxesDigit), Direction::JAxesDigit);
    assert_eq!(_rotate60ccw(Direction::JAxesDigit), Direction::JKAxesDigit);
    assert_eq!(_rotate60ccw(Direction::JKAxesDigit), Direction::KAxesDigit);
    assert_eq!(_rotate60ccw(Direction::CenterDigit), Direction::CenterDigit);
    assert_eq!(_rotate60ccw(Direction::InvalidDigit), Direction::InvalidDigit);
    assert_eq!(_rotate60cw(Direction::KAxesDigit), Direction::JKAxesDigit);
    assert_eq!(_rotate60cw(Direction::CenterDigit), Direction::CenterDigit);
    assert_eq!(_rotate60cw(Direction::InvalidDigit), Direction::InvalidDigit);
    for digit in MOVES {
        assert_eq!(_rotate60cw(_rotate60ccw(digit)), digit);
        assert_eq!(_rotate60ccw(_rotate60cw(digit)), digit);
        // turning a digit turns its unit vector
        let mut unit = ijk(0, 0, 0);
        _neighbor(&mut unit, digit);
        _ijkRotate60ccw(&mut unit);
        assert_eq!(_unitIjkToDigit(unit), _rotate60ccw(digit));
    }
}

#[test]
fn folding_across_the_axes() {
    let mut c = ijk(3, 2, 9);
    _foldAcrossAxes(&mut c, false, false);
    assert_eq!(c, ijk(3, 2, 0));
    // mirrored at the j axis: i becomes j - i
    let mut c = ijk(3, 2, 0);
    _foldAcrossAxes(&mut c, true, false);
    assert_eq!(c, ijk(0, 3, 1));
    let mut c = ijk(3, 5, 0);
    _foldAcrossAxes(&mut c, true, false);
    assert_eq!(c, ijk(2, 5, 0));
    // mirrored at the i axis: i becomes i - j, and j its negative
    let mut c = ijk(3, 2, 0);
    _foldAcrossAxes(&mut c, false, true);
    assert_eq!(c, ijk(3, 0, 2));
    // both
    let mut c = ijk(3, 2, 0);
    _foldAcrossAxes(&mut c, true, true);
    assert_eq!(c, ijk(0, 1, 3));
    let mut c = ijk(0, 0, 0);
    _foldAcrossAxes(&mut c, true, true);
    assert_eq!(c, ijk(0, 0, 0));
}
