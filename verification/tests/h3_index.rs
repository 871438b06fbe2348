use h3grid::coord_ijk::{CoordIJK, Direction};
use h3grid::error::Error;
use h3grid::face_ijk::FaceIJK;
use h3grid::h3_index::{
    cellToChildren, cellToChildrenSize, childPosToCell, getResolution, isPentagon,
    isResolutionClassIII, isValidCell, setH3Index, validateChildPos, H3Index, _faceIjkToH3,
    _h3LeadingNonZeroDigit, _h3Rotate60ccw, _h3Rotate60cw, _h3RotatePent60ccw, _h3RotatePent60cw,
    _h3ToFaceIjk, _h3ToFaceIjkWithInitializedFijk, _hasChildAtRes, _zeroIndexDigits,
    H3_GET_BASE_CELL, H3_GET_HIGH_BIT, H3_GET_INDEX_DIGIT, H3_GET_MODE, H3_GET_RESERVED_BITS,
    H3_GET_RESOLUTION, H3_INIT, H3_SET_BASE_CELL, H3_SET_HIGH_BIT, H3_SET_INDEX_DIGIT,
    H3_SET_MODE, H3_SET_RESERVED_BITS, H3_SET_RESOLUTION,
};
use h3grid::iterators::IterCellsChildren;
use h3grid::H3_NULL;

const SF_RES9: H3Index = 0x89283080dcbffff;
const MAX_H3_RES: i32 = 15;

fn fijk(face: i32, i: i32, j: i32, k: i32) -> FaceIJK {
    FaceIJK { face, coord: CoordIJK { i, j, k } }
}

fn assertNoDuplicates(cells: &Vec<H3Index>) {
    for i in 0..cells.len() {
        if cells[i] == H3_NULL {
            continue;
        }
        assert!(isValidCell(cells[i]), "must be valid H3 cell");
        for j in (i + 1)..cells.len() {
            assert!(cells[i] != cells[j], "can't have duplicate cells in set");
        }
    }
}

// assert that set1 is a subset of set2
fn assertSubset(set1: &Vec<H3Index>, set2: &Vec<H3Index>) {
    assertNoDuplicates(set1);

    for i in set1 {
        if *i == H3_NULL {
            continue;
        }

        let mut present = false;
        for j in set2 {
            if *i == *j {
                present = true;
                break;
            };
        }
        assert!(present, "children must match");
    }
}

// Assert that two arrays of cells are equal sets: no duplicate cells
// allowed, zero elements and the order are ignored.
fn assertSetsEqual(set1: &Vec<H3Index>, set2: &Vec<H3Index>) {
    assertSubset(set1, set2);
    assertSubset(set2, set1);
}

fn checkChildren(h: H3Index, res: i32, expectedError: Result<i64, Error>, expected: Vec<H3Index>) {
    let numChildrenError = cellToChildrenSize(h, res);

    assert_eq!(numChildrenError, expectedError, "Expected error code");
    if expectedError.is_err() {
        return;
    }
    let children = cellToChildren(h, res).unwrap();

    assertSetsEqual(&children, &expected);
}

#[test]
fn latLngToCellExtremeCoordinates() {
    // Check that none of these cause crashes: the coordinates on their
    // faces of lat 0, lng 1E45 at resolution 14, of lat 1E46, lng 1E45 at
    // resolution 15, and of 2 degrees, -3E39 degrees at resolution 0.
    let h = _faceIjkToH3(&fijk(11, 929427, 758606, 0), 14);
    assert!(isValidCell(h));
    assert_eq!(h, 0x8e4752518851daf);

    let h2 = _faceIjkToH3(&fijk(1, 1451384, 0, 1107461), 15);
    assert!(isValidCell(h2));
    assert_eq!(h2, 0x8f00cba3595aa9e);

    let h4 = _faceIjkToH3(&fijk(12, 0, 1, 0), 0);
    assert!(isValidCell(h4));
    assert_eq!(h4, 0x8093fffffffffff);
}

#[test]
fn faceIjkToH3ExtremeCoordinates() {
    let fijk0I = FaceIJK { face: 0, coord: CoordIJK { i: 3, j: 0, k: 0 } };
    assert!(_faceIjkToH3(&fijk0I, 0) == 0, "i out of bounds at res 0");
    let fijk0J = FaceIJK { face: 1, coord: CoordIJK { i: 0, j: 4, k: 0 } };
    assert!(_faceIjkToH3(&fijk0J, 0) == 0, "j out of bounds at res 0");
    let fijk0K = FaceIJK { face: 2, coord: CoordIJK { i: 2, j: 0, k: 5 } };
    assert!(_faceIjkToH3(&fijk0K, 0) == 0, "k out of bounds at res 0");

    let fijk1I = FaceIJK { face: 3, coord: CoordIJK { i: 6, j: 0, k: 0 } };
    assert!(_faceIjkToH3(&fijk1I, 1) == 0, "i out of bounds at res 1");
    let fijk1J = FaceIJK { face: 4, coord: CoordIJK { i: 0, j: 7, k: 1 } };
    assert!(_faceIjkToH3(&fijk1J, 1) == 0, "j out of bounds at res 1");
    let fijk1K = FaceIJK { face: 5, coord: CoordIJK { i: 2, j: 0, k: 8 } };
    assert!(_faceIjkToH3(&fijk1K, 1) == 0, "k out of bounds at res 1");

    let fijk2I = FaceIJK { face: 6, coord: CoordIJK { i: 18, j: 0, k: 0 } };
    assert!(_faceIjkToH3(&fijk2I, 2) == 0, "i out of bounds at res 2");
    let fijk2J = FaceIJK { face: 7, coord: CoordIJK { i: 0, j: 19, k: 1 } };
    assert!(_faceIjkToH3(&fijk2J, 2) == 0, "j out of bounds at res 2");
    let fijk2K = FaceIJK { face: 8, coord: CoordIJK { i: 2, j: 0, k: 20 } };
    assert!(_faceIjkToH3(&fijk2K, 2) == 0, "k out of bounds at res 2");
}

#[test]
fn isValidCellAtResolution() {
    // the coordinates, on face 9, of lat 0, lng 0 at each resolution
    let coords: [(i32, i32, i32); 16] = [
        (0, 0, 2),
        (0, 2, 5),
        (0, 0, 11),
        (0, 12, 34),
        (0, 0, 79),
        (0, 81, 238),
        (0, 4, 556),
        (0, 564, 1663),
        (0, 27, 3889),
        (0, 3944, 11640),
        (0, 192, 27223),
        (0, 27606, 81476),
        (0, 1343, 190559),
        (0, 193246, 570333),
        (0, 9404, 1333912),
        (0, 1352720, 3992332),
    ];
    let cells: [H3Index; 16] = [
        0x8075fffffffffff,
        0x81757ffffffffff,
        0x82754ffffffffff,
        0x83754efffffffff,
        0x84754a9ffffffff,
        0x85754e67fffffff,
        0x86754e64fffffff,
        0x87754e64dffffff,
        0x88754e6499fffff,
        0x89754e64993ffff,
        0x8a754e64992ffff,
        0x8b754e649929fff,
        0x8c754e649929dff,
        0x8d754e64992d6ff,
        0x8e754e64992d6df,
        0x8f754e64992d6d8,
    ];
    for i in 0..(MAX_H3_RES + 1) {
        let (ci, cj, ck) = coords[i as usize];
        let h3: H3Index = _faceIjkToH3(&fijk(9, ci, cj, ck), i);
        assert!(isValidCell(h3), "isValidCell failed on resolution {}", i);
        assert_eq!(h3, cells[i as usize]);
        assert_eq!(getResolution(h3), i);
    }
}

#[test]
fn cellToChildrenSize_hexagon() {
    let h: H3Index = 0x87283080dffffff; // res 7 *hexagon*

    assert!(
        cellToChildrenSize(h, 3) == Err(Error::ResDomain),
        "got expected size for coarser res"
    );
    let mut sz: i64 = cellToChildrenSize(h, 7).unwrap();
    assert_eq!(sz, 1, "got expected size for same res");
    sz = cellToChildrenSize(h, 8).unwrap();
    assert_eq!(sz, 7, "got expected size for child res");
    sz = cellToChildrenSize(h, 9).unwrap();
    assert_eq!(sz, 7 * 7, "got expected size for grandchild res");
}

#[test]
fn cellToChildrenSize_pentagon() {
    let h: H3Index = 0x870800000ffffff; // res 7 *pentagon*

    assert!(
        cellToChildrenSize(h, 3) == Err(Error::ResDomain),
        "got expected size for coarser res"
    );
    let mut sz: i64 = cellToChildrenSize(h, 7).unwrap();
    assert_eq!(sz, 1, "got expected size for same res");
    sz = cellToChildrenSize(h, 8).unwrap();
    assert_eq!(sz, 6, "got expected size for child res");
    sz = cellToChildrenSize(h, 9).unwrap();
    assert_eq!(sz, (5 * 7) + (1 * 6), "got expected size for grandchild res");
}

#[test]
fn oneResStep() {
    let h: H3Index = 0x88283080ddfffff;
    let res = 9;

    let expected: Vec<H3Index> = vec![
        0x89283080dc3ffff,
        0x89283080dc7ffff,
        0x89283080dcbffff,
        0x89283080dcfffff,
        0x89283080dd3ffff,
        0x89283080dd7ffff,
        0x89283080ddbffff,
    ];

    checkChildren(h, res, Ok(expected.len() as i64), expected);
}

#[test]
fn multipleResSteps() {
    let h = 0x88283080ddfffff;
    let res = 10;

    let expected = vec![
        0x8a283080dd27fff,
        0x8a283080dd37fff,
        0x8a283080dc47fff,
        0x8a283080dcdffff,
        0x8a283080dc5ffff,
        0x8a283080dc27fff,
        0x8a283080ddb7fff,
        0x8a283080dc07fff,
        0x8a283080dd8ffff,
        0x8a283080dd5ffff,
        0x8a283080dc4ffff,
        0x8a283080dd47fff,
        0x8a283080dce7fff,
        0x8a283080dd1ffff,
        0x8a283080dceffff,
        0x8a283080dc6ffff,
        0x8a283080dc87fff,
        0x8a283080dcaffff,
        0x8a283080dd2ffff,
        0x8a283080dcd7fff,
        0x8a283080dd9ffff,
        0x8a283080dd6ffff,
        0x8a283080dcc7fff,
        0x8a283080dca7fff,
        0x8a283080dccffff,
        0x8a283080dd77fff,
        0x8a283080dc97fff,
        0x8a283080dd4ffff,
        0x8a283080dd97fff,
        0x8a283080dc37fff,
        0x8a283080dc8ffff,
        0x8a283080dcb7fff,
        0x8a283080dcf7fff,
        0x8a283080dd87fff,
        0x8a283080dda7fff,
        0x8a283080dc9ffff,
        0x8a283080dc77fff,
        0x8a283080dc67fff,
        0x8a283080dc57fff,
        0x8a283080ddaffff,
        0x8a283080dd17fff,
        0x8a283080dc17fff,
        0x8a283080dd57fff,
        0x8a283080dc0ffff,
        0x8a283080dd07fff,
        0x8a283080dc1ffff,
        0x8a283080dd0ffff,
        0x8a283080dc2ffff,
        0x8a283080dd67fff,
    ];

    checkChildren(h, res, Ok(expected.len() as i64), expected);
}

fn assertCellToFaceIjkExpected(h1: H3Index, expected: FaceIJK) {
    // find the face and the coordinate of the cell and verify
    let found = _h3ToFaceIjk(h1).unwrap();
    assert_eq!(found, expected, "got expected face and coordinate");

    // Convert back to H3 to verify
    let res = getResolution(h1);
    let h2 = _faceIjkToH3(&found, res);
    assert_eq!(h1, h2, "got expected cell back");
}

#[test]
fn provisionalCellToLatLngTest() {
    // the centres of these cells lie at 79.2423985098, 38.0234070080 degrees,
    // at 25.4691389839, -85.1593898623, at -35.9592925857, 84.9085000539 and
    // at 16.7016667635, 164.8158089958: on the faces and at the coordinates
    // given here
    assertCellToFaceIjkExpected(0x8001fffffffffff, fijk(1, 1, 0, 0));
    assertCellToFaceIjkExpected(0x8045fffffffffff, fijk(7, 0, 1, 0));
    assertCellToFaceIjkExpected(0x81ccbffffffffff, fijk(14, 0, 2, 2));
    assertCellToFaceIjkExpected(0x845a5ebffffffff, fijk(6, 49, 0, 19));
}

#[test]
fn projection_at_resolution_7() {
    // lat 74.883263 degrees, lng 341.40712 degrees lies at this coordinate
    // of face 2
    let h = _faceIjkToH3(&fijk(2, 1168, 0, 139), 7);
    assert_eq!(h, 0x8707ac082ffffff);
    assert!(isValidCell(h));
    assert_eq!(_h3ToFaceIjk(h), Ok(fijk(2, 1168, 0, 139)));
}

#[test]
fn projection_of_san_francisco() {
    assert_eq!(_faceIjkToH3(&fijk(7, 0, 0, 1), 0), 0x8029fffffffffff);
    assert_eq!(_faceIjkToH3(&fijk(7, 52, 0, 2066), 8), 0x88283080ddfffff);
    assert_eq!(_faceIjkToH3(&fijk(7, 0, 1911, 6094), 9), SF_RES9);
    assert_eq!(_h3ToFaceIjk(SF_RES9), Ok(fijk(7, 0, 1911, 6094)));
}

#[test]
fn face_coordinates_of_pentagons() {
    assert_eq!(_h3ToFaceIjk(0x870800000ffffff), Ok(fijk(0, 2058, 0, 686)));
    assert_eq!(_faceIjkToH3(&fijk(0, 2058, 0, 686), 7), 0x870800000ffffff);
    assert_eq!(_h3ToFaceIjk(0x8009fffffffffff), Ok(fijk(0, 2, 0, 0)));
    assert_eq!(_faceIjkToH3(&fijk(0, 2, 0, 0), 0), 0x8009fffffffffff);
}

#[test]
fn face_coordinate_of_no_cell() {
    // base cell 122 is none
    assert_eq!(_h3ToFaceIjk(0x89f43080dcbffff), Err(Error::CellInvalid));
}

#[test]
fn digits_followed_down_from_the_home() {
    let mut at = fijk(7, 0, 0, 1);
    // base cell 20 is a hexagon away from the centre of its face
    assert!(_h3ToFaceIjkWithInitializedFijk(SF_RES9, &mut at));
    assert_eq!(at, fijk(7, 0, 1911, 6094));
    let mut centre = fijk(1, 0, 0, 0);
    assert!(!_h3ToFaceIjkWithInitializedFijk(0x8005fffffffffff, &mut centre));
    assert_eq!(centre, fijk(1, 0, 0, 0));
}

#[test]
fn fields_of_an_index() {
    assert_eq!(H3_GET_HIGH_BIT(SF_RES9), 0);
    assert_eq!(H3_GET_MODE(SF_RES9), 1);
    assert_eq!(H3_GET_RESERVED_BITS(SF_RES9), 0);
    assert_eq!(H3_GET_RESOLUTION(SF_RES9), 9);
    assert_eq!(getResolution(SF_RES9), 9);
    assert_eq!(H3_GET_BASE_CELL(SF_RES9), 20);
    let digits = [0, 6, 0, 4, 0, 1, 5, 6, 2, 7, 7, 7, 7, 7, 7];
    for r in 1..16 {
        assert_eq!(H3_GET_INDEX_DIGIT(SF_RES9, r) as i32, digits[r as usize - 1]);
    }
    assert_eq!(H3_GET_HIGH_BIT(0x889283080dcbffff), 1);
    assert_eq!(H3_GET_MODE(0xffffffffffffffff), 15);
    assert_eq!(H3_GET_BASE_CELL(0xffffffffffffffff), 127);
    assert_eq!(H3_GET_RESOLUTION(0xffffffffffffffff), 15);
    assert_eq!(H3_GET_RESERVED_BITS(0xffffffffffffffff), 7);
    assert_eq!(H3_GET_INDEX_DIGIT(0, 1), Direction::CenterDigit);
}

#[test]
fn setting_the_fields_of_an_index() {
    let mut h = SF_RES9;
    H3_SET_INDEX_DIGIT(&mut h, 9, 0);
    assert_eq!(h, 0x89283080dc3ffff);
    let mut h = SF_RES9;
    H3_SET_BASE_CELL(&mut h, 5);
    assert_eq!(h, 0x890a3080dcbffff);
    let mut h = SF_RES9;
    H3_SET_RESOLUTION(&mut h, 3);
    assert_eq!(h, 0x83283080dcbffff);
    let mut h = SF_RES9;
    H3_SET_MODE(&mut h, 2);
    assert_eq!(h, 0x109283080dcbffff);
    let mut h = SF_RES9;
    H3_SET_RESERVED_BITS(&mut h, 5);
    assert_eq!(h, 0xd9283080dcbffff);
    let mut h = SF_RES9;
    H3_SET_HIGH_BIT(&mut h, 1);
    assert_eq!(h, 0x889283080dcbffff);
    H3_SET_HIGH_BIT(&mut h, 0);
    assert_eq!(h, SF_RES9);
}

#[test]
fn set_h3_index() {
    let mut h: H3Index = 0;
    setH3Index(&mut h, 5, 12, 3);
    assert_eq!(h, 0x8518db6ffffffff);
    assert!(isValidCell(h));
    setH3Index(&mut h, 0, 0, 0);
    assert_eq!(h, 0x8001fffffffffff);
    setH3Index(&mut h, 15, 121, 6);
    assert_eq!(h, 0x8ff3b6db6db6db6);
    assert_eq!(H3_INIT, 0x1fffffffffff);
}

#[test]
fn valid_and_invalid_cells() {
    assert!(isValidCell(SF_RES9));
    assert!(isValidCell(0x870800000ffffff));
    assert!(!isValidCell(0));
    // the highest bit
    assert!(!isValidCell(0x889283080dcbffff));
    // the mode of an edge
    assert!(!isValidCell(0x109283080dcbffff));
    // reserved bits
    assert!(!isValidCell(0xd9283080dcbffff));
    // base cell 122
    assert!(!isValidCell(0x89f43080dcbffff));
    // an unused digit within the resolution
    assert!(!isValidCell(0x89283080dffffff));
    // a digit beyond the resolution
    assert!(!isValidCell(0x89283080dcb7fff));
    // in a pentagon's base cell the first move is not along k
    let mut h: H3Index = 0;
    setH3Index(&mut h, 2, 4, 0);
    assert!(isValidCell(h));
    H3_SET_INDEX_DIGIT(&mut h, 2, 1);
    assert!(!isValidCell(h));
    H3_SET_INDEX_DIGIT(&mut h, 1, 2);
    assert!(isValidCell(h));
    // in a hexagon's base cell it may be
    let mut h: H3Index = 0;
    setH3Index(&mut h, 2, 5, 0);
    H3_SET_INDEX_DIGIT(&mut h, 2, 1);
    assert!(isValidCell(h));
}

#[test]
fn digits_beyond_the_resolution_are_unused() {
    for cell in [SF_RES9, 0x8707ac082ffffff, 0x8001fffffffffff, 0x8f754e64992d6d8] {
        assert!(isValidCell(cell));
        let res = getResolution(cell);
        for r in 1..16 {
            let digit = H3_GET_INDEX_DIGIT(cell, r);
            if r > res {
                assert_eq!(digit, Direction::InvalidDigit);
            } else {
                assert!(digit != Direction::InvalidDigit);
            }
        }
    }
}

#[test]
fn pentagons() {
    assert!(isPentagon(0x870800000ffffff));
    assert!(isPentagon(0x8009fffffffffff));
    assert!(!isPentagon(0x8908000001bffff));
    assert!(!isPentagon(SF_RES9));
    assert!(!isPentagon(0x8001fffffffffff));
}

#[test]
fn resolution_classes() {
    for res in 0..16 {
        assert_eq!(isResolutionClassIII(res), res % 2 == 1);
    }
}

#[test]
fn leading_digits() {
    assert_eq!(_h3LeadingNonZeroDigit(SF_RES9), Direction::IJAxesDigit);
    assert_eq!(_h3LeadingNonZeroDigit(0x870800000ffffff), Direction::CenterDigit);
    assert_eq!(_h3LeadingNonZeroDigit(0x8508000bfffffff), Direction::JAxesDigit);
    assert_eq!(_h3LeadingNonZeroDigit(0x82081ffffffffff), Direction::JKAxesDigit);
    assert_eq!(_h3LeadingNonZeroDigit(0x8001fffffffffff), Direction::CenterDigit);
}

#[test]
fn turning_an_index() {
    assert_eq!(_h3Rotate60ccw(SF_RES9), 0x892810c2c4fffff);
    assert_eq!(_h3Rotate60cw(SF_RES9), 0x892820a199bffff);
    assert_eq!(_h3Rotate60ccw(_h3Rotate60ccw(SF_RES9)), 0x89281842667ffff);
    assert_eq!(_h3Rotate60cw(_h3Rotate60ccw(SF_RES9)), SF_RES9);
    let mut h = SF_RES9;
    for _ in 0..6 {
        h = _h3Rotate60ccw(h);
    }
    assert_eq!(h, SF_RES9);
    assert_eq!(_h3Rotate60ccw(0x8001fffffffffff), 0x8001fffffffffff);
}

#[test]
fn turning_an_index_about_a_pentagon() {
    assert_eq!(_h3RotatePent60ccw(0x8508000bfffffff), 0x8508000ffffffff);
    assert_eq!(_h3RotatePent60cw(0x8508000bfffffff), 0x8508001bfffffff);
    // the first move would come to lie on the deleted axis: turned twice
    assert_eq!(_h3RotatePent60ccw(0x82081ffffffffff), 0x82082ffffffffff);
    assert_eq!(_h3Rotate60ccw(0x82081ffffffffff), 0x82080ffffffffff);
    assert_eq!(_h3RotatePent60cw(0x82081ffffffffff), 0x820817fffffffff);
    let mut h = 0x8508000bfffffff;
    for _ in 0..5 {
        h = _h3RotatePent60ccw(h);
    }
    assert_eq!(h, 0x8508000bfffffff);
}

#[test]
fn zeroing_digits() {
    assert_eq!(_zeroIndexDigits(SF_RES9, 8, 9), 0x89283080d03ffff);
    assert_eq!(_zeroIndexDigits(SF_RES9, 1, 15), 0x892800000000000);
    assert_eq!(_zeroIndexDigits(SF_RES9, 4, 12), 0x8928300000001ff);
    assert_eq!(_zeroIndexDigits(SF_RES9, 9, 8), SF_RES9);
    assert_eq!(_zeroIndexDigits(SF_RES9, 15, 15), 0x89283080dcbfff8);
}

#[test]
fn child_resolutions() {
    assert!(_hasChildAtRes(SF_RES9, 9));
    assert!(_hasChildAtRes(SF_RES9, 15));
    assert!(!_hasChildAtRes(SF_RES9, 8));
    assert!(!_hasChildAtRes(SF_RES9, 16));
    assert!(!_hasChildAtRes(SF_RES9, -1));
}

#[test]
fn children_sizes_are_powers_of_seven() {
    let hexagon: H3Index = 0x8001fffffffffff;
    let pentagon: H3Index = 0x8009fffffffffff;
    let mut power: i64 = 1;
    for res in 0..16 {
        assert_eq!(cellToChildrenSize(hexagon, res), Ok(power));
        assert_eq!(cellToChildrenSize(pentagon, res), Ok(1 + 5 * (power - 1) / 6));
        power *= 7;
    }
    assert_eq!(cellToChildrenSize(hexagon, 15), Ok(4747561509943));
    assert_eq!(cellToChildrenSize(pentagon, 15), Ok(3956301258286));
    assert_eq!(cellToChildrenSize(hexagon, 16), Err(Error::ResDomain));
    assert_eq!(cellToChildrenSize(hexagon, -1), Err(Error::ResDomain));
}

#[test]
fn children_are_as_many_as_their_size_says() {
    for (parent, res) in [
        (0x88283080ddfffff, 8),
        (0x88283080ddfffff, 9),
        (0x88283080ddfffff, 11),
        (0x870800000ffffff, 7),
        (0x870800000ffffff, 8),
        (0x870800000ffffff, 10),
        (0x8009fffffffffff, 3),
        (0x8001fffffffffff, 3),
    ] {
        let size = cellToChildrenSize(parent, res).unwrap();
        let children = cellToChildren(parent, res).unwrap();
        assert_eq!(children.len() as i64, size);
        assertNoDuplicates(&children);
        for pos in 0..size {
            assert_eq!(childPosToCell(pos, parent, res), Ok(children[pos as usize]));
        }
    }
}

#[test]
fn children_of_a_pentagon_skip_the_deleted_axis() {
    let expected: Vec<H3Index> = vec![
        0x8808000001fffff,
        0x8808000005fffff,
        0x8808000007fffff,
        0x8808000009fffff,
        0x880800000bfffff,
        0x880800000dfffff,
    ];
    assert_eq!(cellToChildren(0x870800000ffffff, 8), Ok(expected));
    let grandchildren = cellToChildren(0x870800000ffffff, 9).unwrap();
    assert_eq!(grandchildren.len(), 41);
    assert_eq!(grandchildren[0], 0x89080000003ffff);
    assert_eq!(grandchildren[5], 0x8908000001bffff);
    assert_eq!(grandchildren[6], 0x89080000043ffff);
    assert_eq!(grandchildren[40], 0x890800000dbffff);
}

#[test]
fn children_at_no_resolution() {
    assert_eq!(cellToChildren(SF_RES9, 8), Err(Error::ResDomain));
    assert_eq!(cellToChildren(SF_RES9, 16), Err(Error::ResDomain));
    assert_eq!(cellToChildren(SF_RES9, 9), Ok(vec![SF_RES9]));
    assert_eq!(cellToChildren(H3_NULL, 1), Ok(vec![]));
}

#[test]
fn walk_through_children() {
    let mut walk = IterCellsChildren::from_parent(0x88283080ddfffff, 9);
    let mut seen: Vec<H3Index> = Vec::new();
    while let Some(child) = walk.next() {
        seen.push(child);
    }
    assert_eq!(seen.len(), 7);
    assert_eq!(seen[2], SF_RES9);
    assert_eq!(walk.next(), None);
    assert_eq!(walk.h, H3_NULL);

    let mut none = IterCellsChildren::from_parent(0x88283080ddfffff, 7);
    assert_eq!(none.next(), None);
    let mut null = IterCellsChildren::_null_iter();
    assert_eq!(null.next(), None);

    let mut walk = IterCellsChildren::from_parent(0x88283080ddfffff, 9);
    assert_eq!(walk._getResDigit(9), Direction::CenterDigit);
    walk._incrementResDigit(9);
    assert_eq!(walk._getResDigit(9), Direction::KAxesDigit);
    assert_eq!(walk.h, 0x89283080dc7ffff);
}

#[test]
fn child_positions() {
    let parent: H3Index = 0x88283080ddfffff;
    assert_eq!(childPosToCell(0, parent, 10), Ok(0x8a283080dc07fff));
    assert_eq!(childPosToCell(10, parent, 10), Ok(0x8a283080dc5ffff));
    assert_eq!(childPosToCell(48, parent, 10), Ok(0x8a283080ddb7fff));
    assert_eq!(childPosToCell(0, parent, 8), Ok(parent));
    let pentagon: H3Index = 0x870800000ffffff;
    assert_eq!(childPosToCell(0, pentagon, 9), Ok(0x89080000003ffff));
    assert_eq!(childPosToCell(5, pentagon, 9), Ok(0x8908000001bffff));
    assert_eq!(childPosToCell(6, pentagon, 9), Ok(0x89080000043ffff));
    assert_eq!(childPosToCell(40, pentagon, 9), Ok(0x890800000dbffff));
}

#[test]
fn child_positions_that_are_none() {
    let parent: H3Index = 0x88283080ddfffff;
    assert_eq!(childPosToCell(0, parent, 16), Err(Error::ResDomain));
    assert_eq!(childPosToCell(0, parent, -1), Err(Error::ResDomain));
    assert_eq!(childPosToCell(0, parent, 7), Err(Error::ResMismatch));
    assert_eq!(childPosToCell(-1, parent, 9), Err(Error::Domain));
    assert_eq!(childPosToCell(7, parent, 9), Err(Error::Domain));
    assert_eq!(childPosToCell(41, 0x870800000ffffff, 9), Err(Error::Domain));
    assert_eq!(validateChildPos(6, parent, 9), Ok(()));
    assert_eq!(validateChildPos(7, parent, 9), Err(Error::Domain));
    assert_eq!(validateChildPos(0, parent, 7), Err(Error::ResDomain));
}

#[test]
fn children_of_cells_are_cells() {
    for (parent, res) in [(0x88283080ddfffff, 10), (0x870800000ffffff, 9), (0x8009fffffffffff, 2)] {
        for child in cellToChildren(parent, res).unwrap() {
            assert!(isValidCell(child));
            assert_eq!(getResolution(child), res);
            assert_eq!(H3_GET_BASE_CELL(child), H3_GET_BASE_CELL(parent));
        }
    }
}

#[test]
fn cells_on_their_faces() {
    for cell in [SF_RES9, 0x870800000ffffff, 0x8f754e64992d6d8, 0x8908000001bffff, 0x8009fffffffffff] {
        let at = _h3ToFaceIjk(cell).unwrap();
        assert!(0 <= at.face && at.face < 20);
        let c = at.coord;
        assert!(c.i >= 0 && c.j >= 0 && c.k >= 0 && (c.i == 0 || c.j == 0 || c.k == 0));
        assert_eq!(_faceIjkToH3(&at, getResolution(cell)), cell);
    }
}

#[test]
fn every_coarse_cell_is_found_where_it_lies() {
    let mut cells = 0;
    for base in h3grid::base_cells::getRes0Cells().unwrap() {
        for res in 0..3 {
            for cell in cellToChildren(base, res).unwrap() {
                let at = _h3ToFaceIjk(cell).unwrap();
                assert_eq!(_faceIjkToH3(&at, res), cell);
                cells += 1;
            }
        }
    }
    assert_eq!(cells, 122 + 842 + 5882);
}
