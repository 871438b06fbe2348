use h3grid::base_cells::{
    _baseCellIsCwOffset, _faceIjkToBaseCell, _faceIjkToBaseCellCCWrot60, _isBaseCellPentagon,
    _isBaseCellPolarPentagon, baseCellData, faceIjkBaseCells, res0CellCount, BaseCellOrient,
};
use h3grid::base_cells::homes::homeFijk;
use h3grid::base_cells::neighbor_rotations::baseCellNeighbor60CCWRots;
use h3grid::base_cells::neighbors::baseCellNeighbors;
use h3grid::coord_ijk::CoordIJK;
use h3grid::face_ijk::FaceIJK;
use h3grid::h3_index::{isPentagon, isValidCell};

#[test]
fn getRes0Cells() {
    let count = res0CellCount();
    assert_eq!(count, 122);
    let indexes = h3grid::base_cells::getRes0Cells().unwrap();
    assert_eq!(indexes[0], 0x8001fffffffffff, "correct first basecell");
    assert_eq!(indexes[121], 0x80f3fffffffffff, "correct last basecell");
}

#[test]
fn res0_cells_are_valid_and_twelve_are_pentagons() {
    let indexes = h3grid::base_cells::getRes0Cells().unwrap();
    assert_eq!(indexes.len(), 122);
    let mut pentagons = 0;
    for h in indexes.iter() {
        assert!(isValidCell(*h));
        if isPentagon(*h) {
            pentagons += 1;
        }
    }
    assert_eq!(pentagons, 12);
}

#[test]
fn pentagon_base_cells() {
    let expected = [4, 14, 24, 38, 49, 58, 63, 72, 83, 97, 107, 117];
    for bc in -3..130 {
        assert_eq!(_isBaseCellPentagon(bc), expected.contains(&bc), "base cell {}", bc);
        assert_eq!(_isBaseCellPolarPentagon(bc), bc == 4 || bc == 117);
    }
}

#[test]
fn face_lookup() {
    let origin = FaceIJK { face: 0, coord: CoordIJK { i: 0, j: 0, k: 0 } };
    assert_eq!(_faceIjkToBaseCell(&origin), 16);
    assert_eq!(_faceIjkToBaseCellCCWrot60(&origin), 0);
    let corner = FaceIJK { face: 0, coord: CoordIJK { i: 0, j: 1, k: 2 } };
    assert_eq!(_faceIjkToBaseCell(&corner), 32);
    assert_eq!(_faceIjkToBaseCellCCWrot60(&corner), 3);
    let other = FaceIJK { face: 1, coord: CoordIJK { i: 2, j: 0, k: 0 } };
    assert_eq!(_faceIjkToBaseCell(&other), 4);
    assert_eq!(faceIjkBaseCells(&corner), BaseCellOrient { baseCell: 32, ccwRot60: 3 });
}

#[test]
fn base_cell_data() {
    let polar = baseCellData(4);
    assert_eq!(polar.homeFijk, FaceIJK { face: 0, coord: CoordIJK { i: 2, j: 0, k: 0 } });
    assert_eq!(polar.isPentagon, 1);
    assert_eq!(polar.cwOffsetPent, [-1, -1]);
    let pent = baseCellData(14);
    assert_eq!(pent.isPentagon, 1);
    assert_eq!(pent.cwOffsetPent, [2, 6]);
    let hexagon = baseCellData(121);
    assert_eq!(hexagon.homeFijk, FaceIJK { face: 18, coord: CoordIJK { i: 1, j: 0, k: 0 } });
    assert_eq!(hexagon.isPentagon, 0);
    assert_eq!(homeFijk(120), FaceIJK { face: 19, coord: CoordIJK { i: 1, j: 0, k: 1 } });
}

#[test]
fn cw_offset_faces() {
    assert!(_baseCellIsCwOffset(14, 2));
    assert!(_baseCellIsCwOffset(14, 6));
    assert!(!_baseCellIsCwOffset(14, 3));
    assert!(!_baseCellIsCwOffset(4, 0));
}

#[test]
fn base_cell_neighbors() {
    for bc in 0..122 {
        assert_eq!(baseCellNeighbors(bc, 0), bc);
        for dir in 0..7usize {
            let missing = _isBaseCellPentagon(bc) && dir == 1;
            assert_eq!(baseCellNeighbors(bc, dir) == 127, missing);
            assert_eq!(baseCellNeighbor60CCWRots(bc, dir) == -1, missing);
        }
    }
    assert_eq!(baseCellNeighbors(4, 2), 15);
    assert_eq!(baseCellNeighbor60CCWRots(4, 2), 1);
}
