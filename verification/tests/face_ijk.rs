use h3grid::coord_ijk::CoordIJK;
use h3grid::face_ijk::neighbors::faceNeighbor;
use h3grid::face_ijk::{FaceIJK, FaceOrientIJK, Overage, _adjustOverageClassII, IJ, JK, KI};

fn fijk(face: i32, i: i32, j: i32, k: i32) -> FaceIJK {
    FaceIJK { face, coord: CoordIJK { i, j, k } }
}

fn adjusted(at: FaceIJK, res: i32, pentLeading4: bool, substrate: bool) -> (Overage, FaceIJK) {
    let mut at = at;
    let overage = _adjustOverageClassII(&mut at, res, pentLeading4, substrate);
    (overage, at)
}

#[test]
fn neighbours_of_faces() {
    assert_eq!(
        faceNeighbor(0, 0),
        FaceOrientIJK { face: 0, translate: CoordIJK { i: 0, j: 0, k: 0 }, ccwRot60: 0 }
    );
    assert_eq!(
        faceNeighbor(0, IJ),
        FaceOrientIJK { face: 4, translate: CoordIJK { i: 2, j: 0, k: 2 }, ccwRot60: 1 }
    );
    assert_eq!(
        faceNeighbor(0, KI),
        FaceOrientIJK { face: 1, translate: CoordIJK { i: 2, j: 2, k: 0 }, ccwRot60: 5 }
    );
    assert_eq!(
        faceNeighbor(0, JK),
        FaceOrientIJK { face: 5, translate: CoordIJK { i: 0, j: 2, k: 2 }, ccwRot60: 3 }
    );
}

#[test]
fn no_overage() {
    assert_eq!(adjusted(fijk(7, 0, 1911, 6094), 10, false, false), (Overage::NoOverage, fijk(7, 0, 1911, 6094)));
    assert_eq!(adjusted(fijk(0, 14, 0, 0), 2, false, false), (Overage::NoOverage, fijk(0, 14, 0, 0)));
    assert_eq!(adjusted(fijk(4, 2, 0, 0), 0, false, true), (Overage::NoOverage, fijk(4, 2, 0, 0)));
    assert_eq!(adjusted(fijk(4, 1, 1, 0), 2, false, false), (Overage::NoOverage, fijk(4, 1, 1, 0)));
}

#[test]
fn overage_in_each_quadrant() {
    // ij
    assert_eq!(adjusted(fijk(1, 3, 0, 0), 0, false, false), (Overage::NewFace, fijk(0, 3, 1, 0)));
    assert_eq!(adjusted(fijk(1, 0, 3, 0), 0, false, false), (Overage::NewFace, fijk(0, 0, 1, 3)));
    // jk
    assert_eq!(adjusted(fijk(1, 0, 2, 2), 0, false, false), (Overage::NewFace, fijk(6, 0, 0, 0)));
    assert_eq!(adjusted(fijk(0, 0, 7, 8), 2, false, false), (Overage::NewFace, fijk(5, 0, 7, 6)));
    // ki
    assert_eq!(adjusted(fijk(7, 0, 15, 1), 2, false, false), (Overage::NewFace, fijk(2, 1, 0, 14)));
    assert_eq!(adjusted(fijk(0, 8, 0, 7), 2, false, false), (Overage::NewFace, fijk(1, 7, 6, 0)));
}

#[test]
fn overage_of_a_pentagon_with_leading_digit_4() {
    assert_eq!(adjusted(fijk(1, 1, 0, 2), 0, true, false), (Overage::NewFace, fijk(2, 3, 3, 0)));
    assert_eq!(adjusted(fijk(4, 15, 0, 1), 2, true, false), (Overage::NewFace, fijk(0, 13, 0, 0)));
    assert_eq!(adjusted(fijk(0, 8, 0, 7), 2, true, false), (Overage::NewFace, fijk(1, 20, 13, 0)));
}

#[test]
fn overage_on_substrate_grids() {
    assert_eq!(adjusted(fijk(0, 6, 0, 0), 2, false, true), (Overage::NoOverage, fijk(0, 6, 0, 0)));
    assert_eq!(adjusted(fijk(0, 42, 0, 0), 2, false, true), (Overage::FaceEdge, fijk(0, 42, 0, 0)));
    assert_eq!(adjusted(fijk(0, 20, 22, 0), 2, false, true), (Overage::FaceEdge, fijk(0, 20, 22, 0)));
    assert_eq!(adjusted(fijk(0, 43, 0, 0), 2, false, true), (Overage::NewFace, fijk(4, 43, 1, 0)));
    assert_eq!(adjusted(fijk(3, 40, 3, 0), 2, false, true), (Overage::NewFace, fijk(2, 39, 0, 2)));
    assert_eq!(adjusted(fijk(4, 6, 0, 0), 0, false, true), (Overage::FaceEdge, fijk(4, 6, 0, 0)));
}
