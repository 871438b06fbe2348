use h3grid::algos::gridRingUnsafe;
use h3grid::constants::H3_DIRECTEDEDGE_MODE;
use h3grid::coord_ijk::Direction;
use h3grid::directed_edge::{
    cellsToDirectedEdge, directedEdgeToCells, getDirectedEdgeDestination, getDirectedEdgeOrigin,
    isValidDirectedEdge,
};
use h3grid::error::Error;
use h3grid::h3_index::{
    isValidCell, setH3Index, H3Index, H3_GET_MODE, H3_GET_RESERVED_BITS, H3_SET_MODE,
    H3_SET_RESERVED_BITS,
};

// the cell of resolution 9 around lat 0.659966917655, lng -2.1364398519396
const SF_RES9: H3Index = 0x89283080dcbffff;

#[test]
fn cellsToDirectedEdgeAndFriends() {
    let sf: H3Index = SF_RES9;
    let ring = gridRingUnsafe(sf, 1).unwrap();
    let sf2 = ring[0];

    let edge = cellsToDirectedEdge(sf, sf2).unwrap();
    let edgeOrigin: H3Index = getDirectedEdgeOrigin(edge).unwrap();
    assert_eq!(sf, edgeOrigin, "can retrieve the origin from the edge");
    let edgeDestination: H3Index = getDirectedEdgeDestination(edge).unwrap();
    assert_eq!(sf2, edgeDestination, "can retrieve the destination from the edge");

    let originDestination = directedEdgeToCells(edge).unwrap();

    assert_eq!(originDestination.0, sf, "got the origin first in the pair request");
    assert_eq!(originDestination.1, sf2, "got the destination last in the pair request");

    assert_eq!(
        directedEdgeToCells(0),
        Err(Error::DirectedEdgeInvalid),
        "directedEdgeToCells fails for invalid edges"
    );

    let mut invalidEdge = 0;
    setH3Index(&mut invalidEdge, 1, 4, 0);
    H3_SET_RESERVED_BITS(&mut invalidEdge, Direction::InvalidDigit as i32);
    H3_SET_MODE(&mut invalidEdge, H3_DIRECTEDEDGE_MODE);
    assert!(
        directedEdgeToCells(invalidEdge).is_err(),
        "directedEdgeToCells fails for invalid edges"
    );

    let largerRing = gridRingUnsafe(sf, 2).unwrap();
    let sf3 = largerRing[0];

    assert_eq!(
        cellsToDirectedEdge(sf, sf3),
        Err(Error::NotNeighbors),
        "Non-neighbors can't have edges"
    );
}

#[test]
fn originToDirectedEdges() {
    let sf = SF_RES9;
    let edges = h3grid::directed_edge::originToDirectedEdges(sf);

    for i in 0..6 {
        assert!(isValidDirectedEdge(edges[i]), "edge is an edge");
        let origin = getDirectedEdgeOrigin(edges[i]).unwrap();
        assert!(sf == origin, "origin is correct");
        let destination = getDirectedEdgeDestination(edges[i]).unwrap();
        assert!(sf != destination, "destination is not origin");
    }
}

#[test]
fn edge_holds_the_direction_in_its_reserved_bits() {
    let edge = cellsToDirectedEdge(SF_RES9, 0x89283080c27ffff).unwrap();
    assert_eq!(edge, 0x129283080dcbffff);
    assert_eq!(H3_GET_MODE(edge), 2);
    assert_eq!(H3_GET_RESERVED_BITS(edge), 2);
    assert!(isValidDirectedEdge(edge));
    assert!(!isValidCell(edge));
}

#[test]
fn edges_to_all_neighbours_lead_back_and_forth() {
    let ring = gridRingUnsafe(SF_RES9, 1).unwrap();
    for neighbour in ring {
        let edge = cellsToDirectedEdge(SF_RES9, neighbour).unwrap();
        assert_eq!(getDirectedEdgeOrigin(edge), Ok(SF_RES9));
        assert_eq!(getDirectedEdgeDestination(edge), Ok(neighbour));
        assert_eq!(directedEdgeToCells(edge), Ok((SF_RES9, neighbour)));
        let back = cellsToDirectedEdge(neighbour, SF_RES9).unwrap();
        assert_eq!(directedEdgeToCells(back), Ok((neighbour, SF_RES9)));
    }
}

#[test]
fn a_pentagon_has_five_edges() {
    let pentagon: H3Index = 0x870800000ffffff;
    let edges = h3grid::directed_edge::originToDirectedEdges(pentagon);
    assert_eq!(edges[0], 0);
    assert!(!isValidDirectedEdge(edges[0]));
    for i in 1..6 {
        assert!(isValidDirectedEdge(edges[i]));
        assert_eq!(getDirectedEdgeOrigin(edges[i]), Ok(pentagon));
        assert_eq!(H3_GET_RESERVED_BITS(edges[i]), i as i32 + 1);
    }
    assert_eq!(getDirectedEdgeDestination(edges[1]), Ok(0x870800002ffffff));
}

#[test]
fn invalid_edges() {
    assert!(!isValidDirectedEdge(0));
    // a cell is no edge
    assert!(!isValidDirectedEdge(SF_RES9));
    // direction 0 and direction 7
    let mut edge = SF_RES9;
    H3_SET_MODE(&mut edge, H3_DIRECTEDEDGE_MODE);
    assert!(!isValidDirectedEdge(edge));
    H3_SET_RESERVED_BITS(&mut edge, 7);
    assert!(!isValidDirectedEdge(edge));
    assert_eq!(getDirectedEdgeDestination(edge), Err(Error::Failed));
    // a pentagon has no edge along its deleted axis
    let mut edge: H3Index = 0x870800000ffffff;
    H3_SET_MODE(&mut edge, H3_DIRECTEDEDGE_MODE);
    H3_SET_RESERVED_BITS(&mut edge, 1);
    assert!(!isValidDirectedEdge(edge));
    assert_eq!(getDirectedEdgeDestination(edge), Err(Error::Pentagon));
    // the origin is no cell
    let mut edge: H3Index = 0x89283080ddfffff;
    H3_SET_MODE(&mut edge, H3_DIRECTEDEDGE_MODE);
    H3_SET_RESERVED_BITS(&mut edge, 2);
    assert!(!isValidDirectedEdge(edge));
    assert_eq!(getDirectedEdgeOrigin(SF_RES9), Err(Error::DirectedEdgeInvalid));
    assert_eq!(getDirectedEdgeDestination(SF_RES9), Err(Error::DirectedEdgeInvalid));
}
