use vstd::prelude::*;
use crate::algos::{
    directionForNeighbor, direction_for_neighbor, h3NeighborRotations, h3_neighbor_rotations,
    is_neighbor_in, lemma_direction_for_neighbor_from,
};
use crate::constants::{H3_CELL_MODE, H3_DIRECTEDEDGE_MODE};
use crate::coord_ijk::Direction;
use crate::error::Error;
use crate::h3_index::{
    H3Index, H3_GET_MODE, H3_GET_RESERVED_BITS, H3_SET_MODE, H3_SET_RESERVED_BITS, isPentagon,
    isValidCell, is_pentagon, is_valid_cell, mode, reserved_bits, with_mode, with_reserved_bits,
};
use crate::H3_NULL;

verus! {

/// The directed edge that leaves a cell in a direction: the index of the
/// cell with the mode of a directed edge, and the direction in its reserved
/// bits.
pub open spec fn directed_edge(origin: u64, dir: Direction) -> u64 {
    with_reserved_bits(with_mode(origin, 2), dir.value() as u64)
}

/// The cell that a directed edge leaves: the index of the edge with the
/// mode of a cell and its reserved bits cleared.
pub open spec fn edge_origin(edge: u64) -> u64 {
    with_reserved_bits(with_mode(edge, 1), 0)
}

/// The direction in which a directed edge leaves its cell.
pub open spec fn edge_direction(edge: u64) -> Direction {
    Direction::of(reserved_bits(edge) as int)
}

/// The directed edge from a cell to one of its neighbours; there is none
/// between cells that are no neighbours.
pub open spec fn cells_to_directed_edge(origin: u64, destination: u64) -> Result<u64, Error> {
    if direction_for_neighbor(origin, destination) == Direction::InvalidDigit {
        Err(Error::NotNeighbors)
    } else {
        Ok(directed_edge(origin, direction_for_neighbor(origin, destination)))
    }
}

/// The cell that a directed edge leaves; an index of another mode is no
/// directed edge.
pub open spec fn get_directed_edge_origin(edge: u64) -> Result<u64, Error> {
    if mode(edge) != 2 {
        Err(Error::DirectedEdgeInvalid)
    } else {
        Ok(edge_origin(edge))
    }
}

/// The cell to which a directed edge leads: the neighbour of its origin in
/// its direction.
pub open spec fn get_directed_edge_destination(edge: u64) -> Result<u64, Error> {
    match get_directed_edge_origin(edge) {
        Err(e) => Err(e),
        Ok(origin) => match h3_neighbor_rotations(origin, edge_direction(edge), 0) {
            Err(e) => Err(e),
            Ok(step) => Ok(step.index),
        },
    }
}

/// Whether an index names a directed edge: its mode is that of a directed
/// edge, its direction is one of the six, its origin is a cell, and it does
/// not leave a pentagon along the deleted `k` axis.
pub open spec fn is_valid_directed_edge(edge: u64) -> bool {
    &&& 1 <= reserved_bits(edge) <= 6
    &&& mode(edge) == 2
    &&& !(is_pentagon(edge_origin(edge)) && reserved_bits(edge) == 1)
    &&& is_valid_cell(edge_origin(edge))
}

/// The directed edge in each of the six slots of a cell: slot `i` leaves in
/// the direction of the digit `i + 1`, and the first slot of a pentagon,
/// which has no such edge, holds no edge.
pub open spec fn origin_edge(origin: u64, slot: int) -> u64 {
    if is_pentagon(origin) && slot == 0 {
        H3_NULL
    } else {
        directed_edge(origin, Direction::of(slot + 1))
    }
}

/// A directed edge made from a cell keeps the cell and the direction.
pub proof fn lemma_directed_edge_bits(origin: u64, d: u64)
    by (bit_vector)
    requires
        mode(origin) == 1,
        reserved_bits(origin) == 0,
        d <= 7,
    ensures
        mode(with_reserved_bits(with_mode(origin, 2), d)) == 2,
        reserved_bits(with_reserved_bits(with_mode(origin, 2), d)) == d,
        with_reserved_bits(with_mode(with_reserved_bits(with_mode(origin, 2), d), 1), 0) == origin,
        reserved_bits(0) == 0,
{
}

/// The directed edge from a cell to a neighbour has the cell as its origin
/// and the neighbour as its destination.
pub proof fn lemma_edge_round_trip(a: u64, b: u64)
    requires
        mode(a) == 1,
        reserved_bits(a) == 0,
        cells_to_directed_edge(a, b) is Ok,
    ensures
        get_directed_edge_origin(cells_to_directed_edge(a, b)->Ok_0) == Ok::<u64, Error>(a),
        get_directed_edge_destination(cells_to_directed_edge(a, b)->Ok_0) == Ok::<u64, Error>(b),
{
    let dir = direction_for_neighbor(a, b);
    let start: int = if is_pentagon(a) {
        2
    } else {
        1
    };
    lemma_direction_for_neighbor_from(a, b, start);
    crate::coord_ijk::lemma_direction_value_round_trip(dir, 0);
    lemma_directed_edge_bits(a, dir.value() as u64);
}

/// The directed edge from a cell to a neighbour is a directed edge.
pub proof fn lemma_edge_is_valid(a: u64, b: u64)
    requires
        is_valid_cell(a),
        cells_to_directed_edge(a, b) is Ok,
    ensures
        is_valid_directed_edge(cells_to_directed_edge(a, b)->Ok_0),
{
    let dir = direction_for_neighbor(a, b);
    let start: int = if is_pentagon(a) {
        2
    } else {
        1
    };
    lemma_direction_for_neighbor_from(a, b, start);
    crate::coord_ijk::lemma_direction_value_round_trip(dir, 0);
    lemma_directed_edge_bits(a, dir.value() as u64);
}

/// The six slots of a cell hold six directed edges, and those of a pentagon
/// five, after a first slot that holds none.
pub proof fn lemma_origin_edges_valid(origin: u64, slot: int)
    requires
        is_valid_cell(origin),
        0 <= slot < 6,
    ensures
        is_pentagon(origin) && slot == 0 ==> origin_edge(origin, slot) == H3_NULL
            && !is_valid_directed_edge(origin_edge(origin, slot)),
        !(is_pentagon(origin) && slot == 0) ==> is_valid_directed_edge(origin_edge(origin, slot))
            && get_directed_edge_origin(origin_edge(origin, slot)) == Ok::<u64, Error>(origin),
{
    crate::coord_ijk::lemma_direction_value_round_trip(Direction::CenterDigit, slot + 1);
    lemma_directed_edge_bits(origin, (slot + 1) as u64);
}

/// The directed edge from a cell to one of its neighbours.
pub fn cellsToDirectedEdge(origin: H3Index, destination: H3Index) -> (edge: Result<H3Index, Error>)
    ensures
        edge == cells_to_directed_edge(origin, destination),
        edge is Ok && is_valid_cell(origin) ==> is_valid_directed_edge(edge->Ok_0)
            && get_directed_edge_origin(edge->Ok_0) == Ok::<u64, Error>(origin)
            && get_directed_edge_destination(edge->Ok_0) == Ok::<u64, Error>(destination),
{
    proof {
        if is_valid_cell(origin) && cells_to_directed_edge(origin, destination) is Ok {
            lemma_edge_round_trip(origin, destination);
            lemma_edge_is_valid(origin, destination);
        }
    }
    // Determine the IJK direction from the origin to the destination
    let direction: Direction = directionForNeighbor(origin, destination);

    // The direction will be invalid if the cells are not neighbors
    if direction == Direction::InvalidDigit {
        return Err(Error::NotNeighbors);
    }
    // Create the edge index for the neighbor direction

    let mut output = origin;
    H3_SET_MODE(&mut output, H3_DIRECTEDEDGE_MODE);
    H3_SET_RESERVED_BITS(&mut output, direction.bits() as i32);
    Ok(output)
}

/// The cell that a directed edge leaves.
pub fn getDirectedEdgeOrigin(edge: H3Index) -> (origin: Result<H3Index, Error>)
    ensures
        origin == get_directed_edge_origin(edge),
{
    if H3_GET_MODE(edge) != H3_DIRECTEDEDGE_MODE {
        return Err(Error::DirectedEdgeInvalid);
    }
    let mut origin: H3Index = edge;
    H3_SET_MODE(&mut origin, H3_CELL_MODE);
    H3_SET_RESERVED_BITS(&mut origin, 0);
    Ok(origin)
}

/// The cell to which a directed edge leads.
pub fn getDirectedEdgeDestination(edge: H3Index) -> (destination: Result<H3Index, Error>)
    ensures
        destination == get_directed_edge_destination(edge),
{
    let direction: Direction = match Direction::from_u64(H3_GET_RESERVED_BITS(edge) as u64) {
        Some(d) => d,
        None => Direction::InvalidDigit,
    };
    let mut rotations: i32 = 0;
    // Note: This call is also checking for H3_DIRECTEDEDGE_MODE
    let origin: H3Index = match getDirectedEdgeOrigin(edge) {
        Ok(origin) => origin,
        Err(e) => {
            return Err(e);
        },
    };
    h3NeighborRotations(origin, direction, &mut rotations)
}

/// Whether an index names a directed edge.
pub fn isValidDirectedEdge(edge: H3Index) -> (valid: bool)
    ensures
        valid == is_valid_directed_edge(edge),
{
    let neighborDirection = H3_GET_RESERVED_BITS(edge);
    if neighborDirection <= 0 || neighborDirection >= 7 {
        return false;
    }
    // Note: This call is also checking for H3_DIRECTEDEDGE_MODE

    let origin: H3Index = match getDirectedEdgeOrigin(edge) {
        Ok(result) => result,
        Err(_) => {
            return false;
        },
    };

    if isPentagon(origin) && neighborDirection == 1 {
        return false;
    }
    isValidCell(origin)
}

/// The origin and the destination of a directed edge.
pub fn directedEdgeToCells(edge: H3Index) -> (cells: Result<(H3Index, H3Index), Error>)
    ensures
        match (get_directed_edge_origin(edge), get_directed_edge_destination(edge)) {
            (Ok(origin), Ok(destination)) => cells == Ok::<(H3Index, H3Index), Error>(
                (origin, destination),
            ),
            (Err(e), _) => cells == Err::<(H3Index, H3Index), Error>(e),
            (Ok(_), Err(e)) => cells == Err::<(H3Index, H3Index), Error>(e),
        },
{
    let originResult = match getDirectedEdgeOrigin(edge) {
        Ok(origin) => origin,
        Err(e) => {
            return Err(e);
        },
    };
    let destinationResult = match getDirectedEdgeDestination(edge) {
        Ok(destination) => destination,
        Err(e) => {
            return Err(e);
        },
    };
    Ok((originResult, destinationResult))
}

/// The directed edges that leave a cell, one in each of its six slots.
pub fn originToDirectedEdges(origin: H3Index) -> (edges: [H3Index; 6])
    ensures
        forall|slot: int| 0 <= slot < 6 ==> #[trigger] edges[slot] == origin_edge(origin, slot),
        is_valid_cell(origin) ==> forall|slot: int|
            0 <= slot < 6 ==> is_valid_directed_edge(#[trigger] edges[slot]) == !(is_pentagon(
                origin,
            ) && slot == 0),
{
    proof {
        if is_valid_cell(origin) {
            assert forall|slot: int| 0 <= slot < 6 implies is_valid_directed_edge(
                #[trigger] origin_edge(origin, slot),
            ) == !(is_pentagon(origin) && slot == 0) by {
                lemma_origin_edges_valid(origin, slot);
            }
        }
    }
    let mut edges: [H3Index; 6] = [0;6];
    // Determine if the origin is a pentagon and special treatment needed.
    let isPent = isPentagon(origin);

    // This is actually quite simple. Just modify the bits of the origin
    // slightly for each direction, except the 'k' direction in pentagons,
    // which is zeroed.
    let mut i: usize = 0;
    while i < 6
        invariant
            i <= 6,
            isPent == is_pentagon(origin),
            forall|slot: int| 0 <= slot < i ==> #[trigger] edges[slot] == origin_edge(origin, slot),
        decreases 6 - i,
    {
        if isPent && i == 0 {
            edges[i] = H3_NULL;
        } else {
            let mut edge = origin;
            H3_SET_MODE(&mut edge, H3_DIRECTEDEDGE_MODE);
            H3_SET_RESERVED_BITS(&mut edge, (i as i32) + 1);
            proof {
                crate::coord_ijk::lemma_direction_value_round_trip(
                    Direction::CenterDigit,
                    i as int + 1,
                );
            }
            edges[i] = edge;
        }
        i = i + 1;
    }
    edges
}

} // verus!
