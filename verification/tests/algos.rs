use h3grid::algos::{
    _gridDiskDistancesInternal, directionForNeighbor, gridDiskDistances,
    gridDiskDistancesUnsafe, gridRingUnsafe, h3NeighborRotations, maxGridDiskSize,
};
use h3grid::coord_ijk::Direction;
use h3grid::error::Error;
use h3grid::h3_index::{isPentagon, isValidCell, setH3Index, H3Index};

const SF_RES9: H3Index = 0x89283080dcbffff;
const PENTAGON_RES7: H3Index = 0x870800000ffffff;

fn sorted_cells(cells: &Vec<(H3Index, u32)>) -> Vec<(H3Index, u32)> {
    let mut sorted = cells.clone();
    sorted.sort();
    sorted
}

#[test]
fn gridDisk0() {
    // the cell of resolution 0 around lat 0.659966917655, lng 2 * 3.14159 - 2.1364398519396
    let sfHex0: H3Index = 0x8029fffffffffff;

    let expectedK1: Vec<(H3Index, u32)> = vec![
        (0x8029fffffffffff, 0),
        (0x801dfffffffffff, 0),
        (0x8013fffffffffff, 0),
        (0x8027fffffffffff, 0),
        (0x8049fffffffffff, 0),
        (0x8051fffffffffff, 0),
        (0x8037fffffffffff, 0),
    ];

    let res = gridDiskDistances(sfHex0, 1).unwrap();
    for i in 0..7 {
        assert!(res[i].0 != 0, "index is populated");
        let mut in_list = 0;
        for j in 0..7 {
            if res[i].0 == expectedK1[j].0 {
                assert!(
                    res[i].1 == (if res[i].0 == sfHex0 { 0 } else { 1 }),
                    "distance is as expected"
                );
                in_list += 1;
            }
        }
        assert!(in_list == 1, "index found in expected set");
    }
}

#[test]
fn gridDisk0_PolarPentagon() {
    let mut polar: H3Index = 0;
    setH3Index(&mut polar, 0, 4, 0);

    let expectedK2: Vec<H3Index> = vec![
        0x8009fffffffffff,
        0x8007fffffffffff,
        0x8001fffffffffff,
        0x8011fffffffffff,
        0x801ffffffffffff,
        0x8019fffffffffff,
        0x0,
    ];

    let mut k2 = gridDiskDistances(polar, 1).unwrap();
    k2.resize(7, (0u64, 0));
    let mut k2present = 0;
    for i in 0..7 {
        if k2[i].0 != 0 {
            k2present += 1;
            let mut in_list = 0;
            for j in 0..7 {
                if k2[i].0 == expectedK2[j] {
                    assert!(
                        k2[i].1 == (if k2[i].0 == polar { 0 } else { 1 }),
                        "distance is as expected"
                    );
                    in_list += 1;
                }
            }
            assert!(in_list == 1, "index found in expected set");
        }
    }
    assert!(k2present == 6, "pentagon has 5 neighbors");
}

#[test]
fn max_grid_disk_size_is_centred_hexagonal_number() {
    assert_eq!(maxGridDiskSize(0), 1);
    assert_eq!(maxGridDiskSize(1), 7);
    assert_eq!(maxGridDiskSize(2), 19);
    assert_eq!(maxGridDiskSize(3), 37);
    assert_eq!(maxGridDiskSize(1000), 3003001);
    for k in 0..50u32 {
        assert_eq!(maxGridDiskSize(k), (3 * k * (k + 1) + 1) as usize);
    }
}

#[test]
fn neighbors_of_a_hexagon() {
    let expected: [H3Index; 7] = [
        0x89283080dcbffff,
        0x89283080dcfffff,
        0x89283080c27ffff,
        0x89283080d53ffff,
        0x89283080ddbffff,
        0x89283080dc3ffff,
        0x89283080c37ffff,
    ];
    let dirs = [
        Direction::CenterDigit,
        Direction::KAxesDigit,
        Direction::JAxesDigit,
        Direction::JKAxesDigit,
        Direction::IAxesDigit,
        Direction::IKAxesDigit,
        Direction::IJAxesDigit,
    ];
    for d in 0..7 {
        let mut rotations = 0;
        assert_eq!(h3NeighborRotations(SF_RES9, dirs[d], &mut rotations), Ok(expected[d]));
        assert_eq!(rotations, 0);
    }
}

#[test]
fn neighbor_turns_the_direction_first() {
    let mut rotations = 3;
    assert_eq!(
        h3NeighborRotations(SF_RES9, Direction::JAxesDigit, &mut rotations),
        Ok(0x89283080dc3ffff)
    );
    assert_eq!(rotations, 3);
}

#[test]
fn neighbors_of_a_polar_pentagon_cross_base_cells() {
    let polar: H3Index = 0x8009fffffffffff;
    let expected: [(H3Index, i32); 6] = [
        (0x8001fffffffffff, 5),
        (0x801ffffffffffff, 1),
        (0x8011fffffffffff, 0),
        (0x8007fffffffffff, 3),
        (0x8001fffffffffff, 4),
        (0x8019fffffffffff, 2),
    ];
    let dirs = [
        Direction::KAxesDigit,
        Direction::JAxesDigit,
        Direction::JKAxesDigit,
        Direction::IAxesDigit,
        Direction::IKAxesDigit,
        Direction::IJAxesDigit,
    ];
    for d in 0..6 {
        let mut rotations = 0;
        assert_eq!(h3NeighborRotations(polar, dirs[d], &mut rotations), Ok(expected[d].0));
        assert_eq!(rotations, expected[d].1);
    }
}

#[test]
fn neighbor_failures() {
    let mut rotations = 2;
    assert_eq!(
        h3NeighborRotations(SF_RES9, Direction::InvalidDigit, &mut rotations),
        Err(Error::Failed)
    );
    assert_eq!(rotations, 2);
    // base cell 122 is none
    assert_eq!(
        h3NeighborRotations(0x89f43080dcbffff, Direction::JAxesDigit, &mut rotations),
        Err(Error::CellInvalid)
    );
    // the digit of resolution 9 is unused
    assert_eq!(
        h3NeighborRotations(0x89283080ddfffff, Direction::JAxesDigit, &mut rotations),
        Err(Error::CellInvalid)
    );
    assert_eq!(rotations, 2);
    // a pentagon has no neighbour along its deleted axis
    let mut rotations = 0;
    assert_eq!(
        h3NeighborRotations(PENTAGON_RES7, Direction::KAxesDigit, &mut rotations),
        Err(Error::Pentagon)
    );
    assert_eq!(rotations, 0);
    assert_eq!(
        h3NeighborRotations(PENTAGON_RES7, Direction::JAxesDigit, &mut rotations),
        Ok(0x870800002ffffff)
    );
}

#[test]
fn disk_walks_ring_after_ring() {
    let expected: Vec<(H3Index, u32)> = vec![
        (0x89283080dcbffff, 0),
        (0x89283080c37ffff, 1),
        (0x89283080c27ffff, 1),
        (0x89283080d53ffff, 1),
        (0x89283080dcfffff, 1),
        (0x89283080dc3ffff, 1),
        (0x89283080ddbffff, 1),
        (0x89283080cafffff, 2),
        (0x89283080c33ffff, 2),
        (0x89283080c23ffff, 2),
        (0x89283080c2fffff, 2),
        (0x89283080d5bffff, 2),
        (0x89283080d43ffff, 2),
        (0x89283080d57ffff, 2),
        (0x89283080d1bffff, 2),
        (0x89283080dc7ffff, 2),
        (0x89283080dd7ffff, 2),
        (0x89283080dd3ffff, 2),
        (0x89283080ca7ffff, 2),
    ];
    assert_eq!(gridDiskDistancesUnsafe(SF_RES9, 2), Ok(expected.clone()));
    assert_eq!(gridDiskDistances(SF_RES9, 2), Ok(expected));
}

#[test]
fn disk_sizes() {
    for k in 0..6u32 {
        let disk = gridDiskDistancesUnsafe(SF_RES9, k).unwrap();
        assert_eq!(disk.len(), maxGridDiskSize(k));
        assert_eq!(disk.len(), (3 * k * (k + 1) + 1) as usize);
        let mut previous = 0;
        for (n, (cell, distance)) in disk.iter().enumerate() {
            assert!(isValidCell(*cell));
            assert!(*distance >= previous && *distance <= k);
            if n == 0 {
                assert_eq!(*distance, 0);
            } else {
                let d = *distance as usize;
                assert!(3 * d * (d - 1) < n && n <= 3 * d * (d + 1));
            }
            previous = *distance;
        }
    }
}

#[test]
fn disk_of_zero_steps() {
    assert_eq!(gridDiskDistancesUnsafe(SF_RES9, 0), Ok(vec![(SF_RES9, 0)]));
    assert_eq!(gridDiskDistances(SF_RES9, 0), Ok(vec![(SF_RES9, 0)]));
    assert_eq!(gridDiskDistances(PENTAGON_RES7, 0), Ok(vec![(PENTAGON_RES7, 0)]));
}

#[test]
fn disk_fails_on_pentagons() {
    assert_eq!(gridDiskDistancesUnsafe(PENTAGON_RES7, 0), Err(Error::Pentagon));
    assert_eq!(gridDiskDistancesUnsafe(PENTAGON_RES7, 1), Err(Error::Pentagon));
    // a neighbour of a pentagon
    assert_eq!(gridDiskDistancesUnsafe(0x8908000001bffff, 1), Err(Error::Pentagon));
}

#[test]
fn disk_around_a_pentagon() {
    let disk = gridDiskDistances(PENTAGON_RES7, 1).unwrap();
    let expected: Vec<(H3Index, u32)> = vec![
        (0x870800000ffffff, 0),
        (0x870800002ffffff, 1),
        (0x870800003ffffff, 1),
        (0x870800004ffffff, 1),
        (0x870800005ffffff, 1),
        (0x870800006ffffff, 1),
    ];
    assert_eq!(sorted_cells(&disk), expected);

    let polar: H3Index = 0x8009fffffffffff;
    let disk = gridDiskDistances(polar, 2).unwrap();
    assert_eq!(disk.len(), 16);
    let expected: Vec<(H3Index, u32)> = vec![
        (0x8001fffffffffff, 1),
        (0x8003fffffffffff, 2),
        (0x8005fffffffffff, 2),
        (0x8007fffffffffff, 1),
        (0x8009fffffffffff, 0),
        (0x800bfffffffffff, 2),
        (0x800ffffffffffff, 2),
        (0x8011fffffffffff, 1),
        (0x8019fffffffffff, 1),
        (0x801bfffffffffff, 2),
        (0x801ffffffffffff, 1),
        (0x8021fffffffffff, 2),
        (0x802dfffffffffff, 2),
        (0x8035fffffffffff, 2),
        (0x8039fffffffffff, 2),
        (0x803ffffffffffff, 2),
    ];
    assert_eq!(sorted_cells(&disk), expected);
}

#[test]
fn gathering_gives_the_cells_of_the_walk() {
    for k in 0..4u32 {
        let walked = gridDiskDistancesUnsafe(SF_RES9, k).unwrap();
        let maxIdx = maxGridDiskSize(k);
        let mut table: Vec<(H3Index, u32)> = vec![(0, 0); maxIdx];
        assert_eq!(_gridDiskDistancesInternal(SF_RES9, k, &mut table, maxIdx, 0), Ok(()));
        let gathered: Vec<(H3Index, u32)> =
            table.into_iter().filter(|entry| entry.0 != 0).collect();
        assert_eq!(sorted_cells(&gathered), sorted_cells(&walked));
    }
}

#[test]
fn gathering_fails_in_a_table_without_room() {
    let mut table: Vec<(H3Index, u32)> = vec![(0, 0); 3];
    assert_eq!(
        _gridDiskDistancesInternal(SF_RES9, 1, &mut table, 3, 0),
        Err(Error::MemoryBounds)
    );
    assert_eq!(table.len(), 3);
}

#[test]
fn ring_sizes() {
    assert_eq!(gridRingUnsafe(SF_RES9, 0), Ok(vec![SF_RES9]));
    for k in 1..6u32 {
        let ring = gridRingUnsafe(SF_RES9, k).unwrap();
        assert_eq!(ring.len(), (6 * k) as usize);
        let disk = gridDiskDistancesUnsafe(SF_RES9, k).unwrap();
        for cell in ring.iter() {
            assert!(disk.contains(&(*cell, k)));
        }
    }
}

#[test]
fn ring_order() {
    let ring1: Vec<H3Index> = vec![
        0x89283080ddbffff,
        0x89283080c37ffff,
        0x89283080c27ffff,
        0x89283080d53ffff,
        0x89283080dcfffff,
        0x89283080dc3ffff,
    ];
    assert_eq!(gridRingUnsafe(SF_RES9, 1), Ok(ring1));
    let ring2: Vec<H3Index> = vec![
        0x89283080ca7ffff,
        0x89283080cafffff,
        0x89283080c33ffff,
        0x89283080c23ffff,
        0x89283080c2fffff,
        0x89283080d5bffff,
        0x89283080d43ffff,
        0x89283080d57ffff,
        0x89283080d1bffff,
        0x89283080dc7ffff,
        0x89283080dd7ffff,
        0x89283080dd3ffff,
    ];
    assert_eq!(gridRingUnsafe(SF_RES9, 2), Ok(ring2));
}

#[test]
fn ring_fails_on_pentagons() {
    assert_eq!(gridRingUnsafe(PENTAGON_RES7, 1), Err(Error::Pentagon));
    assert_eq!(gridRingUnsafe(PENTAGON_RES7, 0), Ok(vec![PENTAGON_RES7]));
    assert!(isPentagon(PENTAGON_RES7));
}

#[test]
fn direction_for_neighbor() {
    assert_eq!(directionForNeighbor(SF_RES9, 0x89283080c27ffff), Direction::JAxesDigit);
    assert_eq!(directionForNeighbor(SF_RES9, 0x89283080dcfffff), Direction::KAxesDigit);
    assert_eq!(directionForNeighbor(SF_RES9, 0x89283080c37ffff), Direction::IJAxesDigit);
    assert_eq!(directionForNeighbor(SF_RES9, SF_RES9), Direction::InvalidDigit);
    assert_eq!(directionForNeighbor(SF_RES9, 0x89283080ca7ffff), Direction::InvalidDigit);
    assert_eq!(directionForNeighbor(PENTAGON_RES7, 0x870800002ffffff), Direction::JAxesDigit);
}

// the cells within `k` steps of a cell, found breadth first, each with the
// least number of steps to it
fn breadth_first(origin: H3Index, k: u32) -> Vec<(H3Index, u32)> {
    let dirs = [
        Direction::JAxesDigit,
        Direction::JKAxesDigit,
        Direction::KAxesDigit,
        Direction::IKAxesDigit,
        Direction::IAxesDigit,
        Direction::IJAxesDigit,
    ];
    let mut found: Vec<(H3Index, u32)> = vec![(origin, 0)];
    let mut next = 0;
    while next < found.len() {
        let (cell, distance) = found[next];
        next += 1;
        if distance == k {
            continue;
        }
        for dir in dirs {
            let mut rotations = 0;
            if let Ok(neighbour) = h3NeighborRotations(cell, dir, &mut rotations) {
                if !found.iter().any(|entry| entry.0 == neighbour) {
                    found.push((neighbour, distance + 1));
                }
            }
        }
    }
    found.sort();
    found
}

#[test]
fn gathered_disks_hold_the_cells_within_reach() {
    for (origin, k) in [
        (PENTAGON_RES7, 1),
        (PENTAGON_RES7, 3),
        (0x8908000001bffff, 2),
        (0x8009fffffffffff, 2),
        (0x8009fffffffffff, 4),
        (0x8001fffffffffff, 3),
    ] {
        assert!(gridDiskDistancesUnsafe(origin, k).is_err());
        let disk = gridDiskDistances(origin, k).unwrap();
        assert_eq!(sorted_cells(&disk), breadth_first(origin, k));
        assert!(disk.len() <= maxGridDiskSize(k));
        assert!(disk.contains(&(origin, 0)));
        for (cell, distance) in disk.iter() {
            assert!(isValidCell(*cell));
            assert!(*distance <= k);
        }
    }
}

#[test]
fn walked_disks_hold_the_cells_within_reach() {
    for k in 0..5 {
        let disk = gridDiskDistances(SF_RES9, k).unwrap();
        assert_eq!(sorted_cells(&disk), breadth_first(SF_RES9, k));
    }
}

#[test]
fn steps_lead_from_cells_to_cells() {
    let dirs = [
        Direction::CenterDigit,
        Direction::KAxesDigit,
        Direction::JAxesDigit,
        Direction::JKAxesDigit,
        Direction::IAxesDigit,
        Direction::IKAxesDigit,
        Direction::IJAxesDigit,
    ];
    for origin in [SF_RES9, PENTAGON_RES7, 0x8908000001bffff, 0x8009fffffffffff, 0x8f754e64992d6d8] {
        for dir in dirs {
            for turns in 0..6 {
                let mut rotations = turns;
                if let Ok(cell) = h3NeighborRotations(origin, dir, &mut rotations) {
                    assert!(isValidCell(cell));
                    assert!(0 <= rotations && rotations < 6);
                }
            }
        }
    }
}
