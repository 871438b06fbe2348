use vstd::prelude::*;
use crate::algos::{
    disk_cursor, disk_visit, disk_visit_neighbors, empty_table, grid_disk_distances,
    is_table_kept, lemma_occupied_slots, lemma_occupied_slots_distinct, max_grid_disk_size,
    occupied_slots, probe_slot, side_step,
};
use crate::error::Error;

verus! {

/// The slot at which the search for a cell in a table starts.
pub open spec fn home_slot(table: Seq<(u64, u32)>, cell: u64) -> int {
    (cell % (table.len() as u64)) as int
}

/// The slot at which a cell stands in a table or would be put; -1 where
/// the table has no room for it.
pub open spec fn slot_of(table: Seq<(u64, u32)>, cell: u64) -> int {
    probe_slot(table, cell, home_slot(table, cell), table.len())
}

/// Whether a table is a hash set of cells: it has slots, no more than can
/// be counted, every cell in it stands where the search for it ends, and
/// a free slot holds no distance.
pub open spec fn is_hash_set(table: Seq<(u64, u32)>) -> bool {
    &&& 0 < table.len() <= usize::MAX
    &&& forall|s: int|
        0 <= s < table.len() && (#[trigger] table[s]).0 != 0 ==> slot_of(table, table[s].0) == s
    &&& forall|s: int| 0 <= s < table.len() && (#[trigger] table[s]).0 == 0 ==> table[s].1 == 0
}

/// Whether a table holds a cell at a distance of `d` at most.
pub open spec fn holds(table: Seq<(u64, u32)>, cell: u64, d: int) -> bool {
    exists|s: int| 0 <= s < table.len() && (#[trigger] table[s]).0 == cell && table[s].1 <= d
}

/// The search for a cell ends at a slot of the table, which is free or
/// holds the cell, or it finds no such slot.
pub proof fn lemma_probe_slot(table: Seq<(u64, u32)>, cell: u64, off: int, steps: nat)
    requires
        0 <= off < table.len(),
    ensures
        probe_slot(table, cell, off, steps) == -1 || (0 <= probe_slot(table, cell, off, steps)
            < table.len() && (table[probe_slot(table, cell, off, steps)].0 == 0
            || table[probe_slot(table, cell, off, steps)].0 == cell)),
    decreases steps,
{
    if steps > 0 && !(table[off].0 == 0 || table[off].0 == cell) {
        lemma_probe_slot(table, cell, (off + 1) % (table.len() as int), (steps - 1) as nat);
    }
}

/// A cell that the search finds in a table is found at the same slot in
/// every table that differs only in slots that were free and in distances.
pub proof fn lemma_probe_found_stays(
    before: Seq<(u64, u32)>,
    after: Seq<(u64, u32)>,
    cell: u64,
    off: int,
    steps: nat,
)
    requires
        0 <= off < before.len(),
        after.len() == before.len(),
        cell != 0,
        forall|s: int|
            0 <= s < before.len() && (#[trigger] before[s]).0 != 0 ==> after[s].0 == before[s].0,
        probe_slot(before, cell, off, steps) >= 0,
        before[probe_slot(before, cell, off, steps)].0 == cell,
    ensures
        probe_slot(after, cell, off, steps) == probe_slot(before, cell, off, steps),
    decreases steps,
{
    if steps > 0 {
        if before[off].0 == cell {
        } else if before[off].0 == 0 {
        } else {
            lemma_probe_found_stays(
                before,
                after,
                cell,
                (off + 1) % (before.len() as int),
                (steps - 1) as nat,
            );
        }
    }
}

/// A cell put into the free slot at which the search for it ended is found
/// there.
pub proof fn lemma_probe_finds_put(
    before: Seq<(u64, u32)>,
    cell: u64,
    distance: u32,
    off: int,
    steps: nat,
)
    requires
        0 <= off < before.len(),
        cell != 0,
        probe_slot(before, cell, off, steps) >= 0,
    ensures
        probe_slot(
            before.update(probe_slot(before, cell, off, steps), (cell, distance)),
            cell,
            off,
            steps,
        ) == probe_slot(before, cell, off, steps),
    decreases steps,
{
    let slot = probe_slot(before, cell, off, steps);
    lemma_probe_slot(before, cell, off, steps);
    if steps > 0 {
        if before[off].0 == 0 || before[off].0 == cell {
        } else {
            let next = (off + 1) % (before.len() as int);
            lemma_probe_finds_put(before, cell, distance, next, (steps - 1) as nat);
        }
    }
}

/// A hash set stays one when a cell is put into the slot at which the
/// search for it ends.
pub proof fn lemma_hash_set_put(table: Seq<(u64, u32)>, cell: u64, distance: u32)
    requires
        is_hash_set(table),
        cell != 0,
        slot_of(table, cell) >= 0,
    ensures
        is_hash_set(table.update(slot_of(table, cell), (cell, distance))),
        table[slot_of(table, cell)].0 == 0 || table[slot_of(table, cell)].0 == cell,
        0 <= slot_of(table, cell) < table.len(),
{
    let slot = slot_of(table, cell);
    let after = table.update(slot, (cell, distance));
    let len = table.len() as u64;
    assert(0 <= home_slot(table, cell) < table.len()) by {
    }
    lemma_probe_slot(table, cell, home_slot(table, cell), table.len());
    lemma_probe_finds_put(table, cell, distance, home_slot(table, cell), table.len());
    assert forall|s: int| 0 <= s < after.len() && (#[trigger] after[s]).0 != 0 implies slot_of(
        after,
        after[s].0,
    ) == s by {
        if !(s == slot) {
            let other = table[s].0;
            assert forall|j: int| 0 <= j < table.len() && (#[trigger] table[j]).0
                != 0 implies after[j].0 == table[j].0 by {
            }
            lemma_probe_found_stays(table, after, other, home_slot(table, other), table.len());
        }
    }
    assert forall|s: int| 0 <= s < after.len() && (#[trigger] after[s]).0 == 0 implies after[s].1
        == 0 by {
    }
}

/// In a hash set a cell that the table holds stands where the search for
/// it ends.
pub proof fn lemma_hash_set_finds(table: Seq<(u64, u32)>, cell: u64, d: int)
    requires
        is_hash_set(table),
        cell != 0,
        holds(table, cell, d),
    ensures
        0 <= slot_of(table, cell) < table.len(),
        table[slot_of(table, cell)].0 == cell,
        table[slot_of(table, cell)].1 <= d,
{
}

/// The neighbour of a cell on a side of its ring, found with no turns
/// handed in; none where there is no such step.
pub open spec fn neighbor_on(cell: u64, side: int) -> Option<u64> {
    match side_step(cell, side) {
        Ok(step) => Some(step.index),
        Err(_) => None,
    }
}

/// Whether a cell is reached from an origin in `n` steps, each from a cell
/// that is not `H3_NULL` to its neighbour on one of the six sides.
pub open spec fn is_reached_in(origin: u64, cell: u64, n: nat) -> bool
    decreases n,
{
    if n == 0 {
        cell == origin
    } else {
        exists|prev: u64, side: int|
            0 <= side < 6 && prev != 0 && #[trigger] neighbor_on(prev, side) == Some(cell)
                && is_reached_in(origin, prev, (n - 1) as nat)
    }
}

/// Whether every cell in a table is reached from the origin in as many
/// steps as the table says, which are `k` at most.
pub open spec fn is_sound(table: Seq<(u64, u32)>, origin: u64, k: int) -> bool {
    forall|s: int|
        0 <= s < table.len() && (#[trigger] table[s]).0 != 0 ==> table[s].1 <= k && is_reached_in(
            origin,
            table[s].0,
            table[s].1 as nat,
        )
}

/// Whether the neighbour of the cell in a slot, on a side, is in the table
/// at one step more than the cell at most; this is asked only of cells at
/// less than `k` steps, and of neighbours that are not `H3_NULL`.
pub open spec fn is_closed_at(table: Seq<(u64, u32)>, s: int, side: int, k: int) -> bool {
    table[s].0 != 0 && table[s].1 < k && neighbor_on(table[s].0, side) is Some && neighbor_on(
        table[s].0,
        side,
    )->Some_0 != 0 ==> holds(table, neighbor_on(table[s].0, side)->Some_0, table[s].1 + 1)
}

/// Whether a table holds the neighbours of all its cells but those of the
/// cells in `stack`, whose visits are under way.
pub open spec fn is_closed(table: Seq<(u64, u32)>, stack: Set<u64>, k: int) -> bool {
    forall|s: int, side: int|
        0 <= s < table.len() && 0 <= side < 6 && !stack.contains(table[s].0)
            ==> #[trigger] is_closed_at(table, s, side, k)
}

/// Whether a table holds the cells whose visits are under way, each at
/// fewer than `d` steps.
pub open spec fn is_stack_held(table: Seq<(u64, u32)>, stack: Set<u64>, d: int) -> bool {
    forall|cell: u64| #[trigger] stack.contains(cell) ==> cell != 0 && holds(table, cell, d - 1)
}

/// Whether a table differs from another only in slots in which it holds a
/// cell at `d` steps at least.
pub open spec fn is_changed_from(before: Seq<(u64, u32)>, after: Seq<(u64, u32)>, d: int) -> bool {
    forall|s: int|
        0 <= s < after.len() && #[trigger] after[s] != before[s] ==> after[s].1 >= d && after[s].0
            != 0
}

/// What a table holds, the table that has kept it holds too.
pub proof fn lemma_holds_kept(before: Seq<(u64, u32)>, after: Seq<(u64, u32)>, cell: u64, d: int)
    requires
        is_table_kept(before, after),
        cell != 0,
        holds(before, cell, d),
    ensures
        holds(after, cell, d),
{
}

/// A table that has kept what it held, and holds its cells at no more
/// steps, is closed where it did not change, if it was closed before.
pub proof fn lemma_closed_kept(
    before: Seq<(u64, u32)>,
    after: Seq<(u64, u32)>,
    stack: Set<u64>,
    k: int,
    s: int,
    side: int,
)
    requires
        is_table_kept(before, after),
        is_closed(before, stack, k),
        0 <= s < before.len(),
        0 <= side < 6,
        after[s] == before[s],
        !stack.contains(before[s].0),
    ensures
        is_closed_at(after, s, side, k),
{
    assert(is_closed_at(before, s, side, k));
    if before[s].0 != 0 && before[s].1 < k && neighbor_on(before[s].0, side) is Some && neighbor_on(
        before[s].0,
        side,
    )->Some_0 != 0 {
        lemma_holds_kept(before, after, neighbor_on(before[s].0, side)->Some_0, before[s].1 + 1);
    }
}

/// The visit to a cell leaves a hash set of cells that are reached as the
/// table says, keeps what the table held, changes only slots of cells at
/// `d` steps at least, holds the cell, and holds the neighbours of every
/// cell but of those whose visits are under way.
pub proof fn lemma_visit(
    table: Seq<(u64, u32)>,
    cell: u64,
    k: int,
    d: int,
    origin: u64,
    stack: Set<u64>,
)
    requires
        0 <= d <= k <= u32::MAX,
        is_hash_set(table),
        is_sound(table, origin, k),
        is_closed(table, stack, k),
        is_stack_held(table, stack, d),
        cell == 0 || is_reached_in(origin, cell, d as nat),
        disk_visit(table, cell, k, d) is Ok,
    ensures
        is_hash_set(disk_visit(table, cell, k, d)->Ok_0),
        is_sound(disk_visit(table, cell, k, d)->Ok_0, origin, k),
        is_table_kept(table, disk_visit(table, cell, k, d)->Ok_0),
        is_changed_from(table, disk_visit(table, cell, k, d)->Ok_0, d),
        is_closed(disk_visit(table, cell, k, d)->Ok_0, stack, k),
        cell != 0 ==> holds(disk_visit(table, cell, k, d)->Ok_0, cell, d),
    decreases k - d, 7int,
{
    let slot = slot_of(table, cell);
    let after = disk_visit(table, cell, k, d)->Ok_0;
    let len = table.len() as u64;
    assert(0 <= home_slot(table, cell) < table.len()) by {
        assert(cell % len < len);
    }
    lemma_probe_slot(table, cell, home_slot(table, cell), table.len());
    if !(table[slot].0 == cell && table[slot].1 <= d) {
        assert(cell != 0);
        if stack.contains(cell) {
            lemma_hash_set_finds(table, cell, d - 1);
        }
        assert(!stack.contains(cell));
        let marked = table.update(slot, (cell, d as u32));
        lemma_hash_set_put(table, cell, d as u32);
        assert(is_sound(marked, origin, k)) by {
            assert forall|s: int| 0 <= s < marked.len() && (#[trigger] marked[s]).0
                != 0 implies marked[s].1 <= k && is_reached_in(
                origin,
                marked[s].0,
                marked[s].1 as nat,
            ) by {
                if s != slot {
                }
            }
        }
        // no other slot holds the cell
        assert forall|s: int| 0 <= s < table.len() && s != slot implies (#[trigger] table[s]).0
            != cell by {
        }
        assert(is_closed(marked, stack.insert(cell), k)) by {
            assert forall|s: int, side: int|
                0 <= s < marked.len() && 0 <= side < 6 && !stack.insert(cell).contains(
                    marked[s].0,
                ) implies #[trigger] is_closed_at(marked, s, side, k) by {
                if s != slot {
                    lemma_closed_kept(table, marked, stack, k, s, side);
                }
            }
        }
        if d >= k {
            assert(is_closed(marked, stack, k)) by {
                assert forall|s: int, side: int|
                    0 <= s < marked.len() && 0 <= side < 6 && !stack.contains(
                        marked[s].0,
                    ) implies #[trigger] is_closed_at(marked, s, side, k) by {
                }
            }
        } else {
            assert(is_stack_held(marked, stack.insert(cell), d + 1)) by {
                assert forall|x: u64| #[trigger] stack.insert(cell).contains(x) implies x != 0
                    && holds(marked, x, d + 1 - 1) by {
                    if x == cell {
                        assert(marked[slot].0 == cell);
                    } else {
                        lemma_holds_kept(table, marked, x, d - 1);
                    }
                }
            }
            lemma_visit_neighbors(marked, cell, k, d, 0, origin, stack, slot);
            // the cell stands in one slot only
            assert forall|s: int| 0 <= s < after.len() && s != slot implies (#[trigger] after[s]).0
                != cell by {
            }
            assert(is_closed(after, stack, k)) by {
                assert forall|s: int, side: int|
                    0 <= s < after.len() && 0 <= side < 6 && !stack.contains(
                        after[s].0,
                    ) implies #[trigger] is_closed_at(after, s, side, k) by {
                }
            }
            assert(is_changed_from(table, after, d)) by {
                assert forall|s: int| 0 <= s < after.len() && #[trigger] after[s]
                    != table[s] implies after[s].1 >= d && after[s].0 != 0 by {
                }
            }
            assert(is_table_kept(table, after)) by {
                assert forall|s: int| 0 <= s < table.len() && (#[trigger] table[s]).0
                    != 0 implies after[s].0 == table[s].0 && after[s].1 <= table[s].1 by {
                }
            }
        }
    }
}

/// The visits to the neighbours of a cell on the sides from `side` on
/// leave a table as the visit to a cell does, in which the cell stands as
/// before and all its neighbours are held at one step more.
pub proof fn lemma_visit_neighbors(
    table: Seq<(u64, u32)>,
    cell: u64,
    k: int,
    d: int,
    side: int,
    origin: u64,
    stack: Set<u64>,
    slot: int,
)
    requires
        0 <= d < k <= u32::MAX,
        0 <= side <= 6,
        cell != 0,
        !stack.contains(cell),
        is_hash_set(table),
        is_sound(table, origin, k),
        0 <= slot < table.len(),
        table[slot] == (cell, d as u32),
        is_reached_in(origin, cell, d as nat),
        is_closed(table, stack.insert(cell), k),
        is_stack_held(table, stack.insert(cell), d + 1),
        forall|j: int|
            0 <= j < side && (#[trigger] neighbor_on(cell, j)) is Some && neighbor_on(
                cell,
                j,
            )->Some_0 != 0 ==> holds(table, neighbor_on(cell, j)->Some_0, d + 1),
        disk_visit_neighbors(table, cell, k, d, side) is Ok,
    ensures
        is_hash_set(disk_visit_neighbors(table, cell, k, d, side)->Ok_0),
        is_sound(disk_visit_neighbors(table, cell, k, d, side)->Ok_0, origin, k),
        is_table_kept(table, disk_visit_neighbors(table, cell, k, d, side)->Ok_0),
        is_changed_from(table, disk_visit_neighbors(table, cell, k, d, side)->Ok_0, d + 1),
        is_closed(disk_visit_neighbors(table, cell, k, d, side)->Ok_0, stack.insert(cell), k),
        disk_visit_neighbors(table, cell, k, d, side)->Ok_0[slot] == (cell, d as u32),
        forall|j: int|
            0 <= j < 6 && (#[trigger] neighbor_on(cell, j)) is Some && neighbor_on(
                cell,
                j,
            )->Some_0 != 0 ==> holds(
                disk_visit_neighbors(table, cell, k, d, side)->Ok_0,
                neighbor_on(cell, j)->Some_0,
                d + 1,
            ),
    decreases k - d, 6 - side,
{
    let after = disk_visit_neighbors(table, cell, k, d, side)->Ok_0;
    if !(side >= 6) {
        match side_step(cell, side) {
            Ok(step) => {
                let n = step.index;
                assert(neighbor_on(cell, side) == Some(n));
                let visited = disk_visit(table, n, k, d + 1)->Ok_0;
                lemma_visit(table, n, k, d + 1, origin, stack.insert(cell));
                // the slot of the cell is left as it was
                assert(is_stack_held(visited, stack.insert(cell), d + 1)) by {
                    assert forall|x: u64| #[trigger] stack.insert(cell).contains(x) implies x
                        != 0 && holds(visited, x, d + 1 - 1) by {
                        lemma_holds_kept(table, visited, x, d);
                    }
                }
                assert forall|j: int|
                    0 <= j < side + 1 && (#[trigger] neighbor_on(cell, j)) is Some && neighbor_on(
                        cell,
                        j,
                    )->Some_0 != 0 implies holds(visited, neighbor_on(cell, j)->Some_0, d + 1) by {
                    if j < side {
                        lemma_holds_kept(table, visited, neighbor_on(cell, j)->Some_0, d + 1);
                    }
                }
                lemma_visit_neighbors(visited, cell, k, d, side + 1, origin, stack, slot);
                assert(is_table_kept(table, after)) by {
                    assert forall|s: int| 0 <= s < table.len() && (#[trigger] table[s]).0
                        != 0 implies after[s].0 == table[s].0 && after[s].1 <= table[s].1 by {
                    }
                }
                assert(is_changed_from(table, after, d + 1)) by {
                    assert forall|s: int| 0 <= s < after.len() && #[trigger] after[s]
                        != table[s] implies after[s].1 >= d + 1 && after[s].0 != 0 by {
                    }
                }
            },
            Err(e) => {
                lemma_visit_neighbors(table, cell, k, d, side + 1, origin, stack, slot);
            },
        }
    }
}

/// A table that holds the origin and the neighbours of all its cells holds
/// every cell that is reached from the origin in `k` steps at most, at no
/// more steps than it is reached in.
pub proof fn lemma_closed_holds_reached(
    table: Seq<(u64, u32)>,
    origin: u64,
    k: int,
    cell: u64,
    n: nat,
)
    requires
        is_closed(table, Set::<u64>::empty(), k),
        origin != 0,
        holds(table, origin, 0),
        cell != 0,
        n <= k,
        is_reached_in(origin, cell, n),
    ensures
        holds(table, cell, n as int),
    decreases n,
{
    if n > 0 {
        let (prev, side) = choose|prev: u64, side: int|
            0 <= side < 6 && prev != 0 && #[trigger] neighbor_on(prev, side) == Some(cell)
                && is_reached_in(origin, prev, (n - 1) as nat);
        lemma_closed_holds_reached(table, origin, k, prev, (n - 1) as nat);
        let s = choose|s: int|
            0 <= s < table.len() && (#[trigger] table[s]).0 == prev && table[s].1 <= n - 1;
        assert(is_closed_at(table, s, side, k));
    }
}

/// What the gathering of a disk finds: a table in which no cell stands
/// twice, in which every cell is reached from the origin in as many steps
/// as the table says, and which holds every cell that is reached in `k`
/// steps at most, at no more steps than it is reached in. So the table
/// holds the cells within `k` steps, each with the least number of steps
/// to it, whatever the order of the visits.
pub proof fn lemma_gathered_disk(origin: u64, k: int, slots: nat)
    requires
        origin != 0,
        0 <= k <= u32::MAX,
        0 < slots <= usize::MAX,
        disk_visit(empty_table(slots), origin, k, 0) is Ok,
    ensures
        is_hash_set(disk_visit(empty_table(slots), origin, k, 0)->Ok_0),
        is_sound(disk_visit(empty_table(slots), origin, k, 0)->Ok_0, origin, k),
        forall|cell: u64, n: nat|
            cell != 0 && n <= k && #[trigger] is_reached_in(origin, cell, n) ==> holds(
                disk_visit(empty_table(slots), origin, k, 0)->Ok_0,
                cell,
                n as int,
            ),
        forall|s: int, t: int|
            0 <= s < slots && 0 <= t < slots && s != t && (#[trigger] disk_visit(
                empty_table(slots),
                origin,
                k,
                0,
            )->Ok_0[s]).0 != 0 ==> (#[trigger] disk_visit(empty_table(slots), origin, k, 0)->Ok_0[t]).0
                != disk_visit(empty_table(slots), origin, k, 0)->Ok_0[s].0,
{
    let empty = empty_table(slots);
    let table = disk_visit(empty, origin, k, 0)->Ok_0;
    let none = Set::<u64>::empty();
    lemma_visit(empty, origin, k, 0, origin, none);
    assert forall|cell: u64, n: nat|
        cell != 0 && n <= k && #[trigger] is_reached_in(origin, cell, n) implies holds(
        table,
        cell,
        n as int,
    ) by {
        lemma_closed_holds_reached(table, origin, k, cell, n);
    }
    assert forall|s: int, t: int|
        0 <= s < slots && 0 <= t < slots && s != t && (#[trigger] table[s]).0
            != 0 implies (#[trigger] table[t]).0 != table[s].0 by {
    }
}

/// Whether `cells` are the cells within `k` steps of an origin: every cell
/// once, each with the least number of steps in which it is reached from
/// the origin, and every cell that is reached in `k` steps at most. The
/// steps are those to the neighbours on the six sides, with no turns
/// handed in, from cells that are not `H3_NULL`.
pub open spec fn is_gathered_disk(cells: Seq<(u64, u32)>, origin: u64, k: int) -> bool {
    &&& forall|i: int|
        0 <= i < cells.len() ==> {
            let found = #[trigger] cells[i];
            &&& found.0 != 0
            &&& found.1 <= k
            &&& is_reached_in(origin, found.0, found.1 as nat)
            &&& forall|n: nat| n < found.1 ==> !is_reached_in(origin, found.0, n)
        }
    &&& forall|i: int, j: int|
        0 <= i < cells.len() && 0 <= j < cells.len() && i != j ==> (#[trigger] cells[i]).0 != (
        #[trigger] cells[j]).0
    &&& forall|cell: u64, n: nat|
        cell != 0 && n <= k && #[trigger] is_reached_in(origin, cell, n) ==> exists|i: int|
            0 <= i < cells.len() && (#[trigger] cells[i]).0 == cell
}

/// What `gridDiskDistances` gives where the walk around the disk fails and
/// the cells are gathered: the cells within `k` steps of the origin, each
/// once and with the least number of steps to it, whatever the order of
/// the visits.
pub proof fn lemma_grid_disk_gathered(origin: u64, k: int)
    requires
        origin != 0,
        0 <= k <= u32::MAX,
        max_grid_disk_size(k) <= usize::MAX,
        disk_cursor(origin, (3 * k * (k + 1)) as nat) is Err,
        grid_disk_distances(origin, k) is Ok,
    ensures
        is_gathered_disk(grid_disk_distances(origin, k)->Ok_0, origin, k),
{
    let slots = max_grid_disk_size(k) as nat;
    assert(slots > 0) by (nonlinear_arith)
        requires
            slots == 3 * k * (k + 1) + 1,
            0 <= k,
    ;
    let table = disk_visit(empty_table(slots), origin, k, 0)->Ok_0;
    let cells = grid_disk_distances(origin, k)->Ok_0;
    lemma_gathered_disk(origin, k, slots);
    lemma_occupied_slots(table, table.len(), 0);
    lemma_occupied_slots_distinct(table, table.len());
    assert forall|i: int| 0 <= i < cells.len() implies {
        let found = #[trigger] cells[i];
        &&& found.0 != 0
        &&& found.1 <= k
        &&& is_reached_in(origin, found.0, found.1 as nat)
        &&& forall|n: nat| n < found.1 ==> !is_reached_in(origin, found.0, n)
    } by {
        let found = cells[i];
        assert forall|n: nat| n < found.1 implies !is_reached_in(origin, found.0, n) by {
        }
    }
    assert forall|cell: u64, n: nat|
        cell != 0 && n <= k && #[trigger] is_reached_in(origin, cell, n) implies exists|i: int|
        0 <= i < cells.len() && (#[trigger] cells[i]).0 == cell by {
        let s = choose|s: int|
            0 <= s < table.len() && (#[trigger] table[s]).0 == cell && table[s].1 <= n;
        lemma_occupied_slots(table, table.len(), s);
    }
}

} // verus!
