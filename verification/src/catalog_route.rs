//! Routing one corridor section across the catalog placement grid: a best-
//! first search over cells and headings that keeps clear of placed rooms,
//! reserved cells and the route budget.

use vstd::prelude::*;

use crate::catalog::GridCell;
use crate::catalog_outcome::CatalogAwareGenerationPolicy;
use crate::catalog_trace::CatalogGridBounds;
use crate::text::str_eq;

verus! {

/// A placement cell and the piece that occupies it.
#[derive(Clone, Debug)]
pub struct CatalogOccupiedCell {
    pub x: i32,
    pub y: i32,
    pub owner: String,
}

/// How a section search ended.
#[derive(Clone, Debug)]
pub enum CatalogRouteSearch {
    Found { cells: Vec<GridCell>, states_visited: u32 },
    NoPath { states_visited: u32 },
    BudgetExhausted { states_visited: u32 },
}

// ---------------------------------------------------------------------
// The model of the grid
// ---------------------------------------------------------------------

/// Position `i` holds the first occupied entry for cell (`x`, `y`).
pub open spec fn first_occupant(occ: Seq<CatalogOccupiedCell>, x: int, y: int, i: int) -> bool {
    &&& 0 <= i < occ.len()
    &&& occ[i].x == x
    &&& occ[i].y == y
    &&& forall|k: int| 0 <= k < i ==> !(occ[k].x == x && occ[k].y == y)
}

/// The piece occupying cell (`x`, `y`), if any.
pub open spec fn owner_at(occ: Seq<CatalogOccupiedCell>, x: int, y: int) -> Option<Seq<char>> {
    if exists|i: int| first_occupant(occ, x, y, i) {
        Some(occ[choose|i: int| first_occupant(occ, x, y, i)].owner@)
    } else {
        None
    }
}

/// What the search is asked: from where to where, around which pieces and
/// reserved cells, with which clearance and inside which bounds.
pub struct RouteWorld {
    pub start: GridCell,
    pub goal: GridCell,
    pub occupied: Seq<CatalogOccupiedCell>,
    pub reserved: Seq<GridCell>,
    pub terminals: Seq<Seq<char>>,
    pub clearance: int,
    pub bounds: CatalogGridBounds,
}

pub open spec fn abs(v: int) -> int {
    if v < 0 {
        -v
    } else {
        v
    }
}

/// A piece within the clearance of `cell` blocks it: any piece next to it,
/// and farther ones unless they are one of the section's own rooms.
pub open spec fn clearance_blocks(
    occupied: Seq<CatalogOccupiedCell>,
    terminals: Seq<Seq<char>>,
    clearance: int,
    cell: GridCell,
) -> bool {
    exists|dx: int, dy: int|
        1 <= abs(dx) + abs(dy) <= clearance && #[trigger] offset_blocks_spec(
            occupied,
            terminals,
            cell,
            dx,
            dy,
        )
}

/// Whether the piece at offset (`dx`, `dy`) from `cell`, if any, blocks it
/// (given that the offset is within the clearance).
pub open spec fn offset_blocks_spec(
    occupied: Seq<CatalogOccupiedCell>,
    terminals: Seq<Seq<char>>,
    cell: GridCell,
    dx: int,
    dy: int,
) -> bool {
    match owner_at(occupied, cell.x + dx, cell.y + dy) {
        Some(o) => abs(dx) + abs(dy) == 1 || !terminals.contains(o),
        None => false,
    }
}

/// A cell a section route may not enter: one other than its ends that is
/// occupied, reserved or within the clearance of a piece.
pub open spec fn section_cell_blocked(
    start: GridCell,
    goal: GridCell,
    occupied: Seq<CatalogOccupiedCell>,
    reserved: Seq<GridCell>,
    terminals: Seq<Seq<char>>,
    clearance: int,
    cell: GridCell,
) -> bool {
    &&& cell != start
    &&& cell != goal
    &&& (owner_at(occupied, cell.x as int, cell.y as int) is Some || reserved.contains(cell)
        || clearance_blocks(occupied, terminals, clearance, cell))
}

pub open spec fn cell_blocked(w: RouteWorld, cell: GridCell) -> bool {
    section_cell_blocked(w.start, w.goal, w.occupied, w.reserved, w.terminals, w.clearance, cell)
}

pub open spec fn in_bounds(b: CatalogGridBounds, c: GridCell) -> bool {
    b.min_x <= c.x <= b.max_x && b.min_y <= c.y <= b.max_y
}

/// A cell the route may step onto.
pub open spec fn route_open(w: RouteWorld, c: GridCell) -> bool {
    in_bounds(w.bounds, c) && !cell_blocked(w, c)
}

pub open spec fn adjacent(a: GridCell, b: GridCell) -> bool {
    abs(a.x - b.x) + abs(a.y - b.y) == 1
}

/// A route: from the start to the goal in unit steps, onto open cells.
pub open spec fn is_route(w: RouteWorld, cells: Seq<GridCell>) -> bool {
    &&& cells.len() >= 1
    &&& cells[0] == w.start
    &&& cells.last() == w.goal
    &&& forall|k: int|
        1 <= k < cells.len() ==> adjacent(cells[k - 1], #[trigger] cells[k]) && route_open(
            w,
            cells[k],
        )
}

/// The farthest that a cell inside the bounds lies from `g`, in steps.
pub open spec fn reach_from(b: CatalogGridBounds, g: GridCell) -> int {
    (if abs(b.min_x - g.x) > abs(b.max_x - g.x) {
        abs(b.min_x - g.x)
    } else {
        abs(b.max_x - g.x)
    }) + (if abs(b.min_y - g.y) > abs(b.max_y - g.y) {
        abs(b.min_y - g.y)
    } else {
        abs(b.max_y - g.y)
    })
}

pub open spec fn owned_texts(v: Seq<String>) -> Seq<Seq<char>> {
    Seq::new(v.len(), |i: int| v[i]@)
}

pub open spec fn world(
    start: GridCell,
    goal: GridCell,
    occupied: Seq<CatalogOccupiedCell>,
    reserved: Seq<GridCell>,
    terminals: Seq<String>,
    clearance: i32,
    bounds: CatalogGridBounds,
) -> RouteWorld {
    RouteWorld {
        start,
        goal,
        occupied,
        reserved,
        terminals: owned_texts(terminals),
        clearance: clearance as int,
        bounds,
    }
}

// ---------------------------------------------------------------------
// Blocked cells
// ---------------------------------------------------------------------

/// The first occupant of a cell, if any.
fn occupant(occupied: &Vec<CatalogOccupiedCell>, x: i32, y: i32) -> (r: Option<usize>)
    ensures
        match r {
            Some(i) => first_occupant(occupied@, x as int, y as int, i as int),
            None => forall|i: int| 0 <= i < occupied@.len() ==> !(occupied@[i].x == x && occupied@[i].y == y),
        },
{
    let mut i: usize = 0;
    while i < occupied.len()
        invariant
            i <= occupied@.len(),
            forall|k: int| 0 <= k < i ==> !(occupied@[k].x == x && occupied@[k].y == y),
        decreases occupied@.len() - i,
    {
        if occupied[i].x == x && occupied[i].y == y {
            return Some(i);
        }
        i = i + 1;
    }
    None
}

proof fn lemma_owner_at(occ: Seq<CatalogOccupiedCell>, x: int, y: int, i: int)
    requires
        first_occupant(occ, x, y, i),
    ensures
        owner_at(occ, x, y) == Some(occ[i].owner@),
{
    let j = choose|j: int| first_occupant(occ, x, y, j);
    assert(first_occupant(occ, x, y, j));
    if j < i {
        assert(!(occ[j].x == x && occ[j].y == y));
    } else if i < j {
        assert(!(occ[i].x == x && occ[i].y == y));
    }
}

proof fn lemma_no_owner(occ: Seq<CatalogOccupiedCell>, x: int, y: int)
    requires
        forall|i: int| 0 <= i < occ.len() ==> !(occ[i].x == x && occ[i].y == y),
    ensures
        owner_at(occ, x, y) is None,
{
    if exists|i: int| first_occupant(occ, x, y, i) {
        let i = choose|i: int| first_occupant(occ, x, y, i);
        assert(occ[i].x == x && occ[i].y == y);
    }
}

fn text_in(texts: &Vec<String>, t: &str) -> (r: bool)
    ensures
        r == owned_texts(texts@).contains(t@),
{
    let mut i: usize = 0;
    while i < texts.len()
        invariant
            i <= texts@.len(),
            forall|k: int| 0 <= k < i ==> texts@[k]@ != t@,
        decreases texts@.len() - i,
    {
        if str_eq(texts[i].as_str(), t) {
            assert(owned_texts(texts@)[i as int] == t@);
            return true;
        }
        i = i + 1;
    }
    proof {
        if owned_texts(texts@).contains(t@) {
            let k = choose|k: int| 0 <= k < owned_texts(texts@).len() && owned_texts(texts@)[k] == t@;
            assert(texts@[k]@ == t@);
        }
    }
    false
}

fn cell_in(cells: &Vec<GridCell>, c: &GridCell) -> (r: bool)
    ensures
        r == cells@.contains(*c),
{
    let mut i: usize = 0;
    while i < cells.len()
        invariant
            i <= cells@.len(),
            forall|k: int| 0 <= k < i ==> cells@[k] != *c,
        decreases cells@.len() - i,
    {
        if cells[i].x == c.x && cells[i].y == c.y {
            return true;
        }
        i = i + 1;
    }
    false
}

/// Whether a piece at offset (`dx`, `dy`) within the clearance blocks
/// `cell`.
fn offset_blocks(
    cell: &GridCell,
    dx: i32,
    dy: i32,
    occupied: &Vec<CatalogOccupiedCell>,
    terminal_rooms: &Vec<String>,
) -> (r: bool)
    requires
        i32::MIN <= cell.x + dx <= i32::MAX,
        i32::MIN <= cell.y + dy <= i32::MAX,
        -0x3fff_ffff <= dx <= 0x3fff_ffff,
        -0x3fff_ffff <= dy <= 0x3fff_ffff,
    ensures
        r == offset_blocks_spec(occupied@, owned_texts(terminal_rooms@), *cell, dx as int, dy as int),
{
    let ax: i32 = if dx < 0 {
        -dx
    } else {
        dx
    };
    let ay: i32 = if dy < 0 {
        -dy
    } else {
        dy
    };
    match occupant(occupied, cell.x + dx, cell.y + dy) {
        Some(i) => {
            proof {
                lemma_owner_at(occupied@, cell.x + dx, cell.y + dy, i as int);
            }
            ax + ay == 1 || !text_in(terminal_rooms, occupied[i].owner.as_str())
        },
        None => {
            proof {
                lemma_no_owner(occupied@, cell.x + dx, cell.y + dy);
            }
            false
        },
    }
}

/// Whether `cell` is closed to a section route from `start` to `goal`.
pub fn catalog_route_cell_blocked(
    cell: &GridCell,
    start: &GridCell,
    goal: &GridCell,
    occupied: &Vec<CatalogOccupiedCell>,
    reserved: &Vec<GridCell>,
    terminal_rooms: &Vec<String>,
    minimum_clearance_cells: i32,
) -> (r: bool)
    requires
        -0x3fff_ffff <= minimum_clearance_cells <= 0x3fff_ffff,
        minimum_clearance_cells >= 0 ==> i32::MIN <= cell.x - minimum_clearance_cells && cell.x
            + minimum_clearance_cells <= i32::MAX && i32::MIN <= cell.y - minimum_clearance_cells
            && cell.y + minimum_clearance_cells <= i32::MAX,
    ensures
        r == section_cell_blocked(
            *start,
            *goal,
            occupied@,
            reserved@,
            owned_texts(terminal_rooms@),
            minimum_clearance_cells as int,
            *cell,
        ),
{
    let ghost terms = owned_texts(terminal_rooms@);
    if (cell.x == start.x && cell.y == start.y) || (cell.x == goal.x && cell.y == goal.y) {
        return false;
    }
    match occupant(occupied, cell.x, cell.y) {
        Some(i) => {
            proof {
                lemma_owner_at(occupied@, cell.x as int, cell.y as int, i as int);
            }
            return true;
        },
        None => {
            proof {
                lemma_no_owner(occupied@, cell.x as int, cell.y as int);
            }
        },
    }
    if cell_in(reserved, cell) {
        return true;
    }
    let c = minimum_clearance_cells;
    if c < 1 {
        return false;
    }
    let mut dx: i32 = -c;
    while dx <= c
        invariant
            1 <= c <= 0x3fff_ffff,
            c == minimum_clearance_cells,
            -c <= dx <= c + 1,
            i32::MIN <= cell.x - c,
            cell.x + c <= i32::MAX,
            i32::MIN <= cell.y - c,
            cell.y + c <= i32::MAX,
            terms == owned_texts(terminal_rooms@),
            *cell != *start,
            *cell != *goal,
            forall|ex: int, ey: int|
                -c <= ex < dx && 1 <= abs(ex) + abs(ey) <= c ==> !#[trigger] offset_blocks_spec(
                    occupied@,
                    terms,
                    *cell,
                    ex,
                    ey,
                ),
        decreases c + 1 - dx,
    {
        let mut dy: i32 = -c;
        while dy <= c
            invariant
                1 <= c <= 0x3fff_ffff,
                c == minimum_clearance_cells,
                -c <= dx <= c,
                -c <= dy <= c + 1,
                i32::MIN <= cell.x - c,
                cell.x + c <= i32::MAX,
                i32::MIN <= cell.y - c,
                cell.y + c <= i32::MAX,
                terms == owned_texts(terminal_rooms@),
                *cell != *start,
                *cell != *goal,
                forall|ex: int, ey: int|
                    -c <= ex < dx && 1 <= abs(ex) + abs(ey) <= c ==> !#[trigger] offset_blocks_spec(
                        occupied@,
                        terms,
                        *cell,
                        ex,
                        ey,
                    ),
                forall|ey: int|
                    -c <= ey < dy && 1 <= abs(dx as int) + abs(ey) <= c ==> !#[trigger] offset_blocks_spec(
                        occupied@,
                        terms,
                        *cell,
                        dx as int,
                        ey,
                    ),
            decreases c + 1 - dy,
        {
            let ax: i32 = if dx < 0 {
                -dx
            } else {
                dx
            };
            let ay: i32 = if dy < 0 {
                -dy
            } else {
                dy
            };
            let distance: i32 = ax + ay;
            if distance != 0 && distance <= c {
                if offset_blocks(cell, dx, dy, occupied, terminal_rooms) {
                    proof {
                        assert(abs(dx as int) + abs(dy as int) == distance);
                        assert(offset_blocks_spec(occupied@, terms, *cell, dx as int, dy as int));
                        assert(clearance_blocks(occupied@, terms, c as int, *cell));
                    }
                    return true;
                }
            }
            dy = dy + 1;
        }
        proof {
            assert forall|ex: int, ey: int|
                -c <= ex < dx + 1 && 1 <= abs(ex) + abs(ey) <= c implies !#[trigger] offset_blocks_spec(
                    occupied@,
                    terms,
                    *cell,
                    ex,
                    ey,
                ) by {
                if ex == dx {
                    assert(-c <= ey <= c);
                }
            }
        }
        dx = dx + 1;
    }
    false
}

// ---------------------------------------------------------------------
// The search
// ---------------------------------------------------------------------

/// A searched state: a cell, the heading it was entered with (4 for the
/// start), its best known cost and the state it was reached from.
#[derive(Clone, Copy)]
/// A searched state: a cell, the heading it was entered in (4 for the
/// start), its best known cost and the table position it was reached from.
pub struct RouteEntry {
    pub x: i32,
    pub y: i32,
    pub dir: u8,
    pub cost: u64,
    pub prev: usize,
}

pub open spec fn entry_cell(e: RouteEntry) -> GridCell {
    GridCell { x: e.x, y: e.y }
}

pub open spec fn delta_x(d: int) -> int {
    if d == 1 {
        1
    } else if d == 3 {
        -1
    } else {
        0
    }
}

pub open spec fn delta_y(d: int) -> int {
    if d == 0 {
        -1
    } else if d == 2 {
        1
    } else {
        0
    }
}

/// The cell one step from `c` in heading `d` (north, east, south, west).
pub open spec fn step_of(c: GridCell, d: int) -> GridCell {
    GridCell { x: (c.x + delta_x(d)) as i32, y: (c.y + delta_y(d)) as i32 }
}

pub open spec fn same_key(e: RouteEntry, x: int, y: int, d: int) -> bool {
    e.x == x && e.y == y && e.dir == d
}

/// The table of searched states: the start first, keys unique, and every
/// other state one step onto an open cell from the state it was reached
/// from.
spec fn table_ok(w: RouteWorld, t: Seq<RouteEntry>) -> bool {
    &&& t.len() >= 1
    &&& t[0].x == w.start.x && t[0].y == w.start.y && t[0].dir == 4 && t[0].cost == 0
    &&& forall|i: int, j: int|
        0 <= i < t.len() && 0 <= j < t.len() && i != j ==> !same_key(
            #[trigger] t[i],
            (#[trigger] t[j]).x as int,
            t[j].y as int,
            t[j].dir as int,
        )
    &&& forall|i: int|
        1 <= i < t.len() ==> {
            &&& (#[trigger] t[i]).dir < 4
            &&& t[i].prev < t.len()
            &&& t[i].x == t[t[i].prev as int].x + delta_x(t[i].dir as int)
            &&& t[i].y == t[t[i].prev as int].y + delta_y(t[i].dir as int)
            &&& route_open(w, entry_cell(t[i]))
        }
}

spec fn lex_lt(c1: int, t1: int, c2: int, t2: int) -> bool {
    c1 < c2 || (c1 == c2 && t1 < t2)
}

/// Each state was last improved at a time before `now`, and the state it
/// was reached from is cheaper, or as cheap and improved earlier.
spec fn ranks_ok(t: Seq<RouteEntry>, times: Seq<int>, now: int) -> bool {
    &&& times.len() == t.len()
    &&& forall|i: int| 0 <= i < t.len() ==> 0 <= #[trigger] times[i] < now
    &&& forall|i: int|
        1 <= i < t.len() ==> lex_lt(
            t[t[i].prev as int].cost as int,
            times[t[i].prev as int],
            (#[trigger] t[i]).cost as int,
            times[i],
        )
}

spec fn frontier_ok(f: Seq<(u64, u64, usize)>, n: int) -> bool {
    forall|k: int| 0 <= k < f.len() ==> (#[trigger] f[k]).2 < n
}

/// State `i` waits in the frontier at its current cost.
spec fn open_in(f: Seq<(u64, u64, usize)>, t: Seq<RouteEntry>, i: int) -> bool {
    exists|k: int| 0 <= k < f.len() && (#[trigger] f[k]).2 == i && f[k].1 == t[i].cost
}

/// Every open cell one step from state `i` has a state in the table.
spec fn expanded(w: RouteWorld, t: Seq<RouteEntry>, i: int) -> bool {
    forall|d: int|
        0 <= d < 4 && #[trigger] route_open(w, step_of(entry_cell(t[i]), d)) ==> exists|j: int|
            0 <= j < t.len() && same_key(
                #[trigger] t[j],
                step_of(entry_cell(t[i]), d).x as int,
                step_of(entry_cell(t[i]), d).y as int,
                d,
            )
}

/// State `i` waits in the frontier, or it has been expanded and is not at
/// the goal.
spec fn settled(w: RouteWorld, f: Seq<(u64, u64, usize)>, t: Seq<RouteEntry>, i: int) -> bool {
    open_in(f, t, i) || (expanded(w, t, i) && entry_cell(t[i]) != w.goal)
}

/// State `a` is greater than state `b` in the order of (x, y, heading).
pub open spec fn state_greater(a: RouteEntry, b: RouteEntry) -> bool {
    a.x > b.x || (a.x == b.x && (a.y > b.y || (a.y == b.y && a.dir > b.dir)))
}

/// Frontier item `a` leaves the queue before `b`: a lower estimate, then a
/// lower cost, then a greater state, as a max-heap of reversed
/// (estimate, cost) pairs and states pops them.
pub open spec fn pops_before(a: (u64, u64, usize), b: (u64, u64, usize), t: Seq<RouteEntry>) -> bool {
    a.0 < b.0 || (a.0 == b.0 && (a.1 < b.1 || (a.1 == b.1 && state_greater(t[a.2 as int], t[b.2 as int]))))
}


// ---------------------------------------------------------------------
// The search, step by step
// ---------------------------------------------------------------------

/// The position the queue pops among the first `n` frontier items: the
/// earliest item that no later one pops before.
pub open spec fn best_of(f: Seq<(u64, u64, usize)>, t: Seq<RouteEntry>, n: int) -> int
    decreases n,
{
    if n <= 1 {
        0
    } else {
        let b = best_of(f, t, n - 1);
        if pops_before(f[n - 1], f[b], t) {
            n - 1
        } else {
            b
        }
    }
}

/// `j` is the first table position holding state (`x`, `y`, `d`).
pub open spec fn first_key(t: Seq<RouteEntry>, x: int, y: int, d: int, j: int) -> bool {
    &&& 0 <= j < t.len()
    &&& same_key(t[j], x, y, d)
    &&& forall|m: int| 0 <= m < j ==> !same_key(#[trigger] t[m], x, y, d)
}

/// The table position of state (`x`, `y`, `d`), if it has been reached.
pub open spec fn key_index(t: Seq<RouteEntry>, x: int, y: int, d: int) -> Option<int> {
    if exists|j: int| first_key(t, x, y, d, j) {
        Some(choose|j: int| first_key(t, x, y, d, j))
    } else {
        None
    }
}

/// `a * b`, or `u64::MAX` where it does not fit.
pub open spec fn mul_sat(a: u64, b: u64) -> u64 {
    if a * b > u64::MAX {
        u64::MAX
    } else {
        (a * b) as u64
    }
}

/// The queue estimate of a state at `next` reached at `cost`: the cost and
/// the step distance to the goal, saturating.
pub open spec fn estimate(next: GridCell, goal: GridCell, cost: u64) -> u64 {
    cost.saturating_add((abs(next.x - goal.x) + abs(next.y - goal.y)) as u64)
}

/// Offering state (`next`, `d`) at `cost`, reached from position `u`: a new
/// state is appended and queued; a known one is improved and queued again
/// only when `cost` is lower.
#[verifier::opaque]
pub open spec fn relax_spec(
    t: Seq<RouteEntry>,
    f: Seq<(u64, u64, usize)>,
    u: usize,
    d: u8,
    next: GridCell,
    cost: u64,
    goal: GridCell,
) -> (Seq<RouteEntry>, Seq<(u64, u64, usize)>) {
    match key_index(t, next.x as int, next.y as int, d as int) {
        Some(j) => if cost < t[j].cost {
            (
                t.update(j, RouteEntry { x: t[j].x, y: t[j].y, dir: d, cost, prev: u }),
                f.push((estimate(next, goal, cost), cost, j as usize)),
            )
        } else {
            (t, f)
        },
        None => (
            t.push(RouteEntry { x: next.x, y: next.y, dir: d, cost, prev: u }),
            f.push((estimate(next, goal, cost), cost, t.len() as usize)),
        ),
    }
}

/// The table and frontier `t1`, `f1` are those that `relax_spec` gives.
#[verifier::opaque]
pub open spec fn relaxed_to(
    t: Seq<RouteEntry>,
    f: Seq<(u64, u64, usize)>,
    u: usize,
    d: u8,
    next: GridCell,
    cost: u64,
    goal: GridCell,
    t1: Seq<RouteEntry>,
    f1: Seq<(u64, u64, usize)>,
) -> bool {
    (t1, f1) == relax_spec(t, f, u, d, next, cost, goal)
}

/// What a section search runs with.
pub struct SearchParams {
    pub w: RouteWorld,
    pub guide: Seq<GridCell>,
    pub weight: u32,
    pub turn: u32,
    pub budget: u32,
}

pub open spec fn params_of(
    w: RouteWorld,
    guide: Seq<GridCell>,
    policy: CatalogAwareGenerationPolicy,
) -> SearchParams {
    SearchParams {
        w,
        guide,
        weight: policy.guide_distance_weight,
        turn: policy.turn_penalty,
        budget: policy.max_routing_states_per_section,
    }
}

/// The cost of reaching `next` from state `e` in heading `d`: one step, the
/// weighted guide distance of `next`, and the turn penalty when the heading
/// changes, all saturating.
pub open spec fn next_cost(
    guide: Seq<GridCell>,
    weight: u32,
    turn_penalty: u32,
    e: RouteEntry,
    d: u8,
    next: GridCell,
) -> u64 {
    let turn: u64 = if e.dir < 4 && e.dir != d {
        turn_penalty as u64
    } else {
        0
    };
    let step = 1u64.saturating_add(mul_sat(guide_min(next, guide) as u64, weight as u64)).saturating_add(turn);
    e.cost.saturating_add(step)
}

/// Offering the neighbour of position `idx` in heading `d`, when it is open.
#[verifier::opaque]
pub open spec fn expand_spec(
    p: SearchParams,
    t: Seq<RouteEntry>,
    f: Seq<(u64, u64, usize)>,
    idx: usize,
    d: u8,
) -> (Seq<RouteEntry>, Seq<(u64, u64, usize)>) {
    let e = t[idx as int];
    let next = step_of(entry_cell(e), d as int);
    if route_open(p.w, next) {
        relax_spec(t, f, idx, d, next, next_cost(p.guide, p.weight, p.turn, e, d, next), p.w.goal)
    } else {
        (t, f)
    }
}

/// Offering the neighbours of position `idx` in the first `n` headings.
pub open spec fn expand_upto(
    p: SearchParams,
    t: Seq<RouteEntry>,
    f: Seq<(u64, u64, usize)>,
    idx: usize,
    n: nat,
) -> (Seq<RouteEntry>, Seq<(u64, u64, usize)>)
    decreases n,
{
    if n == 0 {
        (t, f)
    } else {
        let prior = expand_upto(p, t, f, idx, (n - 1) as nat);
        expand_spec(p, prior.0, prior.1, idx, (n - 1) as u8)
    }
}

/// Where a section search stands.
pub enum SearchState {
    Running { table: Seq<RouteEntry>, frontier: Seq<(u64, u64, usize)>, visited: nat },
    Reached { table: Seq<RouteEntry>, at: int, visited: nat },
    Unreachable { visited: nat },
    OverBudget { visited: nat },
}

/// The search before its first step: the start state alone, queued at 0.
pub open spec fn initial_search(p: SearchParams) -> SearchState {
    SearchState::Running {
        table: seq![RouteEntry { x: p.w.start.x, y: p.w.start.y, dir: 4, cost: 0, prev: 0 }],
        frontier: seq![(0u64, 0u64, 0usize)],
        visited: 0,
    }
}

/// One step of the search: pop the queue's next item; skip it when its
/// state has since become cheaper; else count it as visited, give up past
/// the budget, stop at the goal, or offer its four neighbours.
pub open spec fn search_step(p: SearchParams, s: SearchState) -> SearchState {
    match s {
        SearchState::Running { table: t, frontier: f, visited: v } => {
            if f.len() == 0 {
                SearchState::Unreachable { visited: v }
            } else {
                let k = best_of(f, t, f.len() as int);
                let item = f[k];
                let rest = f.remove(k);
                let idx = item.2;
                if t[idx as int].cost != item.1 {
                    SearchState::Running { table: t, frontier: rest, visited: v }
                } else if v + 1 > p.budget {
                    SearchState::OverBudget { visited: v + 1 }
                } else if entry_cell(t[idx as int]) == p.w.goal {
                    SearchState::Reached { table: t, at: idx as int, visited: v + 1 }
                } else {
                    let out = expand_upto(p, t, rest, idx, 4);
                    SearchState::Running { table: out.0, frontier: out.1, visited: v + 1 }
                }
            }
        },
        _ => s,
    }
}

/// The search after `n` steps.
pub open spec fn search_run(p: SearchParams, n: nat) -> SearchState
    decreases n,
{
    if n == 0 {
        initial_search(p)
    } else {
        search_step(p, search_run(p, (n - 1) as nat))
    }
}

/// `cells` are the cells of the states met following the reached-from
/// links back from position `at` to the start, in start-to-goal order.
pub open spec fn chain_cells(t: Seq<RouteEntry>, at: int, cells: Seq<GridCell>) -> bool {
    exists|ids: Seq<int>| #[trigger] chain_ids(t, at, cells, ids)
}

pub open spec fn chain_ids(t: Seq<RouteEntry>, at: int, cells: Seq<GridCell>, ids: Seq<int>) -> bool {
    &&& ids.len() == cells.len()
    &&& ids.len() >= 1
    &&& ids[0] == 0
    &&& ids.last() == at
    &&& forall|i: int| 0 <= i < ids.len() ==> 0 <= #[trigger] ids[i] < t.len()
    &&& forall|i: int| 0 <= i < ids.len() ==> cells[i] == entry_cell(t[#[trigger] ids[i]])
    &&& forall|i: int| 0 < i < ids.len() ==> #[trigger] ids[i] != 0
    &&& forall|i: int| 0 <= i < ids.len() - 1 ==> ids[i] == t[#[trigger] ids[i + 1]].prev
}

/// The answer `r` reports the finished search `s`.
pub open spec fn search_answer(s: SearchState, r: CatalogRouteSearch) -> bool {
    match s {
        SearchState::Reached { table, at, visited } => match r {
            CatalogRouteSearch::Found { cells, states_visited } => states_visited == visited
                && chain_cells(table, at, cells@),
            _ => false,
        },
        SearchState::Unreachable { visited } => match r {
            CatalogRouteSearch::NoPath { states_visited } => states_visited == visited,
            _ => false,
        },
        SearchState::OverBudget { visited } => match r {
            CatalogRouteSearch::BudgetExhausted { states_visited } => states_visited == visited,
            _ => false,
        },
        SearchState::Running { .. } => false,
    }
}


/// Two answers report the same outcome: the same variant, the same count
/// of visited states and, for a found route, the same cells.
pub open spec fn same_answer(a: CatalogRouteSearch, b: CatalogRouteSearch) -> bool {
    match (a, b) {
        (
            CatalogRouteSearch::Found { cells: c1, states_visited: v1 },
            CatalogRouteSearch::Found { cells: c2, states_visited: v2 },
        ) => c1@ == c2@ && v1 == v2,
        (
            CatalogRouteSearch::NoPath { states_visited: v1 },
            CatalogRouteSearch::NoPath { states_visited: v2 },
        ) => v1 == v2,
        (
            CatalogRouteSearch::BudgetExhausted { states_visited: v1 },
            CatalogRouteSearch::BudgetExhausted { states_visited: v2 },
        ) => v1 == v2,
        _ => false,
    }
}

proof fn lemma_finished_stays(p: SearchParams, n: nat, m: nat)
    requires
        n <= m,
        !(search_run(p, n) is Running),
    ensures
        search_run(p, m) == search_run(p, n),
    decreases m,
{
    if m > n {
        lemma_finished_stays(p, n, (m - 1) as nat);
    }
}

proof fn lemma_chain_tail(
    t: Seq<RouteEntry>,
    at: int,
    c1: Seq<GridCell>,
    ids1: Seq<int>,
    c2: Seq<GridCell>,
    ids2: Seq<int>,
    k: int,
)
    requires
        chain_ids(t, at, c1, ids1),
        chain_ids(t, at, c2, ids2),
        0 <= k < ids1.len(),
        k < ids2.len(),
    ensures
        ids1[ids1.len() - 1 - k] == ids2[ids2.len() - 1 - k],
    decreases k,
{
    if k > 0 {
        lemma_chain_tail(t, at, c1, ids1, c2, ids2, k - 1);
        let i1 = ids1.len() - 1 - k;
        let i2 = ids2.len() - 1 - k;
        assert(ids1[i1] == t[ids1[i1 + 1]].prev);
        assert(ids2[i2] == t[ids2[i2 + 1]].prev);
    }
}

/// The cells of the reached-from chain back from a position are unique.
pub proof fn lemma_chain_unique(t: Seq<RouteEntry>, at: int, c1: Seq<GridCell>, c2: Seq<GridCell>)
    requires
        chain_cells(t, at, c1),
        chain_cells(t, at, c2),
    ensures
        c1 == c2,
{
    let ids1 = choose|ids: Seq<int>| chain_ids(t, at, c1, ids);
    let ids2 = choose|ids: Seq<int>| chain_ids(t, at, c2, ids);
    let l1 = ids1.len() as int;
    let l2 = ids2.len() as int;
    if l1 < l2 {
        lemma_chain_tail(t, at, c1, ids1, c2, ids2, l1 - 1);
        assert(ids2[l2 - l1] != 0);
    } else if l2 < l1 {
        lemma_chain_tail(t, at, c2, ids2, c1, ids1, l2 - 1);
        assert(ids1[l1 - l2] != 0);
    }
    assert forall|i: int| 0 <= i < l1 implies c1[i] == c2[i] by {
        lemma_chain_tail(t, at, c1, ids1, c2, ids2, l1 - 1 - i);
        assert(c1[i] == entry_cell(t[ids1[i]]));
        assert(c2[i] == entry_cell(t[ids2[i]]));
    }
    assert(c1 =~= c2);
}

/// The search has one answer: any two answers that report a finished
/// run of the same search agree.
pub proof fn lemma_search_answer_unique(
    p: SearchParams,
    n1: nat,
    n2: nat,
    r1: CatalogRouteSearch,
    r2: CatalogRouteSearch,
)
    requires
        search_answer(search_run(p, n1), r1),
        search_answer(search_run(p, n2), r2),
    ensures
        same_answer(r1, r2),
{
    if n1 <= n2 {
        lemma_finished_stays(p, n1, n2);
    } else {
        lemma_finished_stays(p, n2, n1);
    }
    let s = search_run(p, n1);
    if let SearchState::Reached { table, at, visited } = s {
        if let CatalogRouteSearch::Found { cells: a, states_visited: _ } = r1 {
            if let CatalogRouteSearch::Found { cells: b, states_visited: _ } = r2 {
                lemma_chain_unique(table, at, a@, b@);
            }
        }
    }
}

/// The frontier position holding the next state to expand: the lowest
/// estimate, then the lowest cost, then the greatest cell and heading.
fn best_index(f: &Vec<(u64, u64, usize)>, t: &Vec<RouteEntry>) -> (k: usize)
    requires
        f@.len() > 0,
        frontier_ok(f@, t@.len() as int),
    ensures
        k < f@.len(),
        k == best_of(f@, t@, f@.len() as int),
        forall|j: int| 0 <= j < f@.len() ==> !pops_before(#[trigger] f@[j], f@[k as int], t@),
{
    let mut best: usize = 0;
    let mut i: usize = 1;
    while i < f.len()
        invariant
            best < i <= f@.len(),
            best == best_of(f@, t@, i as int),
            frontier_ok(f@, t@.len() as int),
            forall|j: int| 0 <= j < i ==> !pops_before(#[trigger] f@[j], f@[best as int], t@),
        decreases f@.len() - i,
    {
        let a = f[i];
        let b = f[best];
        let ea = &t[a.2];
        let eb = &t[b.2];
        let state_greater = ea.x > eb.x || (ea.x == eb.x && (ea.y > eb.y || (ea.y == eb.y
            && ea.dir > eb.dir)));
        if a.0 < b.0 || (a.0 == b.0 && (a.1 < b.1 || (a.1 == b.1 && state_greater))) {
            assert(pops_before(a, b, t@));
            assert forall|j: int| 0 <= j < i + 1 implies !pops_before(#[trigger] f@[j], a, t@) by {
                if j < i {
                    assert(!pops_before(f@[j], b, t@));
                }
            }
            best = i;
        }
        i = i + 1;
    }
    best
}

/// The table position of a state, if it has been reached.
fn find_entry(t: &Vec<RouteEntry>, x: i32, y: i32, d: u8) -> (r: Option<usize>)
    ensures
        match r {
            Some(j) => j < t@.len() && same_key(t@[j as int], x as int, y as int, d as int),
            None => forall|j: int| 0 <= j < t@.len() ==> !same_key(#[trigger] t@[j], x as int, y as int, d as int),
        },
        match r {
            Some(j) => key_index(t@, x as int, y as int, d as int) == Some(j as int),
            None => key_index(t@, x as int, y as int, d as int) is None,
        },
{
    let mut j: usize = 0;
    while j < t.len()
        invariant
            j <= t@.len(),
            forall|k: int| 0 <= k < j ==> !same_key(#[trigger] t@[k], x as int, y as int, d as int),
        decreases t@.len() - j,
    {
        if t[j].x == x && t[j].y == y && t[j].dir == d {
            proof {
                assert(first_key(t@, x as int, y as int, d as int, j as int));
                assert forall|j2: int| first_key(t@, x as int, y as int, d as int, j2) implies j2 == j by {
                    if j2 < j {
                        assert(!same_key(t@[j2], x as int, y as int, d as int));
                    }
                    if j2 > j {
                        assert(!same_key(t@[j as int], x as int, y as int, d as int));
                    }
                }
            }
            return Some(j);
        }
        j = j + 1;
    }
    proof {
        assert forall|j2: int| !first_key(t@, x as int, y as int, d as int, j2) by {
            if 0 <= j2 < t@.len() {
                assert(!same_key(t@[j2], x as int, y as int, d as int));
            }
        }
    }
    None
}

/// |a - b| for cells inside the bounds.
fn gap(a: i32, b: i32) -> (r: u64)
    ensures
        r == abs(a - b),
{
    if a >= b {
        (a as i64 - b as i64) as u64
    } else {
        (b as i64 - a as i64) as u64
    }
}

/// Offers state (`next`, `d`) at `next_cost`, reached from state `u`: it
/// is recorded and queued when it is new or cheaper than before.
fn relax(
    table: &mut Vec<RouteEntry>,
    frontier: &mut Vec<(u64, u64, usize)>,
    u: usize,
    d: u8,
    next: GridCell,
    next_cost: u64,
    goal: &GridCell,
    Ghost(w): Ghost<RouteWorld>,
    Ghost(times): Ghost<Seq<int>>,
    Ghost(now): Ghost<int>,
) -> (r: (Ghost<Seq<int>>, Ghost<int>))
    requires
        table_ok(w, old(table)@),
        ranks_ok(old(table)@, times, now),
        frontier_ok(old(frontier)@, old(table)@.len() as int),
        u < old(table)@.len(),
        d < 4,
        next.x == old(table)@[u as int].x + delta_x(d as int),
        next.y == old(table)@[u as int].y + delta_y(d as int),
        route_open(w, next),
        next_cost >= old(table)@[u as int].cost,
        next_cost >= 1,
        *goal == w.goal,
        reach_from(w.bounds, *goal) <= u32::MAX,
        in_bounds(w.bounds, next),
    ensures
        table_ok(w, final(table)@),
        ranks_ok(final(table)@, r.0@, r.1@),
        frontier_ok(final(frontier)@, final(table)@.len() as int),
        r.1@ >= now,
        old(table)@.len() <= final(table)@.len() <= old(table)@.len() + 1,
        old(frontier)@.len() <= final(frontier)@.len() <= old(frontier)@.len() + 1,
        final(frontier)@.subrange(0, old(frontier)@.len() as int) == old(frontier)@,
        forall|i: int|
            0 <= i < old(table)@.len() ==> same_key(
                #[trigger] final(table)@[i],
                old(table)@[i].x as int,
                old(table)@[i].y as int,
                old(table)@[i].dir as int,
            ),
        forall|i: int|
            0 <= i < final(table)@.len() ==> (i < old(table)@.len() && (#[trigger] final(table)@[i]).cost
                == old(table)@[i].cost) || open_in(final(frontier)@, final(table)@, i),
        final(table)@[u as int] == old(table)@[u as int],
        exists|j: int|
            0 <= j < final(table)@.len() && same_key(
                #[trigger] final(table)@[j],
                next.x as int,
                next.y as int,
                d as int,
            ),
        relaxed_to(old(table)@, old(frontier)@, u, d, next, next_cost, *goal, final(table)@, final(frontier)@),
{
    reveal(relax_spec);
    reveal(relaxed_to);
    let ghost t0 = table@;
    let ghost f0 = frontier@;
    let gx = gap(next.x, goal.x);
    let gy = gap(next.y, goal.y);
    assert(gx + gy <= reach_from(w.bounds, *goal));
    let heuristic: u64 = gx + gy;
    let priority = next_cost.saturating_add(heuristic);
    match find_entry(table, next.x, next.y, d) {
        Some(j) => {
            if next_cost < table[j].cost {
                let old_entry = table[j];
                table.set(j, RouteEntry { x: old_entry.x, y: old_entry.y, dir: d, cost: next_cost, prev: u });
                frontier.push((priority, next_cost, j));
                let ghost t2 = times.update(j as int, now);
                proof {
                    assert(j != u) by {
                        if j == u {
                            assert(t0[u as int].x == next.x && t0[u as int].y == next.y);
                        }
                    }
                    assert(frontier@.subrange(0, f0.len() as int) =~= f0);
                    assert(frontier@[f0.len() as int] == (priority, next_cost, j));
                    assert forall|i: int|
                        0 <= i < table@.len() && i != j implies (#[trigger] table@[i]) == t0[i] by {}
                    assert forall|i: int| 1 <= i < table@.len() implies lex_lt(
                        table@[table@[i].prev as int].cost as int,
                        t2[table@[i].prev as int],
                        (#[trigger] table@[i]).cost as int,
                        t2[i],
                    ) by {
                        if i != j as int {
                            assert(t0[i].prev == table@[i].prev);
                        }
                    }
                    assert(open_in(frontier@, table@, j as int)) by {
                        assert(frontier@[f0.len() as int].2 == j);
                    }
                    assert forall|i: int|
                        0 <= i < table@.len() implies (i < t0.len() && (#[trigger] table@[i]).cost
                            == t0[i].cost) || open_in(frontier@, table@, i) by {
                        if i == j as int {
                            assert(open_in(frontier@, table@, j as int));
                        }
                    }
                    assert(same_key(table@[j as int], next.x as int, next.y as int, d as int));
                }
                return (Ghost(t2), Ghost(now + 1));
            }
            proof {
                assert(same_key(table@[j as int], next.x as int, next.y as int, d as int));
                assert(frontier@.subrange(0, f0.len() as int) =~= f0);
            }
            (Ghost(times), Ghost(now))
        },
        None => {
            let n = table.len();
            table.push(RouteEntry { x: next.x, y: next.y, dir: d, cost: next_cost, prev: u });
            frontier.push((priority, next_cost, n));
            let ghost t2 = times.push(now);
            proof {
                assert(frontier@.subrange(0, f0.len() as int) =~= f0);
                assert(frontier@[f0.len() as int] == (priority, next_cost, n));
                assert forall|i: int| 0 <= i < t0.len() implies (#[trigger] table@[i]) == t0[i] by {}
                assert forall|i: int| 0 <= i < table@.len() implies 0 <= #[trigger] t2[i] < now + 1 by {
                    if i < t0.len() {
                        assert(t2[i] == times[i]);
                    } else {
                        assert(0 <= times[0] < now);
                    }
                }
                assert forall|i: int| 1 <= i < table@.len() implies lex_lt(
                    table@[table@[i].prev as int].cost as int,
                    t2[table@[i].prev as int],
                    (#[trigger] table@[i]).cost as int,
                    t2[i],
                ) by {
                    if i < t0.len() {
                        assert(table@[i] == t0[i]);
                        assert(t2[i] == times[i]);
                        assert(t2[t0[i].prev as int] == times[t0[i].prev as int]);
                    } else {
                        assert(table@[i].prev == u);
                        assert(t2[u as int] == times[u as int]);
                    }
                }
                assert(open_in(frontier@, table@, n as int)) by {
                    assert(frontier@[f0.len() as int].2 == n);
                }
                assert forall|i: int|
                    0 <= i < table@.len() implies (i < t0.len() && (#[trigger] table@[i]).cost
                        == t0[i].cost) || open_in(frontier@, table@, i) by {
                    if i == n as int {
                        assert(open_in(frontier@, table@, n as int));
                    }
                }
                assert(same_key(table@[n as int], next.x as int, next.y as int, d as int));
            }
            (Ghost(t2), Ghost(now + 1))
        },
    }
}

/// Following the states back from one at the goal gives a route.
fn rebuild(
    t: &Vec<RouteEntry>,
    f: usize,
    Ghost(w): Ghost<RouteWorld>,
    Ghost(times): Ghost<Seq<int>>,
    Ghost(now): Ghost<int>,
) -> (cells: Vec<GridCell>)
    requires
        table_ok(w, t@),
        ranks_ok(t@, times, now),
        f < t@.len(),
        entry_cell(t@[f as int]) == w.goal,
    ensures
        is_route(w, cells@),
        chain_cells(t@, f as int, cells@),
{
    let mut rev: Vec<GridCell> = Vec::new();
    rev.push(GridCell { x: t[f].x, y: t[f].y });
    let mut idx: usize = f;
    let ghost mut rids: Seq<int> = seq![f as int];
    while idx != 0
        invariant
            rids.len() == rev@.len(),
            rids[0] == f,
            rids.last() == idx,
            forall|k: int| 0 <= k < rids.len() ==> 0 <= #[trigger] rids[k] < t@.len(),
            forall|k: int| 0 <= k < rids.len() ==> rev@[k] == entry_cell(t@[#[trigger] rids[k]]),
            forall|k: int| 0 <= k < rids.len() - 1 ==> #[trigger] rids[k] != 0,
            forall|k: int| 0 <= k < rids.len() - 1 ==> rids[k + 1] == t@[#[trigger] rids[k]].prev,
            table_ok(w, t@),
            ranks_ok(t@, times, now),
            idx < t@.len(),
            rev@.len() >= 1,
            rev@[0] == w.goal,
            rev@.last() == entry_cell(t@[idx as int]),
            forall|k: int|
                0 <= k < rev@.len() - 1 ==> adjacent(#[trigger] rev@[k], rev@[k + 1]) && route_open(
                    w,
                    rev@[k],
                ),
        decreases t@[idx as int].cost * (now + 1) + times[idx as int],
    {
        let p = t[idx].prev;
        proof {
            let ci = t@[idx as int].cost as int;
            let cp = t@[p as int].cost as int;
            let ti = times[idx as int];
            let tp = times[p as int];
            assert(lex_lt(cp, tp, ci, ti));
            assert(0 <= tp < now && 0 <= ti < now);
            assert(cp * (now + 1) + tp < ci * (now + 1) + ti) by (nonlinear_arith)
                requires
                    lex_lt(cp, tp, ci, ti),
                    0 <= tp < now,
                    0 <= ti < now,
                    0 <= cp,
            ;
        }
        let ghost old_rev = rev@;
        let ghost old_rids = rids;
        rev.push(GridCell { x: t[p].x, y: t[p].y });
        proof {
            rids = rids.push(p as int);
            assert forall|k: int| 0 <= k < rids.len() - 1 implies rids[k + 1] == t@[#[trigger] rids[k]].prev by {
                if k < old_rids.len() - 1 {
                    assert(rids[k] == old_rids[k] && rids[k + 1] == old_rids[k + 1]);
                }
            }
            assert forall|k: int| 0 <= k < rids.len() implies rev@[k] == entry_cell(t@[#[trigger] rids[k]]) by {
                if k < old_rids.len() {
                    assert(rids[k] == old_rids[k] && rev@[k] == old_rev[k]);
                }
            }
            assert forall|k: int|
                0 <= k < rev@.len() - 1 implies adjacent(#[trigger] rev@[k], rev@[k + 1]) && route_open(
                    w,
                    rev@[k],
                ) by {
                if k < old_rev.len() - 1 {
                    assert(rev@[k] == old_rev[k] && rev@[k + 1] == old_rev[k + 1]);
                } else {
                    assert(rev@[k] == entry_cell(t@[idx as int]));
                }
            }
        }
        idx = p;
    }
    let n = rev.len();
    let mut cells: Vec<GridCell> = Vec::new();
    let mut k: usize = n;
    while k > 0
        invariant
            n == rev@.len(),
            n >= 1,
            k <= n,
            cells@.len() == n - k,
            forall|i: int| 0 <= i < cells@.len() ==> #[trigger] cells@[i] == rev@[n - 1 - i],
        decreases k,
    {
        k = k - 1;
        cells.push(rev[k]);
    }
    proof {
        let ids = Seq::new(n as nat, |i: int| rids[n - 1 - i]);
        assert forall|i: int| 0 <= i < ids.len() - 1 implies ids[i] == t@[#[trigger] ids[i + 1]].prev by {
            assert(ids[i + 1] == rids[n - 2 - i]);
            assert(ids[i] == rids[n - 2 - i + 1]);
        }
        assert forall|i: int| 0 < i < ids.len() implies #[trigger] ids[i] != 0 by {
            assert(ids[i] == rids[n - 1 - i]);
        }
        assert forall|i: int| 0 <= i < ids.len() implies cells@[i] == entry_cell(t@[#[trigger] ids[i]]) by {
            assert(ids[i] == rids[n - 1 - i]);
        }
        assert forall|i: int| 0 <= i < ids.len() implies 0 <= #[trigger] ids[i] < t@.len() by {
            assert(ids[i] == rids[n - 1 - i]);
        }
        assert(chain_ids(t@, f as int, cells@, ids));
        assert(t@[0].x == w.start.x && t@[0].y == w.start.y);
        assert(cells@[0] == rev@[n - 1]);
        assert(cells@.last() == rev@[0]);
        assert forall|i: int|
            1 <= i < cells@.len() implies adjacent(cells@[i - 1], #[trigger] cells@[i]) && route_open(
                w,
                cells@[i],
            ) by {
            let k = n - 1 - i;
            assert(cells@[i] == rev@[k]);
            assert(cells@[i - 1] == rev@[k + 1]);
            assert(adjacent(rev@[k], rev@[k + 1]));
        }
    }
    cells
}

/// An adjacent cell is one step in some heading.
proof fn lemma_adjacent_step(a: GridCell, b: GridCell) -> (d: int)
    requires
        adjacent(a, b),
    ensures
        0 <= d < 4,
        b == step_of(a, d),
{
    if b.y == a.y - 1 {
        0
    } else if b.x == a.x + 1 {
        1
    } else if b.y == a.y + 1 {
        2
    } else {
        3
    }
}

/// Each cell of a route lies at a state of a table whose states are all
/// expanded, when the table holds the start.
proof fn lemma_route_in_table(w: RouteWorld, t: Seq<RouteEntry>, cells: Seq<GridCell>, k: int) -> (i: int)
    requires
        t.len() >= 1,
        entry_cell(t[0]) == w.start,
        forall|j: int| 0 <= j < t.len() ==> expanded(w, t, j),
        is_route(w, cells),
        0 <= k < cells.len(),
    ensures
        0 <= i < t.len(),
        entry_cell(t[i]) == cells[k],
    decreases k,
{
    if k == 0 {
        0
    } else {
        let i = lemma_route_in_table(w, t, cells, k - 1);
        assert(adjacent(cells[k - 1], cells[k]) && route_open(w, cells[k]));
        let d = lemma_adjacent_step(cells[k - 1], cells[k]);
        assert(expanded(w, t, i));
        assert(route_open(w, step_of(entry_cell(t[i]), d)));
        let j = choose|j: int|
            0 <= j < t.len() && same_key(
                #[trigger] t[j],
                step_of(entry_cell(t[i]), d).x as int,
                step_of(entry_cell(t[i]), d).y as int,
                d,
            );
        j
    }
}

/// How one relaxation changes the search: the table grows with its keys
/// kept, the frontier grows at its end, and any state whose cost changed
/// waits in the frontier.
spec fn grows(
    t0: Seq<RouteEntry>,
    f0: Seq<(u64, u64, usize)>,
    t1: Seq<RouteEntry>,
    f1: Seq<(u64, u64, usize)>,
) -> bool {
    &&& t0.len() <= t1.len()
    &&& f0.len() <= f1.len()
    &&& f1.subrange(0, f0.len() as int) == f0
    &&& forall|i: int|
        0 <= i < t0.len() ==> same_key(
            #[trigger] t1[i],
            t0[i].x as int,
            t0[i].y as int,
            t0[i].dir as int,
        )
    &&& forall|i: int|
        0 <= i < t1.len() ==> (i < t0.len() && (#[trigger] t1[i]).cost == t0[i].cost) || open_in(
            f1,
            t1,
            i,
        )
}

proof fn lemma_settled_grows(
    w: RouteWorld,
    t0: Seq<RouteEntry>,
    f0: Seq<(u64, u64, usize)>,
    t1: Seq<RouteEntry>,
    f1: Seq<(u64, u64, usize)>,
    i: int,
)
    requires
        grows(t0, f0, t1, f1),
        0 <= i < t1.len(),
        i < t0.len() ==> settled(w, f0, t0, i),
    ensures
        settled(w, f1, t1, i),
{
    if i < t0.len() && t1[i].cost == t0[i].cost {
        assert(same_key(t1[i], t0[i].x as int, t0[i].y as int, t0[i].dir as int));
        if open_in(f0, t0, i) {
            let k = choose|k: int| 0 <= k < f0.len() && (#[trigger] f0[k]).2 == i && f0[k].1 == t0[i].cost;
            assert(f1.subrange(0, f0.len() as int)[k] == f0[k]);
            assert(f1[k] == f0[k]);
        } else {
            assert(entry_cell(t1[i]) == entry_cell(t0[i]));
            assert forall|d: int|
                0 <= d < 4 && #[trigger] route_open(w, step_of(entry_cell(t1[i]), d)) implies exists|j: int|
                    0 <= j < t1.len() && same_key(
                        #[trigger] t1[j],
                        step_of(entry_cell(t1[i]), d).x as int,
                        step_of(entry_cell(t1[i]), d).y as int,
                        d,
                    ) by {
                assert(route_open(w, step_of(entry_cell(t0[i]), d)));
                let j = choose|j: int|
                    0 <= j < t0.len() && same_key(
                        #[trigger] t0[j],
                        step_of(entry_cell(t0[i]), d).x as int,
                        step_of(entry_cell(t0[i]), d).y as int,
                        d,
                    );
                assert(same_key(t1[j], t0[j].x as int, t0[j].y as int, t0[j].dir as int));
            }
        }
    }
}

/// Taking one item out of the frontier keeps every other state that was
/// waiting at its current cost waiting.
proof fn lemma_open_after_remove(f: Seq<(u64, u64, usize)>, t: Seq<RouteEntry>, k: int, i: int)
    requires
        0 <= k < f.len(),
        open_in(f, t, i),
        !(f[k].2 == i && f[k].1 == t[i].cost),
    ensures
        open_in(f.remove(k), t, i),
{
    let m = choose|m: int| 0 <= m < f.len() && (#[trigger] f[m]).2 == i && f[m].1 == t[i].cost;
    assert(m != k);
    if m < k {
        assert(f.remove(k)[m] == f[m]);
    } else {
        assert(f.remove(k)[m - 1] == f[m]);
    }
}

/// A search state: the table and frontier are consistent and every state
/// is settled.
spec fn search_ok(
    w: RouteWorld,
    t: Seq<RouteEntry>,
    f: Seq<(u64, u64, usize)>,
    times: Seq<int>,
    now: int,
) -> bool {
    &&& table_ok(w, t)
    &&& ranks_ok(t, times, now)
    &&& frontier_ok(f, t.len() as int)
    &&& forall|i: int| 0 <= i < t.len() ==> #[trigger] settled(w, f, t, i)
}

/// The step distance between two cells.
pub open spec fn step_distance(a: GridCell, b: GridCell) -> int {
    abs(a.x - b.x) + abs(a.y - b.y)
}

/// The smallest step distance from `next` to a cell of `guide`, 0 for an
/// empty guide.
pub open spec fn guide_min(next: GridCell, guide: Seq<GridCell>) -> int
    decreases guide.len(),
{
    if guide.len() == 0 {
        0
    } else if guide.len() == 1 {
        step_distance(next, guide[0])
    } else {
        let m = guide_min(next, guide.drop_last());
        let d = step_distance(next, guide.last());
        if d < m {
            d
        } else {
            m
        }
    }
}

/// The smallest step distance from `next` to a guide cell, 0 without one.
fn guide_distance(next: &GridCell, guide: &Vec<GridCell>, Ghost(b): Ghost<CatalogGridBounds>) -> (r: u64)
    requires
        in_bounds(b, *next),
        forall|g: int| 0 <= g < guide@.len() ==> reach_from(b, #[trigger] guide@[g]) <= u32::MAX,
    ensures
        r <= u32::MAX,
        r == guide_min(*next, guide@),
{
    let mut best: Option<u64> = None;
    let mut i: usize = 0;
    while i < guide.len()
        invariant
            i <= guide@.len(),
            in_bounds(b, *next),
            forall|g: int| 0 <= g < guide@.len() ==> reach_from(b, #[trigger] guide@[g]) <= u32::MAX,
            match best {
                Some(v) => v <= u32::MAX && i > 0 && v == guide_min(*next, guide@.take(i as int)),
                None => i == 0,
            },
        decreases guide@.len() - i,
    {
        let g = guide[i];
        let dist = gap(next.x, g.x) + gap(next.y, g.y);
        assert(dist <= reach_from(b, guide@[i as int]));
        proof {
            let nt = guide@.take(i + 1);
            assert(nt.drop_last() =~= guide@.take(i as int));
            assert(nt.last() == g);
            if i == 0 {
                assert(nt[0] == g);
            }
        }
        best = match best {
            Some(v) => if dist < v {
                Some(dist)
            } else {
                Some(v)
            },
            None => Some(dist),
        };
        i = i + 1;
    }
    assert(guide@.take(guide@.len() as int) =~= guide@);
    match best {
        Some(v) => v,
        None => 0,
    }
}

fn sat_mul(a: u64, b: u64) -> (r: u64)
    ensures
        r == if a * b > u64::MAX {
            u64::MAX as int
        } else {
            a * b
        },
{
    match a.checked_mul(b) {
        Some(v) => v,
        None => u64::MAX,
    }
}

/// The requirements that keep the search's arithmetic in range: the start
/// and the bounds strictly inside `i32`, a clearance whose doubled span
/// fits, and distances to the goal and guide cells that fit in `u32`.
pub open spec fn route_inputs_ok(
    start: GridCell,
    goal: GridCell,
    guide: Seq<GridCell>,
    clearance: i32,
    bounds: CatalogGridBounds,
) -> bool {
    &&& i32::MIN < start.x < i32::MAX
    &&& i32::MIN < start.y < i32::MAX
    &&& i32::MIN < bounds.min_x && bounds.max_x < i32::MAX
    &&& i32::MIN < bounds.min_y && bounds.max_y < i32::MAX
    &&& -0x3fff_ffff <= clearance <= 0x3fff_ffff
    &&& clearance >= 0 ==> {
        &&& i32::MIN <= bounds.min_x - clearance
        &&& bounds.max_x + clearance <= i32::MAX
        &&& i32::MIN <= bounds.min_y - clearance
        &&& bounds.max_y + clearance <= i32::MAX
    }
    &&& reach_from(bounds, goal) <= u32::MAX
    &&& forall|g: int| 0 <= g < guide.len() ==> reach_from(bounds, #[trigger] guide[g]) <= u32::MAX
}

/// What a section search answers: a found route runs from the start to the
/// goal in unit steps onto open cells; no path means that no such route
/// exists; and the search gives up once it has expanded one state more than
/// its budget.
pub open spec fn route_search_post(w: RouteWorld, budget: u32, r: CatalogRouteSearch) -> bool {
    match r {
        CatalogRouteSearch::Found { cells, states_visited } => is_route(w, cells@) && states_visited
            <= budget,
        CatalogRouteSearch::NoPath { states_visited } => states_visited <= budget && forall|
            cells: Seq<GridCell>,
        | !is_route(w, cells),
        CatalogRouteSearch::BudgetExhausted { states_visited } => states_visited == budget + 1,
    }
}

/// Routes a section from `start` to `goal` over the catalog grid, preferring
/// cells near the guide and few turns, within the policy's state budget.
/// The answer is the one that the best-first search `search_run` reaches:
/// its queue pops the lowest estimate, then the lowest cost, then the
/// greatest state; stale items are skipped, every other pop counts as a
/// visited state, the search gives up once the count passes the budget and
/// stops at the goal with the route found by following the reached-from
/// links back to the start.
pub fn route_catalog_section(
    start: &GridCell,
    goal: &GridCell,
    guide: &Vec<GridCell>,
    occupied: &Vec<CatalogOccupiedCell>,
    reserved: &Vec<GridCell>,
    terminal_rooms: &Vec<String>,
    minimum_clearance_cells: i32,
    bounds: &CatalogGridBounds,
    policy: &CatalogAwareGenerationPolicy,
) -> (r: CatalogRouteSearch)
    requires
        policy.max_routing_states_per_section < u32::MAX,
        route_inputs_ok(*start, *goal, guide@, minimum_clearance_cells, *bounds),
    ensures
        route_search_post(
            world(*start, *goal, occupied@, reserved@, terminal_rooms@, minimum_clearance_cells, *bounds),
            policy.max_routing_states_per_section,
            r,
        ),
        exists|n: nat|
            search_answer(
                #[trigger] search_run(
                    params_of(
                        world(*start, *goal, occupied@, reserved@, terminal_rooms@, minimum_clearance_cells, *bounds),
                        guide@,
                        *policy,
                    ),
                    n,
                ),
                r,
            ),
{
    let ghost w = world(
        *start,
        *goal,
        occupied@,
        reserved@,
        terminal_rooms@,
        minimum_clearance_cells,
        *bounds,
    );
    let budget = policy.max_routing_states_per_section;
    let mut table: Vec<RouteEntry> = Vec::new();
    table.push(RouteEntry { x: start.x, y: start.y, dir: 4, cost: 0, prev: 0 });
    let mut frontier: Vec<(u64, u64, usize)> = Vec::new();
    frontier.push((0, 0, 0));
    let ghost mut times: Seq<int> = seq![0int];
    let ghost mut now: int = 1;
    let mut visited: u32 = 0;
    let ghost p = params_of(w, guide@, *policy);
    let ghost mut n: nat = 0;
    proof {
        assert(table@ =~= seq![RouteEntry { x: p.w.start.x, y: p.w.start.y, dir: 4, cost: 0, prev: 0 }]);
        assert(frontier@ =~= seq![(0u64, 0u64, 0usize)]);
        assert(search_run(p, 0) == SearchState::Running { table: table@, frontier: frontier@, visited: 0 });
        assert(open_in(frontier@, table@, 0)) by {
            assert(frontier@[0].2 == 0);
        }
        assert(settled(w, frontier@, table@, 0));
    }
    while frontier.len() > 0
        invariant
            w == world(*start, *goal, occupied@, reserved@, terminal_rooms@, minimum_clearance_cells, *bounds),
            budget == policy.max_routing_states_per_section,
            budget < u32::MAX,
            route_inputs_ok(*start, *goal, guide@, minimum_clearance_cells, *bounds),
            search_ok(w, table@, frontier@, times, now),
            visited <= budget,
            p == params_of(w, guide@, *policy),
            search_run(p, n) == (SearchState::Running { table: table@, frontier: frontier@, visited: visited as nat }),
        decreases frontier@.len() + 4 * (budget + 1 - visited),
    {
        let k = best_index(&frontier, &table);
        let ghost f0 = frontier@;
        let ghost s0 = search_run(p, n);
        let item = frontier.remove(k);
        let idx = item.2;
        let ghost t0 = table@;
        proof {
            assert(search_run(p, (n + 1) as nat) == search_step(p, s0));
        }
        if table[idx].cost != item.1 {
            proof {
                n = n + 1;
                assert forall|i: int| 0 <= i < table@.len() implies #[trigger] settled(
                    w,
                    frontier@,
                    table@,
                    i,
                ) by {
                    assert(settled(w, f0, table@, i));
                    if open_in(f0, table@, i) {
                        lemma_open_after_remove(f0, table@, k as int, i);
                    }
                }
                assert forall|m: int| 0 <= m < frontier@.len() implies (#[trigger] frontier@[m]).2
                    < table@.len() by {
                    if m < k {
                        assert(frontier@[m] == f0[m]);
                    } else {
                        assert(frontier@[m] == f0[m + 1]);
                    }
                }
            }
            continue;
        }
        visited = visited + 1;
        if visited > budget {
            let r = CatalogRouteSearch::BudgetExhausted { states_visited: visited };
            proof {
                assert(search_answer(search_run(p, (n + 1) as nat), r));
            }
            return r;
        }
        if table[idx].x == goal.x && table[idx].y == goal.y {
            let cells = rebuild(&table, idx, Ghost(w), Ghost(times), Ghost(now));
            let r = CatalogRouteSearch::Found { cells, states_visited: visited };
            proof {
                assert(search_answer(search_run(p, (n + 1) as nat), r));
            }
            return r;
        }
        let ux = table[idx].x;
        let uy = table[idx].y;
        let udir = table[idx].dir;
        let ucost = table[idx].cost;
        let ghost f1 = frontier@;
        proof {
            assert forall|i: int| 0 <= i < table@.len() && i != idx implies #[trigger] settled(
                w,
                frontier@,
                table@,
                i,
            ) by {
                assert(settled(w, f0, table@, i));
                if open_in(f0, table@, i) {
                    lemma_open_after_remove(f0, table@, k as int, i);
                }
            }
            assert forall|m: int| 0 <= m < frontier@.len() implies (#[trigger] frontier@[m]).2
                < table@.len() by {
                if m < k {
                    assert(frontier@[m] == f0[m]);
                } else {
                    assert(frontier@[m] == f0[m + 1]);
                }
            }
            if idx != 0 {
                assert(in_bounds(w.bounds, entry_cell(table@[idx as int])));
            }
        }
        let mut d: u8 = 0;
        while d < 4
            invariant
                w == world(*start, *goal, occupied@, reserved@, terminal_rooms@, minimum_clearance_cells, *bounds),
                route_inputs_ok(*start, *goal, guide@, minimum_clearance_cells, *bounds),
                table_ok(w, table@),
                ranks_ok(table@, times, now),
                frontier_ok(frontier@, table@.len() as int),
                idx < table@.len(),
                table@[idx as int].x == ux,
                table@[idx as int].y == uy,
                table@[idx as int].dir == udir,
                table@[idx as int].cost == ucost,
                idx == 0 || in_bounds(w.bounds, (GridCell { x: ux, y: uy })),
                idx == 0 ==> ux == start.x && uy == start.y,
                (GridCell { x: ux, y: uy }) != w.goal,
                d <= 4,
                p == params_of(w, guide@, *policy),
                (table@, frontier@) == expand_upto(p, t0, f1, idx, d as nat),
                frontier@.len() <= f1.len() + d,
                forall|i: int| 0 <= i < table@.len() && i != idx ==> #[trigger] settled(w, frontier@, table@, i),
                forall|e: int|
                    0 <= e < d && #[trigger] route_open(w, step_of(GridCell { x: ux, y: uy }, e)) ==> exists|j: int|
                        0 <= j < table@.len() && same_key(
                            #[trigger] table@[j],
                            step_of(GridCell { x: ux, y: uy }, e).x as int,
                            step_of(GridCell { x: ux, y: uy }, e).y as int,
                            e,
                        ),
            decreases 4 - d,
        {
            let ghost t_before = table@;
            let ghost f_before = frontier@;
            let (Ghost(t2), Ghost(n2)) = expand_one(
                &mut table,
                &mut frontier,
                idx,
                d,
                start,
                goal,
                guide,
                occupied,
                reserved,
                terminal_rooms,
                minimum_clearance_cells,
                bounds,
                policy,
                Ghost(w),
                Ghost(times),
                Ghost(now),
            );
            proof {
                reveal(expanded_to);
                assert(expand_upto(p, t0, f1, idx, (d + 1) as nat) == expand_spec(p, t_before, f_before, idx, d));
                times = t2;
                now = n2;
                assert forall|i: int| 0 <= i < table@.len() && i != idx implies #[trigger] settled(
                    w,
                    frontier@,
                    table@,
                    i,
                ) by {
                    lemma_settled_grows(w, t_before, f_before, table@, frontier@, i);
                }
                assert forall|e: int|
                    0 <= e < d + 1 && #[trigger] route_open(w, step_of((GridCell { x: ux, y: uy }), e)) implies exists|j: int|
                        0 <= j < table@.len() && same_key(
                            #[trigger] table@[j],
                            step_of((GridCell { x: ux, y: uy }), e).x as int,
                            step_of((GridCell { x: ux, y: uy }), e).y as int,
                            e,
                        ) by {
                    if e < d {
                        let j = choose|j: int|
                            0 <= j < t_before.len() && same_key(
                                #[trigger] t_before[j],
                                step_of((GridCell { x: ux, y: uy }), e).x as int,
                                step_of((GridCell { x: ux, y: uy }), e).y as int,
                                e,
                            );
                        assert(same_key(table@[j], t_before[j].x as int, t_before[j].y as int, t_before[j].dir as int));
                    }
                }
            }
            d = d + 1;
        }
        proof {
            assert(expanded(w, table@, idx as int));
            assert(settled(w, frontier@, table@, idx as int));
            n = n + 1;
        }
    }
    proof {
        assert forall|i: int| 0 <= i < table@.len() implies expanded(w, table@, i) && entry_cell(table@[i])
            != w.goal by {
            assert(settled(w, frontier@, table@, i));
        }
        assert forall|cells: Seq<GridCell>| !is_route(w, cells) by {
            if is_route(w, cells) {
                assert(entry_cell(table@[0]) == w.start);
                let i = lemma_route_in_table(w, table@, cells, cells.len() - 1);
                assert(cells.last() == cells[cells.len() - 1]);
                assert(entry_cell(table@[i]) == w.goal);
                assert(settled(w, frontier@, table@, i));
                assert(!open_in(frontier@, table@, i));
            }
        }
    }
    let r = CatalogRouteSearch::NoPath { states_visited: visited };
    proof {
        assert(search_run(p, (n + 1) as nat) == search_step(p, search_run(p, n)));
        assert(search_answer(search_run(p, (n + 1) as nat), r));
    }
    r
}

/// The table and frontier `t1`, `f1` are those that `expand_spec` gives.
#[verifier::opaque]
pub open spec fn expanded_to(
    p: SearchParams,
    t: Seq<RouteEntry>,
    f: Seq<(u64, u64, usize)>,
    idx: usize,
    d: u8,
    t1: Seq<RouteEntry>,
    f1: Seq<(u64, u64, usize)>,
) -> bool {
    (t1, f1) == expand_spec(p, t, f, idx, d)
}

proof fn lemma_expand_open(
    p: SearchParams,
    t: Seq<RouteEntry>,
    f: Seq<(u64, u64, usize)>,
    idx: usize,
    d: u8,
    next: GridCell,
    cost: u64,
    t1: Seq<RouteEntry>,
    f1: Seq<(u64, u64, usize)>,
)
    requires
        0 <= idx < t.len(),
        next == step_of(entry_cell(t[idx as int]), d as int),
        route_open(p.w, next),
        cost == next_cost(p.guide, p.weight, p.turn, t[idx as int], d, next),
        relaxed_to(t, f, idx, d, next, cost, p.w.goal, t1, f1),
    ensures
        expanded_to(p, t, f, idx, d, t1, f1),
{
    reveal(expand_spec);
    reveal(expanded_to);
    reveal(relaxed_to);
}

/// The cost of offering `next` from state `e` in heading `d`.
fn offer_cost(
    e: &RouteEntry,
    d: u8,
    next: &GridCell,
    guide: &Vec<GridCell>,
    policy: &CatalogAwareGenerationPolicy,
    Ghost(b): Ghost<CatalogGridBounds>,
) -> (c: u64)
    requires
        in_bounds(b, *next),
        forall|g: int| 0 <= g < guide@.len() ==> reach_from(b, #[trigger] guide@[g]) <= u32::MAX,
    ensures
        c == next_cost(guide@, policy.guide_distance_weight, policy.turn_penalty, *e, d, *next),
        c >= e.cost,
        c >= 1,
{
    let gd = guide_distance(next, guide, Ghost(b));
    let turn: u64 = if e.dir < 4 && e.dir != d {
        policy.turn_penalty as u64
    } else {
        0
    };
    let step = 1u64.saturating_add(sat_mul(gd, policy.guide_distance_weight as u64)).saturating_add(turn);
    e.cost.saturating_add(step)
}

proof fn lemma_expand_closed(
    p: SearchParams,
    t: Seq<RouteEntry>,
    f: Seq<(u64, u64, usize)>,
    idx: usize,
    d: u8,
    next: GridCell,
)
    requires
        0 <= idx < t.len(),
        next == step_of(entry_cell(t[idx as int]), d as int),
        !route_open(p.w, next),
    ensures
        expanded_to(p, t, f, idx, d, t, f),
{
    reveal(expand_spec);
    reveal(expanded_to);
}

/// Offers the neighbour of state `idx` in heading `d`, when it is open.
#[verifier::rlimit(100)]
#[verifier::spinoff_prover]
fn expand_one(
    table: &mut Vec<RouteEntry>,
    frontier: &mut Vec<(u64, u64, usize)>,
    idx: usize,
    d: u8,
    start: &GridCell,
    goal: &GridCell,
    guide: &Vec<GridCell>,
    occupied: &Vec<CatalogOccupiedCell>,
    reserved: &Vec<GridCell>,
    terminal_rooms: &Vec<String>,
    minimum_clearance_cells: i32,
    bounds: &CatalogGridBounds,
    policy: &CatalogAwareGenerationPolicy,
    Ghost(w): Ghost<RouteWorld>,
    Ghost(times): Ghost<Seq<int>>,
    Ghost(now): Ghost<int>,
) -> (r: (Ghost<Seq<int>>, Ghost<int>))
    requires
        w == world(*start, *goal, occupied@, reserved@, terminal_rooms@, minimum_clearance_cells, *bounds),
        route_inputs_ok(*start, *goal, guide@, minimum_clearance_cells, *bounds),
        table_ok(w, old(table)@),
        ranks_ok(old(table)@, times, now),
        frontier_ok(old(frontier)@, old(table)@.len() as int),
        idx < old(table)@.len(),
        idx == 0 || in_bounds(w.bounds, entry_cell(old(table)@[idx as int])),
        d < 4,
    ensures
        table_ok(w, final(table)@),
        ranks_ok(final(table)@, r.0@, r.1@),
        frontier_ok(final(frontier)@, final(table)@.len() as int),
        grows(old(table)@, old(frontier)@, final(table)@, final(frontier)@),
        final(frontier)@.len() <= old(frontier)@.len() + 1,
        final(table)@[idx as int] == old(table)@[idx as int],
        route_open(w, step_of(entry_cell(old(table)@[idx as int]), d as int)) ==> exists|j: int|
            0 <= j < final(table)@.len() && same_key(
                #[trigger] final(table)@[j],
                step_of(entry_cell(old(table)@[idx as int]), d as int).x as int,
                step_of(entry_cell(old(table)@[idx as int]), d as int).y as int,
                d as int,
            ),
        expanded_to(
            params_of(w, guide@, *policy),
            old(table)@,
            old(frontier)@,
            idx,
            d,
            final(table)@,
            final(frontier)@,
        ),
{
    let ux = table[idx].x;
    let uy = table[idx].y;
    let udir = table[idx].dir;
    let ucost = table[idx].cost;
    proof {
        if idx == 0 {
            assert(ux == start.x && uy == start.y);
        }
        assert(frontier@.subrange(0, frontier@.len() as int) =~= frontier@);
    }
        let dx: i32 = if d == 1 {
            1
        } else if d == 3 {
            -1
        } else {
            0
        };
        let dy: i32 = if d == 0 {
            -1
        } else if d == 2 {
            1
        } else {
            0
        };
        let next = GridCell { x: ux + dx, y: uy + dy };
        assert(next == step_of(entry_cell(table@[idx as int]), d as int));
        let outside = next.x < bounds.min_x || next.x > bounds.max_x || next.y < bounds.min_y
            || next.y > bounds.max_y;
        if !outside && !catalog_route_cell_blocked(
            &next,
            start,
            goal,
            occupied,
            reserved,
            terminal_rooms,
            minimum_clearance_cells,
        ) {
            assert(route_open(w, next));
            let e = table[idx];
            let cost_next = offer_cost(&e, d, &next, guide, policy, Ghost(*bounds));
            let ghost t_pre = table@;
            let ghost f_pre = frontier@;
            let r = relax(
                table,
                frontier,
                idx,
                d,
                next,
                cost_next,
                goal,
                Ghost(w),
                Ghost(times),
                Ghost(now),
            );
            proof {
                lemma_expand_open(params_of(w, guide@, *policy), t_pre, f_pre, idx, d, next, cost_next, table@, frontier@);
            }
            return r;
        } else {
            proof {
                assert(!route_open(w, next));
                lemma_expand_closed(params_of(w, guide@, *policy), table@, frontier@, idx, d, next);
                assert(frontier@.subrange(0, frontier@.len() as int) =~= frontier@);
            }
        }
    (Ghost(times), Ghost(now))
}

} // verus!
