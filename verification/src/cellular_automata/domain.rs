//! What one step computes, stated over the cell-state function: the changing
//! cells, the deltas that list them, the next cells, the sets of coordinates
//! that a step must evaluate, and the counts and bounds reported per step.

use vstd::prelude::*;

use super::cells::{
    cell_coords, cells_sorted, cells_wf, has_cell, lemma_cells_unique, lemma_listed_iff_nonempty,
    lemma_state_of_index, state_of,
};
use super::coords::{coord_lt, coords_sorted, lemma_sorted_coords_eq};
use super::rules::{
    add_with_neighbors, bounds_valid, candidate_of, changes, evaluate_spec, is_active,
    is_neighbor, lemma_neighbor_in_bounds, lemma_neighbor_symmetric, neighbor_at, offset_ok,
    reached,
};
use super::{
    space_of, in_bounds, volume_spec, CaBounds, CaCellDelta, CaCellState, CaCoord, CaRule, CaScenario, CaSeedCell,
    CaSpace, CaStateCounts, CaTouchedBounds,
};

verus! {

/// The state of `x` after the step: the rule applies inside the box only.
pub open spec fn next_state(sc: CaSpace, cells: Seq<CaSeedCell>, x: CaCoord, next_step: u32) -> CaCellState {
    if in_bounds(sc.bounds, x) {
        evaluate_spec(sc, cells, x, state_of(cells, x), next_step)
    } else {
        state_of(cells, x)
    }
}

/// `d` lists, in coordinate order, exactly the cells that the step changes,
/// each with its state before and after.
pub open spec fn delta_spec(
    sc: CaSpace,
    cells: Seq<CaSeedCell>,
    next_step: u32,
    d: Seq<CaCellDelta>,
) -> bool {
    &&& forall|i: int, j: int|
        0 <= i < j < d.len() ==> coord_lt(#[trigger] d[i].coord, #[trigger] d[j].coord)
    &&& forall|i: int|
        0 <= i < d.len() ==> {
            &&& changes(sc, cells, (#[trigger] d[i]).coord, next_step)
            &&& d[i].previous == state_of(cells, d[i].coord)
            &&& d[i].current == evaluate_spec(sc, cells, d[i].coord, d[i].previous, next_step)
        }
    &&& forall|c: CaCoord|
        changes(sc, cells, c, next_step) ==> exists|i: int|
            0 <= i < d.len() && (#[trigger] d[i]).coord == c
}

/// The deltas of a step: the unique sequence satisfying `delta_spec`.
pub open spec fn step_deltas(sc: CaSpace, cells: Seq<CaSeedCell>, next_step: u32) -> Seq<
    CaCellDelta,
> {
    choose|d: Seq<CaCellDelta>| delta_spec(sc, cells, next_step, d)
}

/// `c2` represents the cells after the step.
pub open spec fn next_cells_spec(
    sc: CaSpace,
    cells: Seq<CaSeedCell>,
    next_step: u32,
    c2: Seq<CaSeedCell>,
) -> bool {
    &&& cells_wf(c2, sc.bounds)
    &&& forall|x: CaCoord| #[trigger] state_of(c2, x) == next_state(sc, cells, x, next_step)
}

/// The cells after a step: the unique sequence satisfying `next_cells_spec`.
pub open spec fn step_cells(sc: CaSpace, cells: Seq<CaSeedCell>, next_step: u32) -> Seq<
    CaSeedCell,
> {
    choose|c2: Seq<CaSeedCell>| next_cells_spec(sc, cells, next_step, c2)
}

/// Every cell that the step changes lies in `candidates`.
pub open spec fn covers(
    sc: CaSpace,
    cells: Seq<CaSeedCell>,
    candidates: Seq<CaCoord>,
    next_step: u32,
) -> bool {
    forall|c: CaCoord| changes(sc, cells, c, next_step) ==> #[trigger] candidates.contains(c)
}

pub open spec fn delta_coords(d: Seq<CaCellDelta>) -> Seq<CaCoord> {
    d.map_values(|x: CaCellDelta| x.coord)
}

/// Deltas that satisfy the specification are unique.
pub proof fn lemma_deltas_unique(
    sc: CaSpace,
    cells: Seq<CaSeedCell>,
    next_step: u32,
    a: Seq<CaCellDelta>,
    b: Seq<CaCellDelta>,
)
    requires
        delta_spec(sc, cells, next_step, a),
        delta_spec(sc, cells, next_step, b),
    ensures
        a == b,
{
    let ca = delta_coords(a);
    let cb = delta_coords(b);
    assert forall|x: CaCoord| ca.contains(x) <==> cb.contains(x) by {
        if ca.contains(x) {
            let i = choose|i: int| 0 <= i < ca.len() && ca[i] == x;
            assert(a[i].coord == x);
            assert(changes(sc, cells, x, next_step));
            let j = choose|j: int| 0 <= j < b.len() && (#[trigger] b[j]).coord == x;
            assert(cb[j] == x);
        }
        if cb.contains(x) {
            let i = choose|i: int| 0 <= i < cb.len() && cb[i] == x;
            assert(b[i].coord == x);
            assert(changes(sc, cells, x, next_step));
            let j = choose|j: int| 0 <= j < a.len() && (#[trigger] a[j]).coord == x;
            assert(ca[j] == x);
        }
    }
    lemma_sorted_coords_eq(ca, cb);
    assert(a.len() == b.len());
    assert forall|i: int| 0 <= i < a.len() implies a[i] == b[i] by {
        assert(ca[i] == cb[i]);
    }
    assert(a =~= b);
}

/// A sequence satisfying the delta specification is the step's deltas.
pub proof fn lemma_step_deltas(
    sc: CaSpace,
    cells: Seq<CaSeedCell>,
    next_step: u32,
    d: Seq<CaCellDelta>,
)
    requires
        delta_spec(sc, cells, next_step, d),
    ensures
        step_deltas(sc, cells, next_step) == d,
{
    let e = step_deltas(sc, cells, next_step);
    assert(delta_spec(sc, cells, next_step, e));
    lemma_deltas_unique(sc, cells, next_step, d, e);
}

/// A sequence satisfying the next-cells specification is the step's cells.
pub proof fn lemma_step_cells(
    sc: CaSpace,
    cells: Seq<CaSeedCell>,
    next_step: u32,
    c2: Seq<CaSeedCell>,
)
    requires
        next_cells_spec(sc, cells, next_step, c2),
    ensures
        step_cells(sc, cells, next_step) == c2,
{
    let e = step_cells(sc, cells, next_step);
    assert(next_cells_spec(sc, cells, next_step, e));
    lemma_cells_unique(c2, e, sc.bounds);
}

/// The initial candidates, the seed cells and their neighbors, cover the
/// first step.
pub proof fn lemma_initial_candidates_cover(
    sc: CaSpace,
    cells: Seq<CaSeedCell>,
    candidates: Seq<CaCoord>,
    next_step: u32,
)
    requires
        bounds_valid(sc.bounds),
        cells_wf(cells, sc.bounds),
        forall|x: CaCoord| #[trigger]
            candidates.contains(x) <==> candidate_of(sc, cell_coords(cells), x),
    ensures
        covers(sc, cells, candidates, next_step),
{
    let origins = cell_coords(cells);
    assert forall|c: CaCoord| changes(sc, cells, c, next_step) implies #[trigger] candidates.contains(
        c,
    ) by {
        if sc.rule == CaRule::FrontierTrailV1 {
            let s = state_of(cells, c);
            lemma_listed_iff_nonempty(cells, sc.bounds, c);
            if s == CaCellState::Empty {
                assert(reached(sc, cells, c));
                let n = choose|n: CaCoord| is_neighbor(sc, c, n) && #[trigger] is_active(state_of(cells, n));
                lemma_listed_iff_nonempty(cells, sc.bounds, n);
                let i = choose|i: int| 0 <= i < cells.len() && (#[trigger] cells[i]).coord == n;
                lemma_neighbor_symmetric(sc, c, n);
                assert(origins[i] == n);
                assert(candidate_of(sc, origins, c));
            } else {
                let i = choose|i: int| 0 <= i < cells.len() && (#[trigger] cells[i]).coord == c;
                assert(origins[i] == c);
                assert(candidate_of(sc, origins, c));
            }
        }
    }
}

/// The candidates of the next step, the changed cells and their neighbors,
/// cover the next step.
pub proof fn lemma_next_candidates_cover(
    sc: CaSpace,
    cells: Seq<CaSeedCell>,
    next_step: u32,
    d: Seq<CaCellDelta>,
    cells2: Seq<CaSeedCell>,
    candidates: Seq<CaCoord>,
    following_step: u32,
)
    requires
        bounds_valid(sc.bounds),
        cells_wf(cells, sc.bounds),
        delta_spec(sc, cells, next_step, d),
        next_cells_spec(sc, cells, next_step, cells2),
        forall|x: CaCoord| #[trigger]
            candidates.contains(x) <==> candidate_of(sc, delta_coords(d), x),
    ensures
        covers(sc, cells2, candidates, following_step),
{
    let origins = delta_coords(d);
    assert forall|c: CaCoord| changes(sc, cells2, c, following_step) implies #[trigger] candidates.contains(
        c,
    ) by {
        if sc.rule == CaRule::FrontierTrailV1 {
            let s2 = state_of(cells2, c);
            assert(s2 == next_state(sc, cells, c, next_step));
            let s = state_of(cells, c);
            if s2 == CaCellState::Frontier {
                assert(s == CaCellState::Empty);
                assert(changes(sc, cells, c, next_step));
                let i = choose|i: int| 0 <= i < d.len() && (#[trigger] d[i]).coord == c;
                assert(origins[i] == c);
                assert(candidate_of(sc, origins, c));
            } else {
                assert(s2 == CaCellState::Empty);
                assert(s == CaCellState::Empty);
                assert(!reached(sc, cells, c));
                assert(reached(sc, cells2, c));
                let n = choose|n: CaCoord| is_neighbor(sc, c, n) && #[trigger] is_active(state_of(cells2, n));
                let k = choose|k: int|
                    offset_ok(sc.neighborhood, k) && #[trigger] neighbor_at(
                        sc.bounds,
                        sc.boundary,
                        c,
                        k,
                    ) == Some(n);
                lemma_neighbor_in_bounds(sc, c, k);
                assert(in_bounds(sc.bounds, n));
                assert(state_of(cells2, n) == next_state(sc, cells, n, next_step));
                let sn = state_of(cells, n);
                if sn == CaCellState::Source || sn == CaCellState::Frontier {
                    assert(is_active(state_of(cells, n)));
                    assert(reached(sc, cells, c));
                }
                assert(sn == CaCellState::Empty);
                assert(changes(sc, cells, n, next_step));
                let i = choose|i: int| 0 <= i < d.len() && (#[trigger] d[i]).coord == n;
                assert(origins[i] == n);
                lemma_neighbor_symmetric(sc, c, n);
                assert(candidate_of(sc, origins, c));
            }
        }
    }
}

/// The box's coordinates in lexicographic order.
pub fn all_coords_of(bounds: CaBounds) -> (r: Vec<CaCoord>)
    requires
        bounds_valid(bounds),
    ensures
        coords_sorted(r@),
        forall|x: CaCoord| #[trigger] r@.contains(x) <==> in_bounds(bounds, x),
{
    let mut v: Vec<CaCoord> = Vec::new();
    let mut x = bounds.min.x;
    while x < bounds.max_exclusive.x
        invariant
            bounds_valid(bounds),
            bounds.min.x <= x <= bounds.max_exclusive.x,
            coords_sorted(v@),
            forall|i: int| 0 <= i < v@.len() ==> (#[trigger] v@[i]).x < x,
            forall|p: CaCoord| #[trigger] v@.contains(p) <==> (in_bounds(bounds, p) && p.x < x),
        decreases bounds.max_exclusive.x - x,
    {
        let mut y = bounds.min.y;
        while y < bounds.max_exclusive.y
            invariant
                bounds_valid(bounds),
                bounds.min.x <= x < bounds.max_exclusive.x,
                bounds.min.y <= y <= bounds.max_exclusive.y,
                coords_sorted(v@),
                forall|i: int|
                    0 <= i < v@.len() ==> (#[trigger] v@[i]).x < x || (v@[i].x == x && v@[i].y < y),
                forall|p: CaCoord| #[trigger]
                    v@.contains(p) <==> (in_bounds(bounds, p) && (p.x < x || (p.x == x && p.y < y))),
            decreases bounds.max_exclusive.y - y,
        {
            let mut z = bounds.min.z;
            while z < bounds.max_exclusive.z
                invariant
                    bounds_valid(bounds),
                    bounds.min.x <= x < bounds.max_exclusive.x,
                    bounds.min.y <= y < bounds.max_exclusive.y,
                    bounds.min.z <= z <= bounds.max_exclusive.z,
                    coords_sorted(v@),
                    forall|i: int|
                        0 <= i < v@.len() ==> (#[trigger] v@[i]).x < x || (v@[i].x == x && (v@[i].y
                            < y || (v@[i].y == y && v@[i].z < z))),
                    forall|p: CaCoord| #[trigger]
                        v@.contains(p) <==> (in_bounds(bounds, p) && (p.x < x || (p.x == x && (p.y
                            < y || (p.y == y && p.z < z))))),
                decreases bounds.max_exclusive.z - z,
            {
                let c = CaCoord { x, y, z };
                let ghost before = v@;
                v.push(c);
                proof {
                    assert forall|p: CaCoord| #[trigger]
                        v@.contains(p) <==> (before.contains(p) || p == c) by {
                        if v@.contains(p) {
                            let k = choose|k: int| 0 <= k < v@.len() && v@[k] == p;
                            if k < before.len() {
                                assert(before[k] == p);
                            }
                        }
                        if before.contains(p) {
                            let k = choose|k: int| 0 <= k < before.len() && before[k] == p;
                            assert(v@[k] == p);
                        }
                        if p == c {
                            assert(v@[before.len() as int] == p);
                        }
                    }
                }
                z = z + 1;
            }
            y = y + 1;
        }
        x = x + 1;
    }
    v
}

impl CaBounds {
    /// Every coordinate of the box, in lexicographic order.
    pub fn all_coords(self) -> (r: Vec<CaCoord>)
        requires
            bounds_valid(self),
        ensures
            coords_sorted(r@),
            forall|x: CaCoord| #[trigger] r@.contains(x) <==> in_bounds(self, x),
    {
        all_coords_of(self)
    }
}

/// The coordinates that a step after changes at `origins` evaluates.
pub fn candidates_from(sc: &CaScenario, origins: &Vec<CaCoord>) -> (r: Vec<CaCoord>)
    requires
        bounds_valid(sc.bounds),
        forall|i: int| 0 <= i < origins@.len() ==> in_bounds(sc.bounds, #[trigger] origins@[i]),
    ensures
        coords_sorted(r@),
        forall|x: CaCoord| #[trigger] r@.contains(x) <==> candidate_of(space_of(*sc), origins@, x),
        forall|i: int| 0 <= i < r@.len() ==> in_bounds(sc.bounds, #[trigger] r@[i]),
{
    if sc.rule.scans_complete_domain() {
        let all = all_coords_of(sc.bounds);
        proof {
            assert forall|i: int| 0 <= i < all@.len() implies in_bounds(sc.bounds, #[trigger] all@[i]) by {
                assert(all@.contains(all@[i]));
            }
        }
        return all;
    }
    let mut set: Vec<CaCoord> = Vec::new();
    let mut i: usize = 0;
    while i < origins.len()
        invariant
            i <= origins@.len(),
            bounds_valid(sc.bounds),
            sc.rule == CaRule::FrontierTrailV1,
            forall|j: int| 0 <= j < origins@.len() ==> in_bounds(sc.bounds, #[trigger] origins@[j]),
            coords_sorted(set@),
            forall|x: CaCoord| #[trigger]
                set@.contains(x) <==> exists|j: int|
                    0 <= j < i && (#[trigger] origins@[j] == x || is_neighbor(space_of(*sc), origins@[j], x)),
        decreases origins@.len() - i,
    {
        add_with_neighbors(&mut set, sc, origins[i]);
        i = i + 1;
        proof {
            assert forall|x: CaCoord| #[trigger]
                set@.contains(x) <==> exists|j: int|
                    0 <= j < i && (#[trigger] origins@[j] == x || is_neighbor(space_of(*sc), origins@[j], x)) by {
                if exists|j: int|
                    0 <= j < i && (#[trigger] origins@[j] == x || is_neighbor(space_of(*sc), origins@[j], x)) {
                    let j = choose|j: int|
                        0 <= j < i && (#[trigger] origins@[j] == x || is_neighbor(
                            space_of(*sc),
                            origins@[j],
                            x,
                        ));
                    if j < i - 1 {
                        assert(exists|j2: int|
                            0 <= j2 < i - 1 && (#[trigger] origins@[j2] == x || is_neighbor(
                                space_of(*sc),
                                origins@[j2],
                                x,
                            )));
                    }
                }
            }
        }
    }
    proof {
        assert forall|k: int| 0 <= k < set@.len() implies in_bounds(sc.bounds, #[trigger] set@[k]) by {
            let x = set@[k];
            assert(set@.contains(x));
            let j = choose|j: int|
                0 <= j < origins@.len() && (#[trigger] origins@[j] == x || is_neighbor(
                    space_of(*sc),
                    origins@[j],
                    x,
                ));
            if origins@[j] != x {
                let kk = choose|kk: int|
                    offset_ok(sc.neighborhood, kk) && #[trigger] neighbor_at(
                        sc.bounds,
                        sc.boundary,
                        origins@[j],
                        kk,
                    ) == Some(x);
                lemma_neighbor_in_bounds(space_of(*sc), origins@[j], kk);
            }
        }
    }
    set
}

/// The number of cells of `cells` in state `s`.
pub open spec fn count_state(cells: Seq<CaSeedCell>, s: CaCellState) -> nat
    decreases cells.len(),
{
    if cells.len() == 0 {
        0
    } else {
        count_state(cells.drop_last(), s) + if cells.last().state == s {
            1nat
        } else {
            0nat
        }
    }
}

pub open spec fn active_count(cells: Seq<CaSeedCell>) -> nat {
    count_state(cells, CaCellState::Source) + count_state(cells, CaCellState::Frontier)
        + count_state(cells, CaCellState::Trail)
}

pub proof fn lemma_count_bound(cells: Seq<CaSeedCell>, s: CaCellState)
    ensures
        count_state(cells, s) <= cells.len(),
    decreases cells.len(),
{
    if cells.len() > 0 {
        lemma_count_bound(cells.drop_last(), s);
    }
}

pub proof fn lemma_active_count_bound(cells: Seq<CaSeedCell>)
    ensures
        active_count(cells) <= cells.len(),
    decreases cells.len(),
{
    if cells.len() > 0 {
        lemma_active_count_bound(cells.drop_last());
    }
}

/// The per-state counts of well-formed cells in a box of `volume` cells.
pub open spec fn state_counts_spec(cells: Seq<CaSeedCell>, volume: u64) -> CaStateCounts {
    CaStateCounts {
        empty: (volume - active_count(cells)) as u64,
        source: count_state(cells, CaCellState::Source) as u64,
        frontier: count_state(cells, CaCellState::Frontier) as u64,
        trail: count_state(cells, CaCellState::Trail) as u64,
    }
}

/// Counts the cells by state; fails when more cells are active than the box
/// holds.
pub fn state_counts(volume: u64, cells: &Vec<CaSeedCell>) -> (r: Result<CaStateCounts, super::CaError>)
    ensures
        r == (if active_count(cells@) > volume {
            Err(super::CaError::VolumeOverflow)
        } else {
            Ok(state_counts_spec(cells@, volume))
        }),
{
    let mut source: u64 = 0;
    let mut frontier: u64 = 0;
    let mut trail: u64 = 0;
    let mut i: usize = 0;
    while i < cells.len()
        invariant
            i <= cells@.len(),
            source == count_state(cells@.take(i as int), CaCellState::Source),
            frontier == count_state(cells@.take(i as int), CaCellState::Frontier),
            trail == count_state(cells@.take(i as int), CaCellState::Trail),
            active_count(cells@.take(i as int)) <= i,
        decreases cells@.len() - i,
    {
        proof {
            assert(cells@.take(i + 1).drop_last() =~= cells@.take(i as int));
            lemma_active_count_bound(cells@.take(i + 1));
        }
        match cells[i].state {
            CaCellState::Empty => {},
            CaCellState::Source => {
                source = source + 1;
            },
            CaCellState::Frontier => {
                frontier = frontier + 1;
            },
            CaCellState::Trail => {
                trail = trail + 1;
            },
        }
        i = i + 1;
    }
    assert(cells@.take(cells@.len() as int) =~= cells@);
    let active = source + frontier + trail;
    if active > volume {
        return Err(super::CaError::VolumeOverflow);
    }
    Ok(CaStateCounts { empty: volume - active, source, frontier, trail })
}

pub open spec fn coord_min(a: CaCoord, b: CaCoord) -> CaCoord {
    CaCoord {
        x: if b.x < a.x { b.x } else { a.x },
        y: if b.y < a.y { b.y } else { a.y },
        z: if b.z < a.z { b.z } else { a.z },
    }
}

pub open spec fn coord_max(a: CaCoord, b: CaCoord) -> CaCoord {
    CaCoord {
        x: if b.x > a.x { b.x } else { a.x },
        y: if b.y > a.y { b.y } else { a.y },
        z: if b.z > a.z { b.z } else { a.z },
    }
}

/// The per-axis minimum and maximum over the first `n >= 1` deltas.
pub open spec fn touched_prefix(d: Seq<CaCellDelta>, n: int) -> CaTouchedBounds
    decreases n,
{
    if n <= 1 {
        CaTouchedBounds { min: d[0].coord, max_inclusive: d[0].coord }
    } else {
        let t = touched_prefix(d, n - 1);
        let c = d[n - 1].coord;
        CaTouchedBounds { min: coord_min(t.min, c), max_inclusive: coord_max(t.max_inclusive, c) }
    }
}

/// The smallest box holding every changed coordinate, if any changed.
pub open spec fn touched_spec(d: Seq<CaCellDelta>) -> Option<CaTouchedBounds> {
    if d.len() == 0 {
        None
    } else {
        Some(touched_prefix(d, d.len() as int))
    }
}

pub fn touched_bounds(deltas: &Vec<CaCellDelta>) -> (r: Option<CaTouchedBounds>)
    ensures
        r == touched_spec(deltas@),
{
    if deltas.len() == 0 {
        return None;
    }
    let first = deltas[0].coord;
    let mut min = first;
    let mut max = first;
    let mut i: usize = 1;
    while i < deltas.len()
        invariant
            1 <= i <= deltas@.len(),
            (CaTouchedBounds { min, max_inclusive: max }) == touched_prefix(deltas@, i as int),
        decreases deltas@.len() - i,
    {
        let c = deltas[i].coord;
        min = CaCoord {
            x: if c.x < min.x { c.x } else { min.x },
            y: if c.y < min.y { c.y } else { min.y },
            z: if c.z < min.z { c.z } else { min.z },
        };
        max = CaCoord {
            x: if c.x > max.x { c.x } else { max.x },
            y: if c.y > max.y { c.y } else { max.y },
            z: if c.z > max.z { c.z } else { max.z },
        };
        i = i + 1;
    }
    Some(CaTouchedBounds { min, max_inclusive: max })
}

/// The position of an in-bounds coordinate when the box is listed in
/// (x, y, z) order.
pub open spec fn box_index(b: CaBounds, c: CaCoord) -> int {
    ((c.x - b.min.x) * (b.max_exclusive.y - b.min.y) + (c.y - b.min.y)) * (b.max_exclusive.z - b.min.z)
        + (c.z - b.min.z)
}

/// The number of cells of the box.
pub open spec fn box_size(b: CaBounds) -> int {
    (b.max_exclusive.x - b.min.x) * (b.max_exclusive.y - b.min.y) * (b.max_exclusive.z - b.min.z)
}

proof fn lemma_box_index_range(b: CaBounds, c: CaCoord)
    requires
        in_bounds(b, c),
    ensures
        0 <= box_index(b, c) < box_size(b),
{
    let u = c.x - b.min.x;
    let v = c.y - b.min.y;
    let w = c.z - b.min.z;
    let xs = b.max_exclusive.x - b.min.x;
    let ys = b.max_exclusive.y - b.min.y;
    let zs = b.max_exclusive.z - b.min.z;
    assert(0 <= (u * ys + v) * zs + w < xs * ys * zs) by (nonlinear_arith)
        requires
            0 <= u < xs,
            0 <= v < ys,
            0 <= w < zs,
    {
        assert(u * ys + v < (u + 1) * ys);
        assert((u + 1) * ys <= xs * ys);
        assert((u * ys + v) * zs + w < (u * ys + v + 1) * zs);
        assert((u * ys + v + 1) * zs <= xs * ys * zs);
    }
}

proof fn lemma_box_index_order(b: CaBounds, p: CaCoord, q: CaCoord)
    requires
        in_bounds(b, p),
        in_bounds(b, q),
        coord_lt(p, q),
    ensures
        box_index(b, p) < box_index(b, q),
{
    let u1 = p.x - b.min.x;
    let v1 = p.y - b.min.y;
    let w1 = p.z - b.min.z;
    let u2 = q.x - b.min.x;
    let v2 = q.y - b.min.y;
    let w2 = q.z - b.min.z;
    let ys = b.max_exclusive.y - b.min.y;
    let zs = b.max_exclusive.z - b.min.z;
    if u1 < u2 {
        assert((u1 * ys + v1) * zs + w1 < (u2 * ys + v2) * zs + w2) by (nonlinear_arith)
            requires
                0 <= u1 < u2,
                0 <= v1 < ys,
                0 <= v2 < ys,
                0 <= w1 < zs,
                0 <= w2 < zs,
        {
            assert((u1 * ys + v1) * zs + w1 < (u1 * ys + v1 + 1) * zs);
            assert(u1 * ys + v1 + 1 <= (u1 + 1) * ys);
            assert((u1 + 1) * ys <= u2 * ys);
            assert((u1 * ys + v1 + 1) * zs <= (u2 * ys) * zs);
            assert((u2 * ys) * zs <= (u2 * ys + v2) * zs);
        }
    } else if v1 < v2 {
        assert((u1 * ys + v1) * zs + w1 < (u2 * ys + v2) * zs + w2) by (nonlinear_arith)
            requires
                u1 == u2,
                0 <= v1 < v2,
                0 <= w1 < zs,
                0 <= w2 < zs,
        {
            assert((u1 * ys + v1) * zs + w1 < (u1 * ys + v1 + 1) * zs);
            assert((u1 * ys + v1 + 1) * zs <= (u2 * ys + v2) * zs);
        }
    }
}

proof fn lemma_increasing_fits(s: Seq<int>, n: int, i: int)
    requires
        forall|a: int, c: int| 0 <= a < c < s.len() ==> #[trigger] s[a] < #[trigger] s[c],
        forall|a: int| 0 <= a < s.len() ==> 0 <= #[trigger] s[a],
        0 <= i < s.len(),
    ensures
        s[i] >= i,
    decreases i,
{
    if i > 0 {
        lemma_increasing_fits(s, n, i - 1);
        assert(s[i - 1] < s[i]);
    }
}

/// Distinct in-bounds coordinates in increasing order are no more than the
/// box holds.
pub proof fn lemma_sorted_coords_fit(b: CaBounds, s: Seq<CaCoord>)
    requires
        bounds_valid(b),
        coords_sorted(s),
        forall|i: int| 0 <= i < s.len() ==> in_bounds(b, #[trigger] s[i]),
    ensures
        s.len() <= box_size(b),
{
    assert(box_size(b) >= 0) by (nonlinear_arith)
        requires
            bounds_valid(b),
    {
        assert((b.max_exclusive.x - b.min.x) * (b.max_exclusive.y - b.min.y) > 0);
    }
    if s.len() > 0 {
        let idx = Seq::new(s.len(), |i: int| box_index(b, s[i]));
        assert forall|a: int, c: int| 0 <= a < c < idx.len() implies #[trigger] idx[a] < #[trigger] idx[c] by {
            lemma_box_index_order(b, s[a], s[c]);
        }
        assert forall|a: int| 0 <= a < idx.len() implies 0 <= #[trigger] idx[a] by {
            lemma_box_index_range(b, s[a]);
        }
        lemma_increasing_fits(idx, 0, s.len() - 1);
        lemma_box_index_range(b, s[s.len() - 1]);
        assert(idx[s.len() - 1] == box_index(b, s[s.len() - 1]));
    }
}

/// A valid box's volume is its cell count.
pub proof fn lemma_volume_is_size(b: CaBounds)
    requires
        volume_spec(b) is Ok,
    ensures
        volume_spec(b)->Ok_0 as int == box_size(b),
        bounds_valid(b),
{
}

/// The cells of a well-formed sequence are no more than the box holds.
pub proof fn lemma_cells_fit(b: CaBounds, cells: Seq<CaSeedCell>)
    requires
        bounds_valid(b),
        cells_wf(cells, b),
    ensures
        cells.len() <= box_size(b),
{
    let cs = cell_coords(cells);
    assert forall|i: int, j: int| 0 <= i < j < cs.len() implies coord_lt(#[trigger] cs[i], #[trigger] cs[j]) by {
        assert(cs[i] == cells[i].coord && cs[j] == cells[j].coord);
    }
    assert forall|i: int| 0 <= i < cs.len() implies in_bounds(b, #[trigger] cs[i]) by {
        assert(cs[i] == cells[i].coord);
    }
    lemma_sorted_coords_fit(b, cs);
}

/// The deltas of a step are no more than the box holds.
pub proof fn lemma_deltas_fit(sc: CaSpace, cells: Seq<CaSeedCell>, ns: u32, d: Seq<CaCellDelta>)
    requires
        bounds_valid(sc.bounds),
        delta_spec(sc, cells, ns, d),
    ensures
        d.len() <= box_size(sc.bounds),
{
    let cs = delta_coords(d);
    assert forall|i: int, j: int| 0 <= i < j < cs.len() implies coord_lt(#[trigger] cs[i], #[trigger] cs[j]) by {
        assert(cs[i] == d[i].coord && cs[j] == d[j].coord);
    }
    assert forall|i: int| 0 <= i < cs.len() implies in_bounds(sc.bounds, #[trigger] cs[i]) by {
        assert(cs[i] == d[i].coord);
        assert(changes(sc, cells, d[i].coord, ns));
    }
    lemma_sorted_coords_fit(sc.bounds, cs);
}

} // verus!
