//! The automaton: validated scenario, working cells, the coordinates that the
//! next step evaluates, and the hash chain over its steps.

use vstd::prelude::*;

use crate::text::{fnv1a64_spec, hash_text};

use super::cells::{
    cell_coords, cells_sorted, cells_wf, has_cell, lemma_cells_unique, lemma_state_of_index,
    lookup_state, set_state, state_of,
};
use super::coords::{coord_lt, coords_sorted, lemma_sorted_coords_eq};
use super::domain::{
    active_count, candidates_from, covers, delta_coords, delta_spec, lemma_initial_candidates_cover,
    lemma_next_candidates_cover, lemma_step_cells, lemma_step_deltas, next_cells_spec, next_state,
    lemma_volume_is_size, lemma_deltas_fit, lemma_cells_fit, lemma_active_count_bound,
    state_counts, state_counts_spec, step_cells, step_deltas, touched_bounds, touched_spec,
};
use super::encode::{
    cells_json, cumulative_input_json, delta_input_json, hash_cells, hash_cumulative_input,
    hash_delta_input, hash_initial_input, hash_of, initial_input_json,
};
use super::rules::{bounds_valid, candidate_of, changes, evaluate, evaluate_spec};
use super::{
    space_of, CaBounds, CaSpace, first_seed_error, in_bounds, rule_id_spec, scenario_check, seed_error_at, volume_spec,
    CaCellDelta, CaCellState, CaCoord, CaError, CaScenario, CaSeedCell, CaStepEvidence,
    CaTouchedBounds, CA_MAX_VOLUME,
};

verus! {

/// The sorted coordinate set holding exactly the candidates of `origins`.
pub open spec fn candidate_seq(sc: CaSpace, origins: Seq<CaCoord>) -> Seq<CaCoord> {
    choose|s: Seq<CaCoord>|
        coords_sorted(s) && forall|x: CaCoord| #[trigger] s.contains(x) <==> candidate_of(sc, origins, x)
}

pub proof fn lemma_candidate_seq(sc: CaSpace, origins: Seq<CaCoord>, s: Seq<CaCoord>)
    requires
        coords_sorted(s),
        forall|x: CaCoord| #[trigger] s.contains(x) <==> candidate_of(sc, origins, x),
    ensures
        candidate_seq(sc, origins) == s,
{
    let e = candidate_seq(sc, origins);
    assert(coords_sorted(e) && forall|x: CaCoord| #[trigger]
        e.contains(x) <==> candidate_of(sc, origins, x));
    lemma_sorted_coords_eq(s, e);
}

/// The cells of a validated scenario before the first step.
pub open spec fn initial_cells(bounds: CaBounds, seeds: Seq<CaSeedCell>) -> Seq<CaSeedCell> {
    choose|c: Seq<CaSeedCell>|
        cells_wf(c, bounds) && forall|x: CaCoord| #[trigger] state_of(c, x) == state_of(seeds, x)
}

/// The volume of a validated scenario's box.
pub open spec fn scenario_volume(sc: CaSpace) -> u64 {
    match volume_spec(sc.bounds) {
        Ok(v) => v,
        Err(_) => 0,
    }
}

/// Why the step numbered `next_step` from `cells` fails, if it fails.
pub open spec fn step_failure(sc: CaSpace, cells: Seq<CaSeedCell>, next_step: u32) -> Option<CaError> {
    let d = step_deltas(sc, cells, next_step);
    if d.len() > CA_MAX_VOLUME {
        Some(CaError::DeltaQuotaExceeded { count: d.len() as usize, limit: CA_MAX_VOLUME })
    } else if active_count(step_cells(sc, cells, next_step)) > scenario_volume(sc) {
        Some(CaError::VolumeOverflow)
    } else {
        None
    }
}

/// The evidence of the step numbered `next_step`, taken from `cells` with
/// cumulative hash `previous_hash` after evaluating `evaluated` coordinates.
#[verifier::opaque]
pub open spec fn step_evidence(
    scenario_id: Seq<char>,
    sc: CaSpace,
    cells: Seq<CaSeedCell>,
    previous_hash: Seq<char>,
    next_step: u32,
    evaluated: nat,
    ev: CaStepEvidence,
) -> bool {
    let d = step_deltas(sc, cells, next_step);
    let c2 = step_cells(sc, cells, next_step);
    let counts = state_counts_spec(c2, scenario_volume(sc));
    &&& ev.step == next_step
    &&& ev.deltas@ == d
    &&& ev.state_counts == counts
    &&& ev.active_cell_count == active_count(c2)
    &&& ev.changed_cell_count == d.len()
    &&& ev.evaluated_cell_count == evaluated
    &&& ev.touched_bounds == touched_spec(d)
    &&& ev.delta_hash@ == hash_of(delta_input_json(scenario_id, rule_id_spec(sc.rule), next_step, d))
    &&& ev.state_hash@ == hash_of(cells_json(c2))
    &&& ev.cumulative_scenario_hash@ == hash_of(
        cumulative_input_json(
            previous_hash,
            ev.delta_hash@,
            ev.state_hash@,
            next_step,
            ev.active_cell_count,
            ev.touched_bounds,
        ),
    )
}

#[derive(Clone, Debug)]
pub struct CaAutomaton {
    scenario: CaScenario,
    cells: Vec<CaSeedCell>,
    candidates: Vec<CaCoord>,
    step: u32,
    initial_state_hash: String,
    cumulative_scenario_hash: String,
}

proof fn lemma_seeds_checked(sc: CaScenario, n: int, i: int)
    requires
        0 <= i < n,
        first_seed_error(sc.bounds, sc.initial_cells@, n) is None,
    ensures
        seed_error_at(sc.bounds, sc.initial_cells@, i) is None,
    decreases n,
{
    if i < n - 1 {
        lemma_seeds_checked(sc, n - 1, i);
    }
}

fn copy_cells(v: &Vec<CaSeedCell>) -> (r: Vec<CaSeedCell>)
    ensures
        r@ == v@,
{
    let mut r: Vec<CaSeedCell> = Vec::new();
    let mut i: usize = 0;
    while i < v.len()
        invariant
            i <= v@.len(),
            r@ == v@.take(i as int),
        decreases v@.len() - i,
    {
        r.push(v[i]);
        i = i + 1;
        assert(r@ =~= v@.take(i as int));
    }
    assert(v@.take(v@.len() as int) =~= v@);
    r
}

fn copy_coords(v: &Vec<CaCoord>) -> (r: Vec<CaCoord>)
    ensures
        r@ == v@,
{
    let mut r: Vec<CaCoord> = Vec::new();
    let mut i: usize = 0;
    while i < v.len()
        invariant
            i <= v@.len(),
            r@ == v@.take(i as int),
        decreases v@.len() - i,
    {
        r.push(v[i]);
        i = i + 1;
        assert(r@ =~= v@.take(i as int));
    }
    assert(v@.take(v@.len() as int) =~= v@);
    r
}

/// Field-wise equality of scenarios, their seed cells compared by view.
pub open spec fn same_scenario(a: CaScenario, b: CaScenario) -> bool {
    &&& a.id == b.id
    &&& space_of(a) == space_of(b)
    &&& a.workload == b.workload
    &&& a.steps == b.steps
    &&& a.initial_cells@ == b.initial_cells@
}

/// A copy of a scenario.
pub fn copy_scenario(sc: &CaScenario) -> (r: CaScenario)
    ensures
        same_scenario(r, *sc),
{
    let cells = copy_cells(&sc.initial_cells);
    CaScenario {
        id: sc.id.clone(),
        workload: sc.workload,
        seed: sc.seed,
        bounds: sc.bounds,
        neighborhood: sc.neighborhood,
        boundary: sc.boundary,
        rule: sc.rule,
        steps: sc.steps,
        initial_cells: cells,
    }
}

/// The coordinates of `cells`, in order.
fn coords_of_cells(cells: &Vec<CaSeedCell>) -> (r: Vec<CaCoord>)
    ensures
        r@ == cell_coords(cells@),
{
    let mut r: Vec<CaCoord> = Vec::new();
    let mut i: usize = 0;
    while i < cells.len()
        invariant
            i <= cells@.len(),
            r@ == cell_coords(cells@.take(i as int)),
        decreases cells@.len() - i,
    {
        r.push(cells[i].coord);
        i = i + 1;
        assert(r@ =~= cell_coords(cells@.take(i as int)));
    }
    assert(cells@.take(cells@.len() as int) =~= cells@);
    r
}

/// The coordinates of `deltas`, in order.
fn coords_of_deltas(deltas: &Vec<CaCellDelta>) -> (r: Vec<CaCoord>)
    ensures
        r@ == delta_coords(deltas@),
{
    let mut r: Vec<CaCoord> = Vec::new();
    let mut i: usize = 0;
    while i < deltas.len()
        invariant
            i <= deltas@.len(),
            r@ == delta_coords(deltas@.take(i as int)),
        decreases deltas@.len() - i,
    {
        r.push(deltas[i].coord);
        i = i + 1;
        assert(r@ =~= delta_coords(deltas@.take(i as int)));
    }
    assert(deltas@.take(deltas@.len() as int) =~= deltas@);
    r
}

/// The deltas of one step, evaluating the given candidates in order.
fn compute_deltas(
    sc: &CaScenario,
    cells: &Vec<CaSeedCell>,
    candidates: &Vec<CaCoord>,
    next_step: u32,
) -> (d: Vec<CaCellDelta>)
    requires
        bounds_valid(sc.bounds),
        cells_sorted(cells@),
        coords_sorted(candidates@),
        forall|i: int| 0 <= i < candidates@.len() ==> in_bounds(sc.bounds, #[trigger] candidates@[i]),
        covers(space_of(*sc), cells@, candidates@, next_step),
    ensures
        delta_spec(space_of(*sc), cells@, next_step, d@),
        d@.len() <= candidates@.len(),
{
    let mut deltas: Vec<CaCellDelta> = Vec::new();
    let mut i: usize = 0;
    while i < candidates.len()
        invariant
            i <= candidates@.len(),
            bounds_valid(sc.bounds),
            cells_sorted(cells@),
            coords_sorted(candidates@),
            forall|k: int| 0 <= k < candidates@.len() ==> in_bounds(sc.bounds, #[trigger] candidates@[k]),
            deltas@.len() <= i,
            forall|a: int, b: int|
                0 <= a < b < deltas@.len() ==> coord_lt(
                    #[trigger] deltas@[a].coord,
                    #[trigger] deltas@[b].coord,
                ),
            i < candidates@.len() ==> forall|a: int|
                0 <= a < deltas@.len() ==> coord_lt(
                    (#[trigger] deltas@[a]).coord,
                    candidates@[i as int],
                ),
            forall|a: int|
                0 <= a < deltas@.len() ==> {
                    &&& changes(space_of(*sc), cells@, (#[trigger] deltas@[a]).coord, next_step)
                    &&& deltas@[a].previous == state_of(cells@, deltas@[a].coord)
                    &&& deltas@[a].current == evaluate_spec(
                        space_of(*sc),
                        cells@,
                        deltas@[a].coord,
                        deltas@[a].previous,
                        next_step,
                    )
                },
            forall|k: int|
                0 <= k < i && changes(space_of(*sc), cells@, #[trigger] candidates@[k], next_step)
                    ==> exists|a: int| 0 <= a < deltas@.len() && deltas@[a].coord == candidates@[k],
        decreases candidates@.len() - i,
    {
        let c = candidates[i];
        let previous = lookup_state(cells, c);
        let current = evaluate(sc, cells, c, previous, next_step);
        let ghost before = deltas@;
        if current != previous {
            deltas.push(CaCellDelta { coord: c, previous, current });
        }
        i = i + 1;
        proof {
            assert forall|k: int|
                0 <= k < i && changes(space_of(*sc), cells@, #[trigger] candidates@[k], next_step)
                    implies exists|a: int| 0 <= a < deltas@.len() && deltas@[a].coord == candidates@[k] by {
                if k < i - 1 {
                    let a = choose|a: int| 0 <= a < before.len() && before[a].coord == candidates@[k];
                    assert(deltas@[a] == before[a]);
                } else {
                    assert(deltas@[deltas@.len() - 1].coord == c);
                }
            }
            if i < candidates@.len() {
                assert(coord_lt(candidates@[i - 1], candidates@[i as int]));
                assert forall|a: int| 0 <= a < deltas@.len() implies coord_lt(
                    (#[trigger] deltas@[a]).coord,
                    candidates@[i as int],
                ) by {
                    if a < before.len() {
                        assert(deltas@[a] == before[a]);
                        assert(coord_lt(before[a].coord, candidates@[i - 1]));
                    }
                }
            }
        }
    }
    proof {
        assert forall|x: CaCoord| changes(space_of(*sc), cells@, x, next_step) implies exists|a: int|
            0 <= a < deltas@.len() && (#[trigger] deltas@[a]).coord == x by {
            assert(candidates@.contains(x));
            let k = choose|k: int| 0 <= k < candidates@.len() && candidates@[k] == x;
            assert(changes(space_of(*sc), cells@, candidates@[k], next_step));
        }
    }
    deltas
}

/// The cells after applying `deltas`.
fn apply_deltas(
    sc: &CaScenario,
    cells: &Vec<CaSeedCell>,
    deltas: &Vec<CaCellDelta>,
    next_step: u32,
) -> (r: Vec<CaSeedCell>)
    requires
        bounds_valid(sc.bounds),
        cells_wf(cells@, sc.bounds),
        delta_spec(space_of(*sc), cells@, next_step, deltas@),
    ensures
        next_cells_spec(space_of(*sc), cells@, next_step, r@),
{
    let mut proposed = copy_cells(cells);
    let mut i: usize = 0;
    while i < deltas.len()
        invariant
            i <= deltas@.len(),
            bounds_valid(sc.bounds),
            cells_wf(cells@, sc.bounds),
            delta_spec(space_of(*sc), cells@, next_step, deltas@),
            cells_sorted(proposed@),
            forall|k: int|
                0 <= k < proposed@.len() ==> (#[trigger] proposed@[k]).state != CaCellState::Empty
                    && in_bounds(sc.bounds, proposed@[k].coord),
            forall|x: CaCoord| #[trigger]
                state_of(proposed@, x) == (if exists|j: int|
                    0 <= j < i && (#[trigger] deltas@[j]).coord == x {
                    next_state(space_of(*sc), cells@, x, next_step)
                } else {
                    state_of(cells@, x)
                }),
        decreases deltas@.len() - i,
    {
        let d = deltas[i];
        let ghost before = proposed@;
        set_state(&mut proposed, d.coord, d.current);
        i = i + 1;
        proof {
            assert(changes(space_of(*sc), cells@, deltas@[i - 1].coord, next_step));
            assert forall|k: int|
                0 <= k < proposed@.len() implies (#[trigger] proposed@[k]).state
                    != CaCellState::Empty && in_bounds(sc.bounds, proposed@[k].coord) by {
                if proposed@[k].coord != d.coord {
                    let j = choose|j: int| 0 <= j < before.len() && (#[trigger] before[j]).coord == proposed@[k].coord;
                    assert(in_bounds(sc.bounds, before[j].coord));
                }
            }
            assert forall|x: CaCoord| #[trigger]
                state_of(proposed@, x) == (if exists|j: int|
                    0 <= j < i && (#[trigger] deltas@[j]).coord == x {
                    next_state(space_of(*sc), cells@, x, next_step)
                } else {
                    state_of(cells@, x)
                }) by {
                if x == d.coord {
                    assert(deltas@[i - 1].coord == x);
                } else {
                    if exists|j: int| 0 <= j < i && (#[trigger] deltas@[j]).coord == x {
                        let j = choose|j: int| 0 <= j < i && (#[trigger] deltas@[j]).coord == x;
                        assert(j < i - 1);
                        assert(exists|j2: int| 0 <= j2 < i - 1 && (#[trigger] deltas@[j2]).coord == x);
                    }
                }
            }
        }
    }
    proof {
        assert forall|x: CaCoord| #[trigger] state_of(proposed@, x) == next_state(space_of(*sc), cells@, x, next_step) by {
            if !(exists|j: int| 0 <= j < deltas@.len() && (#[trigger] deltas@[j]).coord == x) {
                if in_bounds(sc.bounds, x) {
                    assert(!changes(space_of(*sc), cells@, x, next_step));
                }
            }
        }
    }
    proposed
}

impl CaAutomaton {
    pub closed spec fn scenario_spec(&self) -> CaScenario {
        self.scenario
    }

    pub closed spec fn cells_spec(&self) -> Seq<CaSeedCell> {
        self.cells@
    }

    pub closed spec fn candidates_spec(&self) -> Seq<CaCoord> {
        self.candidates@
    }

    pub closed spec fn step_spec(&self) -> u32 {
        self.step
    }

    pub closed spec fn initial_hash_spec(&self) -> Seq<char> {
        self.initial_state_hash@
    }

    pub closed spec fn cumulative_hash_spec(&self) -> Seq<char> {
        self.cumulative_scenario_hash@
    }

    /// The automaton's invariant: a valid scenario, well-formed cells, and
    /// candidates that hold every cell the next step changes.
    pub closed spec fn wf(&self) -> bool {
        &&& scenario_check(self.scenario) is Ok
        &&& bounds_valid(self.scenario.bounds)
        &&& self.step <= self.scenario.steps
        &&& cells_wf(self.cells@, self.scenario.bounds)
        &&& coords_sorted(self.candidates@)
        &&& forall|i: int|
            0 <= i < self.candidates@.len() ==> in_bounds(
                self.scenario.bounds,
                #[trigger] self.candidates@[i],
            )
        &&& covers(space_of(self.scenario), self.cells@, self.candidates@, (self.step + 1) as u32)
    }

    /// What the invariant tells callers: the step count never passes the
    /// declared steps, the box is valid, and the active cells are sorted by
    /// coordinate, never empty and inside the box.
    pub proof fn lemma_wf_facts(&self)
        requires
            self.wf(),
        ensures
            self.step_spec() <= self.scenario_spec().steps,
            bounds_valid(self.scenario_spec().bounds),
            scenario_check(self.scenario_spec()) is Ok,
            cells_wf(self.cells_spec(), self.scenario_spec().bounds),
    {
    }

    /// Every cell that the next step changes is among the candidates, so
    /// stepping over the candidates gives the deltas of a full scan.
    pub proof fn lemma_candidates_cover(&self)
        requires
            self.wf(),
        ensures
            forall|c: CaCoord|
                changes(space_of(self.scenario_spec()), self.cells_spec(), c, (self.step_spec() + 1) as u32)
                    ==> #[trigger] self.candidates_spec().contains(c),
    {
    }

    pub fn new(scenario: CaScenario) -> (r: Result<CaAutomaton, CaError>)
        ensures
            match r {
                Err(e) => scenario_check(scenario) == Err::<(), CaError>(e),
                Ok(a) => {
                    &&& scenario_check(scenario) is Ok
                    &&& a.wf()
                    &&& a.scenario_spec() == scenario
                    &&& a.step_spec() == 0
                    &&& a.cells_spec() == initial_cells(scenario.bounds, scenario.initial_cells@)
                    &&& a.candidates_spec() == candidate_seq(
                        space_of(scenario),
                        cell_coords(initial_cells(scenario.bounds, scenario.initial_cells@)),
                    )
                    &&& a.initial_hash_spec() == hash_of(
                        cells_json(initial_cells(scenario.bounds, scenario.initial_cells@)),
                    )
                    &&& a.cumulative_hash_spec() == hash_of(
                        initial_input_json(scenario, a.initial_hash_spec()),
                    )
                },
            },
    {
        match scenario.validate() {
            Ok(()) => {},
            Err(e) => return Err(e),
        }
        let n = scenario.initial_cells.len();
        let mut cells: Vec<CaSeedCell> = Vec::new();
        let mut i: usize = 0;
        while i < n
            invariant
                n == scenario.initial_cells@.len(),
                i <= n,
                scenario_check(scenario) is Ok,
                first_seed_error(scenario.bounds, scenario.initial_cells@, n as int) is None,
                cells_wf(cells@, scenario.bounds),
                forall|x: CaCoord| #[trigger]
                    state_of(cells@, x) == state_of(scenario.initial_cells@.take(i as int), x),
            decreases n - i,
        {
            let seed = scenario.initial_cells[i];
            let ghost before = cells@;
            proof {
                lemma_seeds_checked(scenario, n as int, i as int);
            }
            set_state(&mut cells, seed.coord, seed.state);
            proof {
                let seeds = scenario.initial_cells@;
                let p = seeds.take(i as int);
                let p1 = seeds.take(i + 1);
                assert forall|k: int| 0 <= k < cells@.len() implies (#[trigger] cells@[k]).state
                    != CaCellState::Empty && in_bounds(scenario.bounds, cells@[k].coord) by {
                    if cells@[k].coord != seed.coord {
                        let j = choose|j: int| 0 <= j < before.len() && (#[trigger] before[j]).coord == cells@[k].coord;
                        lemma_state_of_index(before, j);
                        lemma_state_of_index(cells@, k);
                    } else {
                        lemma_state_of_index(cells@, k);
                    }
                }
                assert forall|x: CaCoord| #[trigger] state_of(cells@, x) == state_of(p1, x) by {
                    if x == seed.coord {
                        assert(p1[i as int] == seed);
                        assert(has_cell(p1, x));
                        let j = choose|j: int| 0 <= j < p1.len() && (#[trigger] p1[j]).coord == x;
                        if j < i {
                            assert(seeds[j].coord == seeds[i as int].coord);
                            assert(seed_error_at(scenario.bounds, seeds, i as int) is Some);
                        }
                    } else {
                        if has_cell(p1, x) {
                            let j = choose|j: int| 0 <= j < p1.len() && (#[trigger] p1[j]).coord == x;
                            assert(j < i);
                            assert(p[j] == p1[j]);
                            assert(has_cell(p, x));
                            let j2 = choose|j2: int| 0 <= j2 < p.len() && (#[trigger] p[j2]).coord == x;
                            assert(p1[j2] == p[j2]);
                            if j != j2 {
                                let lo = if j < j2 { j } else { j2 };
                                let hi = if j < j2 { j2 } else { j };
                                assert(seeds[lo].coord == seeds[hi].coord);
                                lemma_seeds_checked(scenario, n as int, hi);
                                assert(seed_error_at(scenario.bounds, seeds, hi) is Some);
                            }
                        } else {
                            if has_cell(p, x) {
                                let j = choose|j: int| 0 <= j < p.len() && (#[trigger] p[j]).coord == x;
                                assert(p1[j] == p[j]);
                            }
                        }
                    }
                }
            }
            i = i + 1;
        }
        proof {
            assert(scenario.initial_cells@.take(n as int) =~= scenario.initial_cells@);
            let e = initial_cells(scenario.bounds, scenario.initial_cells@);
            assert(cells_wf(e, scenario.bounds) && forall|x: CaCoord| #[trigger]
                state_of(e, x) == state_of(scenario.initial_cells@, x));
            lemma_cells_unique(cells@, e, scenario.bounds);
        }
        let initial_state_hash = hash_cells(&cells);
        let cumulative_scenario_hash = hash_initial_input(&scenario, &initial_state_hash);
        let origins = coords_of_cells(&cells);
        proof {
            assert forall|k: int| 0 <= k < origins@.len() implies in_bounds(
                scenario.bounds,
                #[trigger] origins@[k],
            ) by {
                assert(origins@[k] == cells@[k].coord);
            }
        }
        let candidates = candidates_from(&scenario, &origins);
        proof {
            lemma_initial_candidates_cover(space_of(scenario), cells@, candidates@, 1);
            lemma_candidate_seq(space_of(scenario), origins@, candidates@);
        }
        Ok(CaAutomaton {
            scenario,
            cells,
            candidates,
            step: 0,
            initial_state_hash,
            cumulative_scenario_hash,
        })
    }

    pub(crate) fn cumulative_hash(&self) -> (r: &str)
        ensures
            r@ == self.cumulative_hash_spec(),
    {
        self.cumulative_scenario_hash.as_str()
    }

    pub fn scenario(&self) -> (r: &CaScenario)
        ensures
            *r == self.scenario_spec(),
    {
        &self.scenario
    }

    pub fn completed_steps(&self) -> (r: u32)
        ensures
            r == self.step_spec(),
            self.wf() ==> r <= self.scenario_spec().steps,
    {
        self.step
    }

    pub fn initial_state_hash(&self) -> (r: &str)
        ensures
            r@ == self.initial_hash_spec(),
    {
        self.initial_state_hash.as_str()
    }

    /// The hash of the current cells.
    pub fn current_state_hash(&self) -> (r: Result<String, CaError>)
        ensures
            r is Ok,
            r matches Ok(h) && h@ == hash_of(cells_json(self.cells_spec())),
            r matches Ok(h) && h@ == hash_text(fnv1a64_spec(cells_json(self.cells_spec()))),
    {
        Ok(hash_cells(&self.cells))
    }

    fn cell_state(&self, coord: CaCoord) -> (r: CaCellState)
        requires
            self.wf(),
        ensures
            r == state_of(self.cells_spec(), coord),
    {
        lookup_state(&self.cells, coord)
    }

    /// The state of a cell of the box.
    pub fn state_at(&self, coord: CaCoord) -> (r: Result<CaCellState, CaError>)
        requires
            self.wf(),
        ensures
            r == (if in_bounds(self.scenario_spec().bounds, coord) {
                Ok(state_of(self.cells_spec(), coord))
            } else {
                Err(CaError::CoordinateOutsideBounds { coord })
            }),
    {
        if !self.scenario.bounds.contains(coord) {
            return Err(CaError::CoordinateOutsideBounds { coord });
        }
        Ok(self.cell_state(coord))
    }

    /// The non-empty cells in coordinate order.
    pub fn active_cells(&self) -> (r: Vec<CaSeedCell>)
        ensures
            r@ == self.cells_spec(),
            self.wf() ==> cells_wf(r@, self.scenario_spec().bounds),
    {
        copy_cells(&self.cells)
    }

    fn evaluate(&self, coord: CaCoord, previous: CaCellState, next_step: u32) -> (r: CaCellState)
        requires
            self.wf(),
            in_bounds(self.scenario_spec().bounds, coord),
        ensures
            r == evaluate_spec(space_of(self.scenario_spec()), self.cells_spec(), coord, previous, next_step),
    {
        evaluate(&self.scenario, &self.cells, coord, previous, next_step)
    }

    /// Advances one step over the current candidates.
    pub fn step(&mut self) -> (r: Result<CaStepEvidence, CaError>)
        requires
            old(self).wf(),
        ensures
            final(self).wf(),
            final(self).scenario_spec() == old(self).scenario_spec(),
            final(self).initial_hash_spec() == old(self).initial_hash_spec(),
            Self::step_outcome(*old(self), *final(self), r, old(self).candidates_spec().len()),
    {
        let candidates = copy_coords(&self.candidates);
        self.step_with_candidates(candidates)
    }

    /// What a step answers: the step-limit error once the declared steps are
    /// done, else the evidence; a valid scenario never exceeds its quotas.
    pub open spec fn step_outcome(
        before: CaAutomaton,
        after: CaAutomaton,
        r: Result<CaStepEvidence, CaError>,
        evaluated: nat,
    ) -> bool {
        let sc = space_of(before.scenario_spec());
        let next_step = (before.step_spec() + 1) as u32;
        match r {
            Err(e) => {
                &&& after == before
                &&& before.step_spec() >= before.scenario_spec().steps
                &&& e == CaError::DeclaredStepLimitReached {
                    completed: before.step_spec(),
                    declared: before.scenario_spec().steps,
                }
            },
            Ok(ev) => {
                &&& before.step_spec() < before.scenario_spec().steps
                &&& step_failure(sc, before.cells_spec(), next_step) is None
                &&& step_evidence(
                    before.scenario_spec().id@,
                    sc,
                    before.cells_spec(),
                    before.cumulative_hash_spec(),
                    next_step,
                    evaluated,
                    ev,
                )
                &&& delta_spec(sc, before.cells_spec(), next_step, ev.deltas@)
                &&& after.step_spec() == next_step
                &&& after.cells_spec() == step_cells(sc, before.cells_spec(), next_step)
                &&& next_cells_spec(sc, before.cells_spec(), next_step, after.cells_spec())
                &&& after.cumulative_hash_spec() == ev.cumulative_scenario_hash@
                &&& after.candidates_spec() == candidate_seq(sc, delta_coords(ev.deltas@))
            },
        }
    }

    /// Advances one step evaluating the given coordinates, which must hold
    /// every cell that the step changes.
    pub fn step_with_candidates(&mut self, candidates: Vec<CaCoord>) -> (r: Result<
        CaStepEvidence,
        CaError,
    >)
        requires
            old(self).wf(),
            coords_sorted(candidates@),
            forall|i: int|
                0 <= i < candidates@.len() ==> in_bounds(
                    old(self).scenario_spec().bounds,
                    #[trigger] candidates@[i],
                ),
            covers(
                space_of(old(self).scenario_spec()),
                old(self).cells_spec(),
                candidates@,
                (old(self).step_spec() + 1) as u32,
            ),
        ensures
            final(self).wf(),
            final(self).scenario_spec() == old(self).scenario_spec(),
            final(self).initial_hash_spec() == old(self).initial_hash_spec(),
            Self::step_outcome(*old(self), *final(self), r, candidates@.len()),
    {
        proof {
            reveal(CaAutomaton::step_outcome);
        }
        if self.step >= self.scenario.steps {
            return Err(
                CaError::DeclaredStepLimitReached {
                    completed: self.step,
                    declared: self.scenario.steps,
                },
            );
        }
        let next_step = self.step + 1;
        let deltas = compute_deltas(&self.scenario, &self.cells, &candidates, next_step);
        proof {
            lemma_step_deltas(space_of(self.scenario), self.cells@, next_step, deltas@);
            lemma_volume_is_size(self.scenario.bounds);
            lemma_deltas_fit(space_of(self.scenario), self.cells@, next_step, deltas@);
        }
        if deltas.len() as u64 > CA_MAX_VOLUME {
            return Err(CaError::DeltaQuotaExceeded { count: deltas.len(), limit: CA_MAX_VOLUME });
        }
        let proposed = apply_deltas(&self.scenario, &self.cells, &deltas, next_step);
        proof {
            lemma_step_cells(space_of(self.scenario), self.cells@, next_step, proposed@);
            lemma_cells_fit(self.scenario.bounds, proposed@);
            lemma_active_count_bound(proposed@);
        }
        let volume = match self.scenario.bounds.volume() {
            Ok(v) => v,
            Err(e) => return Err(e),
        };
        let counts = match state_counts(volume, &proposed) {
            Ok(c) => c,
            Err(e) => return Err(e),
        };
        let touched = touched_bounds(&deltas);
        let delta_hash = hash_delta_input(&self.scenario.id, self.scenario.rule, next_step, &deltas);
        let state_hash = hash_cells(&proposed);
        let active = counts.active();
        let cumulative = hash_cumulative_input(
            &self.cumulative_scenario_hash,
            &delta_hash,
            &state_hash,
            next_step,
            active,
            touched,
        );
        let evaluated_cell_count = candidates.len() as u64;
        let changed_cell_count = deltas.len() as u64;
        let origins = coords_of_deltas(&deltas);
        proof {
            assert forall|k: int| 0 <= k < origins@.len() implies in_bounds(
                self.scenario.bounds,
                #[trigger] origins@[k],
            ) by {
                assert(origins@[k] == deltas@[k].coord);
                assert(changes(space_of(self.scenario), self.cells@, deltas@[k].coord, next_step));
            }
        }
        let next_candidates = candidates_from(&self.scenario, &origins);
        proof {
            reveal(step_evidence);
            lemma_next_candidates_cover(
                space_of(self.scenario),
                self.cells@,
                next_step,
                deltas@,
                proposed@,
                next_candidates@,
                (next_step + 1) as u32,
            );
            lemma_candidate_seq(space_of(self.scenario), origins@, next_candidates@);
        }
        self.cells = proposed;
        self.candidates = next_candidates;
        self.step = next_step;
        self.cumulative_scenario_hash = cumulative.clone();
        Ok(
            CaStepEvidence {
                step: next_step,
                active_cell_count: active,
                changed_cell_count,
                evaluated_cell_count,
                touched_bounds: touched,
                state_counts: counts,
                deltas,
                delta_hash,
                state_hash,
                cumulative_scenario_hash: cumulative,
            },
        )
    }
}

/// Well-formed cells are all active: their active count is their length.
pub proof fn lemma_active_count_all(cells: Seq<CaSeedCell>)
    requires
        forall|i: int| 0 <= i < cells.len() ==> (#[trigger] cells[i]).state != CaCellState::Empty,
    ensures
        active_count(cells) == cells.len(),
    decreases cells.len(),
{
    if cells.len() > 0 {
        let d = cells.drop_last();
        assert forall|i: int| 0 <= i < d.len() implies (#[trigger] d[i]).state != CaCellState::Empty by {
            assert(d[i] == cells[i]);
        }
        lemma_active_count_all(d);
        assert(cells.last() == cells[cells.len() - 1]);
    }
}

/// What the evidence `ev` of a step from cells `c0` to cells `c2` says: the
/// changed cells in coordinate order, each with its state before and after;
/// every other cell of the box kept; every cell of the box counted once.
pub open spec fn evidence_facts(sc: CaSpace, c0: Seq<CaSeedCell>, c2: Seq<CaSeedCell>, ev: CaStepEvidence) -> bool {
    let d = ev.deltas@;
    &&& ev.changed_cell_count == d.len()
    &&& forall|i: int, j: int| 0 <= i < j < d.len() ==> coord_lt(#[trigger] d[i].coord, #[trigger] d[j].coord)
    &&& forall|i: int|
        0 <= i < d.len() ==> {
            &&& (#[trigger] d[i]).previous != d[i].current
            &&& d[i].previous == state_of(c0, d[i].coord)
            &&& state_of(c2, d[i].coord) == d[i].current
        }
    &&& forall|c: CaCoord|
        in_bounds(sc.bounds, c) && !(exists|i: int| 0 <= i < d.len() && (#[trigger] d[i]).coord == c)
            ==> #[trigger] state_of(c2, c) == state_of(c0, c)
    &&& ev.state_counts.empty + ev.state_counts.active_spec() == scenario_volume(sc)
    &&& ev.active_cell_count == ev.state_counts.active_spec()
    &&& ev.active_cell_count == c2.len()
    &&& ev.touched_bounds == touched_spec(d)
    &&& ev.state_hash@ == hash_of(cells_json(c2))
}

/// A step succeeds exactly when steps remain (no quota of a valid scenario
/// can fail); then
/// the step count grows by one and the evidence lists, in coordinate order,
/// the cells that changed with their states before and after, leaves every
/// other cell of the box as it was, and counts every cell of the box once.
/// A failed step leaves the automaton as it was, and a step past the
/// declared count answers the step-limit error.
pub proof fn lemma_step_law(
    before: CaAutomaton,
    after: CaAutomaton,
    r: Result<CaStepEvidence, CaError>,
    evaluated: nat,
)
    requires
        before.wf(),
        after.wf(),
        CaAutomaton::step_outcome(before, after, r, evaluated),
    ensures
        (r is Ok) == (before.step_spec() < before.scenario_spec().steps),
        r is Ok ==> step_failure(
            space_of(before.scenario_spec()),
            before.cells_spec(),
            (before.step_spec() + 1) as u32,
        ) is None,
        r is Err ==> after == before,
        before.step_spec() >= before.scenario_spec().steps ==> r == Err::<CaStepEvidence, CaError>(
            CaError::DeclaredStepLimitReached {
                completed: before.step_spec(),
                declared: before.scenario_spec().steps,
            },
        ),
        r matches Ok(ev) ==> {
            &&& ev.step == after.step_spec()
            &&& after.step_spec() == before.step_spec() + 1
            &&& evidence_facts(space_of(before.scenario_spec()), before.cells_spec(), after.cells_spec(), ev)
        },
{
    if let Ok(ev) = r {
        let sc = space_of(before.scenario_spec());
        let ns = (before.step_spec() + 1) as u32;
        lemma_evidence_numbers(before.scenario_spec().id@, sc, before.cells_spec(), before.cumulative_hash_spec(), ns, evaluated, ev, after.cells_spec());
        assert(active_count(after.cells_spec()) <= scenario_volume(sc));
        assert(step_relates(sc, before.cells_spec(), ns, ev.deltas@, after.cells_spec())) by {
            reveal(step_relates);
        }
        lemma_evidence_facts(sc, before.cells_spec(), ns, ev, after.cells_spec());
    }
}

/// The deltas `d` and the cells `c2` are those of the step from `c0`.
#[verifier::opaque]
spec fn step_relates(sc: CaSpace, c0: Seq<CaSeedCell>, ns: u32, d: Seq<CaCellDelta>, c2: Seq<CaSeedCell>) -> bool {
    delta_spec(sc, c0, ns, d) && next_cells_spec(sc, c0, ns, c2)
}

proof fn lemma_deltas_listed(sc: CaSpace, c0: Seq<CaSeedCell>, ns: u32, d: Seq<CaCellDelta>, c2: Seq<CaSeedCell>)
    requires
        step_relates(sc, c0, ns, d, c2),
    ensures
        forall|i: int, j: int| 0 <= i < j < d.len() ==> coord_lt(#[trigger] d[i].coord, #[trigger] d[j].coord),
        cells_wf(c2, sc.bounds),
        forall|i: int|
            0 <= i < d.len() ==> {
                &&& (#[trigger] d[i]).previous != d[i].current
                &&& d[i].previous == state_of(c0, d[i].coord)
                &&& state_of(c2, d[i].coord) == d[i].current
            },
{
    reveal(step_relates);
    assert forall|i: int| 0 <= i < d.len() implies {
        &&& (#[trigger] d[i]).previous != d[i].current
        &&& d[i].previous == state_of(c0, d[i].coord)
        &&& state_of(c2, d[i].coord) == d[i].current
    } by {
        assert(changes(sc, c0, d[i].coord, ns));
        assert(state_of(c2, d[i].coord) == next_state(sc, c0, d[i].coord, ns));
    }
}

proof fn lemma_others_kept(sc: CaSpace, c0: Seq<CaSeedCell>, ns: u32, d: Seq<CaCellDelta>, c2: Seq<CaSeedCell>)
    requires
        step_relates(sc, c0, ns, d, c2),
    ensures
        forall|c: CaCoord|
            in_bounds(sc.bounds, c) && !(exists|i: int| 0 <= i < d.len() && (#[trigger] d[i]).coord == c)
                ==> #[trigger] state_of(c2, c) == state_of(c0, c),
{
    reveal(step_relates);
    assert forall|c: CaCoord|
        in_bounds(sc.bounds, c) && !(exists|i: int| 0 <= i < d.len() && (#[trigger] d[i]).coord == c)
            implies #[trigger] state_of(c2, c) == state_of(c0, c) by {
        assert(state_of(c2, c) == next_state(sc, c0, c, ns));
        if changes(sc, c0, c, ns) {
            let i = choose|i: int| 0 <= i < d.len() && (#[trigger] d[i]).coord == c;
            assert(d[i].coord == c);
        }
    }
}

proof fn lemma_evidence_numbers(
    id: Seq<char>,
    sc: CaSpace,
    c0: Seq<CaSeedCell>,
    prev: Seq<char>,
    ns: u32,
    evaluated: nat,
    ev: CaStepEvidence,
    c2: Seq<CaSeedCell>,
)
    requires
        step_evidence(id, sc, c0, prev, ns, evaluated, ev),
        delta_spec(sc, c0, ns, ev.deltas@),
        c2 == step_cells(sc, c0, ns),
    ensures
        ev.step == ns,
        ev.changed_cell_count == ev.deltas@.len(),
        ev.touched_bounds == touched_spec(ev.deltas@),
        ev.state_counts == state_counts_spec(c2, scenario_volume(sc)),
        ev.active_cell_count == active_count(c2),
        ev.state_hash@ == hash_of(cells_json(c2)),
{
    reveal(step_evidence);
    lemma_step_deltas(sc, c0, ns, ev.deltas@);
}

#[verifier::spinoff_prover]
proof fn lemma_evidence_facts(sc: CaSpace, c0: Seq<CaSeedCell>, ns: u32, ev: CaStepEvidence, c2: Seq<CaSeedCell>)
    requires
        ev.changed_cell_count == ev.deltas@.len(),
        ev.touched_bounds == touched_spec(ev.deltas@),
        ev.state_counts == state_counts_spec(c2, scenario_volume(sc)),
        ev.active_cell_count == active_count(c2),
        active_count(c2) <= scenario_volume(sc),
        ev.state_hash@ == hash_of(cells_json(c2)),
        step_relates(sc, c0, ns, ev.deltas@, c2),
    ensures
        evidence_facts(sc, c0, c2, ev),
{
    lemma_deltas_listed(sc, c0, ns, ev.deltas@, c2);
    lemma_others_kept(sc, c0, ns, ev.deltas@, c2);
    lemma_counts_add_up(sc, c2, ev);
}

proof fn lemma_counts_add_up(sc: CaSpace, c2: Seq<CaSeedCell>, ev: CaStepEvidence)
    requires
        ev.state_counts == state_counts_spec(c2, scenario_volume(sc)),
        ev.active_cell_count == active_count(c2),
        active_count(c2) <= scenario_volume(sc),
        cells_wf(c2, sc.bounds),
    ensures
        ev.state_counts.empty + ev.state_counts.active_spec() == scenario_volume(sc),
        ev.active_cell_count == ev.state_counts.active_spec(),
        ev.active_cell_count == c2.len(),
{
    lemma_active_count_all(c2);
}

/// A step's answer does not depend on which covering candidates it
/// evaluates: two steps from the same automaton (by `step`, or by
/// `step_with_candidates` over any coordinates that cover the changes, such
/// as the whole box) succeed or fail alike, fail with the same error, and
/// on success give the same deltas, hashes and cells.
pub proof fn lemma_step_independent_of_candidates(
    before: CaAutomaton,
    a1: CaAutomaton,
    r1: Result<CaStepEvidence, CaError>,
    n1: nat,
    a2: CaAutomaton,
    r2: Result<CaStepEvidence, CaError>,
    n2: nat,
)
    requires
        CaAutomaton::step_outcome(before, a1, r1, n1),
        CaAutomaton::step_outcome(before, a2, r2, n2),
    ensures
        (r1 is Ok) == (r2 is Ok),
        r1 is Err ==> r1 == r2 && a1 == a2,
        match (r1, r2) {
            (Ok(e1), Ok(e2)) => {
            &&& e1.deltas@ == e2.deltas@
            &&& e1.delta_hash@ == e2.delta_hash@
            &&& e1.state_hash@ == e2.state_hash@
            &&& e1.cumulative_scenario_hash@ == e2.cumulative_scenario_hash@
            &&& e1.state_counts == e2.state_counts
            &&& e1.active_cell_count == e2.active_cell_count
            &&& e1.touched_bounds == e2.touched_bounds
            &&& a1.cells_spec() == a2.cells_spec()
            &&& a1.step_spec() == a2.step_spec()
            &&& a1.cumulative_hash_spec() == a2.cumulative_hash_spec()
            },
            _ => true,
        },
{
    reveal(step_evidence);
}

} // verus!
