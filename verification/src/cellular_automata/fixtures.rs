//! Whole scenario runs, scenario suites and the delta fixtures generated
//! from them.

use vstd::prelude::*;
use vstd::string::*;

use super::automaton::{
    candidate_seq, copy_scenario, initial_cells, same_scenario, step_evidence, step_failure,
    CaAutomaton,
};
use super::cells::cell_coords;
use super::domain::{active_count, delta_coords, step_cells, step_deltas, touched_spec};
use super::encode::{cells_json, cumulative_input_json, delta_input_json, hash_of, initial_input_json};
use super::{
    rule_id_spec, scenario_check, space_of, CaDeltaFixtureSet, CaError, CaScenario, CaScenarioTrace,
    CaCoord, CaSeedCell, CaSpace, CaStepEvidence, CA_DELTA_FIXTURE_SET_KIND, CA_MAX_SCENARIOS,
    CA_SCENARIO_SUITE_KIND,
};
use crate::text::str_eq;

verus! {

/// The cells after `n` steps of a scenario with dynamics `sp` and seeds.
pub open spec fn run_cells(sp: CaSpace, seeds: Seq<CaSeedCell>, n: nat) -> Seq<CaSeedCell>
    decreases n,
{
    if n == 0 {
        initial_cells(sp.bounds, seeds)
    } else {
        step_cells(sp, run_cells(sp, seeds, (n - 1) as nat), n as u32)
    }
}

/// The coordinates that step `n + 1` evaluates.
pub open spec fn run_candidates(sp: CaSpace, seeds: Seq<CaSeedCell>, n: nat) -> Seq<CaCoord> {
    if n == 0 {
        candidate_seq(sp, cell_coords(initial_cells(sp.bounds, seeds)))
    } else {
        candidate_seq(
            sp,
            delta_coords(step_deltas(sp, run_cells(sp, seeds, (n - 1) as nat), n as u32)),
        )
    }
}

pub open spec fn scenario_cells(sc: CaScenario, n: nat) -> Seq<CaSeedCell> {
    run_cells(space_of(sc), sc.initial_cells@, n)
}

/// The cumulative scenario hash after `n` steps.
pub open spec fn run_cumulative(sc: CaScenario, n: nat) -> Seq<char>
    decreases n,
{
    let sp = space_of(sc);
    if n == 0 {
        hash_of(initial_input_json(sc, hash_of(cells_json(scenario_cells(sc, 0)))))
    } else {
        let d = step_deltas(sp, scenario_cells(sc, (n - 1) as nat), n as u32);
        let c2 = scenario_cells(sc, n);
        hash_of(
            cumulative_input_json(
                run_cumulative(sc, (n - 1) as nat),
                hash_of(delta_input_json(sc.id@, rule_id_spec(sc.rule), n as u32, d)),
                hash_of(cells_json(c2)),
                n as u32,
                active_count(c2) as u64,
                touched_spec(d),
            ),
        )
    }
}

/// No step among the first `n` fails.
#[verifier::opaque]
pub open spec fn steps_succeed(sc: CaScenario, n: nat) -> bool {
    forall|m: nat|
        m < n ==> #[trigger] step_failure(space_of(sc), scenario_cells(sc, m), (m + 1) as u32)
            is None
}

/// `steps` is the evidence of the first `n` steps of `sc`.
#[verifier::opaque]
pub open spec fn evidence_upto(sc: CaScenario, steps: Seq<CaStepEvidence>, n: nat) -> bool {
    &&& steps.len() == n
    &&& forall|i: int|
        0 <= i < n ==> step_evidence(
            sc.id@,
            space_of(sc),
            scenario_cells(sc, i as nat),
            run_cumulative(sc, i as nat),
            (i + 1) as u32,
            run_candidates(space_of(sc), sc.initial_cells@, i as nat).len(),
            #[trigger] steps[i],
        )
}

/// `t` is the trace of running `sc` to its declared step count.
pub open spec fn run_trace_spec(sc: CaScenario, t: CaScenarioTrace) -> bool {
    &&& scenario_check(sc) is Ok
    &&& steps_succeed(sc, sc.steps as nat)
    &&& t.scenario_id == sc.id
    &&& t.workload == sc.workload
    &&& t.rule_id@ == rule_id_spec(sc.rule)@
    &&& t.seed == sc.seed
    &&& t.bounds == sc.bounds
    &&& t.neighborhood == sc.neighborhood
    &&& t.boundary == sc.boundary
    &&& t.initial_state_hash@ == hash_of(cells_json(scenario_cells(sc, 0)))
    &&& evidence_upto(sc, t.steps@, sc.steps as nat)
    &&& t.final_state_hash@ == hash_of(cells_json(scenario_cells(sc, sc.steps as nat)))
    &&& t.final_scenario_hash@ == run_cumulative(sc, sc.steps as nat)
}

/// `e` is why running `sc` fails: the scenario is invalid, or a step fails
/// after all earlier steps succeeded.
pub open spec fn run_error_spec(sc: CaScenario, e: CaError) -> bool {
    ||| scenario_check(sc) == Err::<(), CaError>(e)
    ||| {
        &&& scenario_check(sc) is Ok
        &&& exists|m: nat|
            m < sc.steps && steps_succeed(sc, m) && #[trigger] step_failure(
                space_of(sc),
                scenario_cells(sc, m),
                (m + 1) as u32,
            ) == Some(e)
    }
}

pub proof fn lemma_run_congruent(a: CaScenario, b: CaScenario, n: nat)
    requires
        same_scenario(a, b),
    ensures
        run_cumulative(a, n) == run_cumulative(b, n),
        scenario_cells(a, n) == scenario_cells(b, n),
    decreases n,
{
    if n > 0 {
        lemma_run_congruent(a, b, (n - 1) as nat);
    }
}

/// What the automaton holds after `n` steps of `sc`.
#[verifier::opaque]
pub open spec fn run_state(sc: CaScenario, a: CaAutomaton, n: nat) -> bool {
    &&& a.wf()
    &&& a.scenario_spec() == sc
    &&& scenario_check(sc) is Ok
    &&& a.step_spec() == n
    &&& n <= sc.steps
    &&& a.cells_spec() == scenario_cells(sc, n)
    &&& a.cumulative_hash_spec() == run_cumulative(sc, n)
    &&& a.candidates_spec() == run_candidates(space_of(sc), sc.initial_cells@, n)
    &&& a.initial_hash_spec() == hash_of(cells_json(scenario_cells(sc, 0)))
}

proof fn lemma_run_start(sc: CaScenario, a: CaAutomaton)
    requires
        a.wf(),
        a.scenario_spec() == sc,
        scenario_check(sc) is Ok,
        a.step_spec() == 0,
        a.cells_spec() == initial_cells(sc.bounds, sc.initial_cells@),
        a.candidates_spec() == candidate_seq(
            space_of(sc),
            cell_coords(initial_cells(sc.bounds, sc.initial_cells@)),
        ),
        a.initial_hash_spec() == hash_of(cells_json(initial_cells(sc.bounds, sc.initial_cells@))),
        a.cumulative_hash_spec() == hash_of(initial_input_json(sc, a.initial_hash_spec())),
    ensures
        run_state(sc, a, 0),
        steps_succeed(sc, 0),
        evidence_upto(sc, Seq::empty(), 0),
{
    reveal(steps_succeed);
    reveal(evidence_upto);
    reveal(run_state);
}

/// The evidence of step `n + 1` fixes its deltas and the next cumulative hash.
proof fn lemma_evidence_next(sc: CaScenario, n: nat, evaluated: nat, ev: CaStepEvidence)
    requires
        n + 1 <= u32::MAX,
        step_evidence(
            sc.id@,
            space_of(sc),
            scenario_cells(sc, n),
            run_cumulative(sc, n),
            (n + 1) as u32,
            evaluated,
            ev,
        ),
    ensures
        ev.deltas@ == step_deltas(space_of(sc), scenario_cells(sc, n), (n + 1) as u32),
        ev.cumulative_scenario_hash@ == run_cumulative(sc, n + 1),
{
    reveal(step_evidence);
    assert(scenario_cells(sc, n + 1) == step_cells(space_of(sc), scenario_cells(sc, n), (n + 1) as u32));
}

proof fn lemma_succeed_next(sc: CaScenario, n: nat)
    requires
        steps_succeed(sc, n),
        step_failure(space_of(sc), scenario_cells(sc, n), (n + 1) as u32) is None,
    ensures
        steps_succeed(sc, n + 1),
{
    reveal(steps_succeed);
}

proof fn lemma_evidence_push(sc: CaScenario, steps: Seq<CaStepEvidence>, n: nat, ev: CaStepEvidence)
    requires
        evidence_upto(sc, steps, n),
        step_evidence(
            sc.id@,
            space_of(sc),
            scenario_cells(sc, n),
            run_cumulative(sc, n),
            (n + 1) as u32,
            run_candidates(space_of(sc), sc.initial_cells@, n).len(),
            ev,
        ),
    ensures
        evidence_upto(sc, steps.push(ev), n + 1),
{
    reveal(evidence_upto);
    let s2 = steps.push(ev);
    assert forall|i: int|
        0 <= i < n + 1 implies step_evidence(
        sc.id@,
        space_of(sc),
        scenario_cells(sc, i as nat),
        run_cumulative(sc, i as nat),
        (i + 1) as u32,
        run_candidates(space_of(sc), sc.initial_cells@, i as nat).len(),
        #[trigger] s2[i],
    ) by {
        if i < n {
            assert(s2[i] == steps[i]);
        } else {
            assert(s2[i] == ev);
        }
    }
}

proof fn lemma_run_advance(
    sc: CaScenario,
    before: CaAutomaton,
    after: CaAutomaton,
    ev: CaStepEvidence,
    n: nat,
)
    requires
        run_state(sc, before, n),
        n < sc.steps,
        after.wf(),
        after.scenario_spec() == before.scenario_spec(),
        after.initial_hash_spec() == before.initial_hash_spec(),
        CaAutomaton::step_outcome(before, after, Ok(ev), before.candidates_spec().len()),
    ensures
        run_state(sc, after, n + 1),
        after.step_spec() == n + 1,
        step_failure(space_of(sc), scenario_cells(sc, n), (n + 1) as u32) is None,
        step_evidence(
            sc.id@,
            space_of(sc),
            scenario_cells(sc, n),
            run_cumulative(sc, n),
            (n + 1) as u32,
            run_candidates(space_of(sc), sc.initial_cells@, n).len(),
            ev,
        ),
{
    reveal(run_state);
    reveal(CaAutomaton::step_outcome);
    lemma_evidence_next(sc, n, before.candidates_spec().len(), ev);
}

proof fn lemma_run_finish(sc: CaScenario, a: CaAutomaton, n: nat)
    requires
        run_state(sc, a, n),
        n >= sc.steps,
    ensures
        n == sc.steps,
        scenario_check(sc) is Ok,
        a.cells_spec() == scenario_cells(sc, n),
        a.cumulative_hash_spec() == run_cumulative(sc, n),
        a.initial_hash_spec() == hash_of(cells_json(scenario_cells(sc, 0))),
{
    reveal(run_state);
}

proof fn lemma_run_fail(sc: CaScenario, before: CaAutomaton, after: CaAutomaton, e: CaError, n: nat)
    requires
        run_state(sc, before, n),
        steps_succeed(sc, n),
        n < sc.steps,
        CaAutomaton::step_outcome(before, after, Err(e), before.candidates_spec().len()),
    ensures
        run_error_spec(sc, e),
{
    reveal(run_state);
    reveal(CaAutomaton::step_outcome);
    assert(step_failure(space_of(sc), scenario_cells(sc, n), (n + 1) as u32) == Some(e));
}

/// Runs a scenario to its declared step count.
pub fn run_ca_scenario(scenario: CaScenario) -> (r: Result<CaScenarioTrace, CaError>)
    ensures
        match r {
            Ok(t) => run_trace_spec(scenario, t),
            Err(e) => run_error_spec(scenario, e),
        },
        scenario_check(scenario) is Ok ==> r is Ok,
{
    let ghost sc = scenario;
    let mut automaton = match CaAutomaton::new(scenario) {
        Ok(a) => a,
        Err(e) => return Err(e),
    };
    proof {
        lemma_run_start(sc, automaton);
    }
    let initial_state_hash = String::from_str(automaton.initial_state_hash());
    let mut steps: Vec<CaStepEvidence> = Vec::new();
    let declared = automaton.scenario().steps;
    while automaton.completed_steps() < declared
        invariant
            run_state(sc, automaton, automaton.step_spec() as nat),
            automaton.wf(),
            automaton.scenario_spec() == sc,
            steps_succeed(sc, automaton.step_spec() as nat),
            evidence_upto(sc, steps@, automaton.step_spec() as nat),
            declared == sc.steps,
            sc == scenario,
        decreases declared - automaton.step_spec(),
    {
        let ghost before = automaton;
        let ghost n = automaton.step_spec() as nat;
        match automaton.step() {
            Ok(ev) => {
                proof {
                    lemma_run_advance(sc, before, automaton, ev, n);
                    lemma_succeed_next(sc, n);
                    lemma_evidence_push(sc, steps@, n, ev);
                }
                steps.push(ev);
            },
            Err(e) => {
                proof {
                    lemma_run_fail(sc, before, automaton, e, n);
                }
                return Err(e);
            },
        }
    }
    proof {
        lemma_run_finish(sc, automaton, automaton.step_spec() as nat);
    }
    let final_state_hash = match automaton.current_state_hash() {
        Ok(h) => h,
        Err(e) => return Err(e),
    };
    let sc_ref = automaton.scenario();
    let t = CaScenarioTrace {
        scenario_id: sc_ref.id.clone(),
        workload: sc_ref.workload,
        rule_id: String::from_str(sc_ref.rule.id()),
        seed: sc_ref.seed,
        bounds: sc_ref.bounds,
        neighborhood: sc_ref.neighborhood,
        boundary: sc_ref.boundary,
        initial_state_hash,
        steps,
        final_state_hash,
        final_scenario_hash: String::from_str(automaton.cumulative_hash()),
    };
    Ok(t)
}

/// A scenario run that passes validation and completes every declared step.
pub open spec fn run_ok(sc: CaScenario) -> bool {
    scenario_check(sc) is Ok && steps_succeed(sc, sc.steps as nat)
}

/// A run that fails does not complete.
pub proof fn lemma_run_error_not_ok(sc: CaScenario, e: CaError)
    requires
        run_error_spec(sc, e),
    ensures
        !run_ok(sc),
{
    reveal(steps_succeed);
    if scenario_check(sc) is Ok {
        let m = choose|m: nat|
            m < sc.steps && steps_succeed(sc, m) && #[trigger] step_failure(
                space_of(sc),
                scenario_cells(sc, m),
                (m + 1) as u32,
            ) == Some(e);
        assert(step_failure(space_of(sc), scenario_cells(sc, m), (m + 1) as u32) is Some);
    }
}

proof fn lemma_same_cells(a: CaScenario, b: CaScenario)
    requires
        same_scenario(a, b),
    ensures
        forall|n: nat| #[trigger] scenario_cells(a, n) == scenario_cells(b, n),
        forall|n: nat| #[trigger] run_cumulative(a, n) == run_cumulative(b, n),
{
    assert forall|n: nat| #[trigger] scenario_cells(a, n) == scenario_cells(b, n) by {
        lemma_run_congruent(a, b, n);
    }
    assert forall|n: nat| #[trigger] run_cumulative(a, n) == run_cumulative(b, n) by {
        lemma_run_congruent(a, b, n);
    }
}

proof fn lemma_same_succeed(a: CaScenario, b: CaScenario, n: nat)
    requires
        same_scenario(a, b),
    ensures
        steps_succeed(a, n) == steps_succeed(b, n),
{
    reveal(steps_succeed);
    lemma_same_cells(a, b);
    assert(space_of(a) == space_of(b));
    if steps_succeed(a, n) {
        assert forall|m: nat| m < n implies #[trigger] step_failure(
            space_of(b),
            scenario_cells(b, m),
            (m + 1) as u32,
        ) is None by {
            assert(scenario_cells(a, m) == scenario_cells(b, m));
            assert(step_failure(space_of(a), scenario_cells(a, m), (m + 1) as u32) is None);
        }
    }
    if steps_succeed(b, n) {
        assert forall|m: nat| m < n implies #[trigger] step_failure(
            space_of(a),
            scenario_cells(a, m),
            (m + 1) as u32,
        ) is None by {
            assert(scenario_cells(a, m) == scenario_cells(b, m));
            assert(step_failure(space_of(b), scenario_cells(b, m), (m + 1) as u32) is None);
        }
    }
}

proof fn lemma_same_evidence(a: CaScenario, b: CaScenario, st: Seq<CaStepEvidence>, n: nat)
    requires
        same_scenario(a, b),
    ensures
        evidence_upto(a, st, n) == evidence_upto(b, st, n),
{
    reveal(evidence_upto);
    lemma_same_cells(a, b);
    assert forall|i: int| 0 <= i < n implies (step_evidence(
        a.id@,
        space_of(a),
        scenario_cells(a, i as nat),
        run_cumulative(a, i as nat),
        (i + 1) as u32,
        run_candidates(space_of(a), a.initial_cells@, i as nat).len(),
        #[trigger] st[i],
    ) == step_evidence(
        b.id@,
        space_of(b),
        scenario_cells(b, i as nat),
        run_cumulative(b, i as nat),
        (i + 1) as u32,
        run_candidates(space_of(b), b.initial_cells@, i as nat).len(),
        st[i],
    )) by {
        assert(scenario_cells(a, i as nat) == scenario_cells(b, i as nat));
        assert(run_cumulative(a, i as nat) == run_cumulative(b, i as nat));
    }
}

/// Two copies of a scenario give the same trace.
pub proof fn lemma_same_scenario_trace(a: CaScenario, b: CaScenario, t: CaScenarioTrace)
    requires
        same_scenario(a, b),
    ensures
        run_trace_spec(a, t) == run_trace_spec(b, t),
{
    lemma_same_cells(a, b);
    lemma_same_succeed(a, b, a.steps as nat);
    lemma_same_evidence(a, b, t.steps@, a.steps as nat);
    assert(scenario_cells(a, 0) == scenario_cells(b, 0));
    assert(scenario_cells(a, a.steps as nat) == scenario_cells(b, b.steps as nat));
    assert(run_cumulative(a, a.steps as nat) == run_cumulative(b, b.steps as nat));
}

/// Two copies of a scenario fail alike.
pub proof fn lemma_same_scenario_error(a: CaScenario, b: CaScenario, e: CaError)
    requires
        same_scenario(a, b),
        run_error_spec(a, e),
    ensures
        run_error_spec(b, e),
{
    if scenario_check(a) is Ok {
        let m = choose|m: nat|
            m < a.steps && steps_succeed(a, m) && #[trigger] step_failure(
                space_of(a),
                scenario_cells(a, m),
                (m + 1) as u32,
            ) == Some(e);
        lemma_same_succeed(a, b, m);
        lemma_run_congruent(a, b, m);
        assert(step_failure(space_of(b), scenario_cells(b, m), (m + 1) as u32) == Some(e));
    }
}

pub struct CaScenarioSuite {
    pub kind: String,
    pub schema_version: u32,
    pub scenarios: Vec<CaScenario>,
}

/// The checks of the first `n` scenarios of a suite, in order: each
/// scenario's own validation, then the uniqueness of its identity.
pub open spec fn scenarios_check(scs: Seq<CaScenario>, n: int) -> Result<(), CaError>
    decreases n,
{
    if n <= 0 {
        Ok(())
    } else {
        match scenarios_check(scs, n - 1) {
            Err(e) => Err(e),
            Ok(()) => match scenario_check(scs[n - 1]) {
                Err(e) => Err(e),
                Ok(()) => if exists|j: int| 0 <= j < n - 1 && #[trigger] scs[j].id@ == scs[n - 1].id@ {
                    Err(CaError::DuplicateScenarioId { id: scs[n - 1].id })
                } else {
                    Ok(())
                },
            },
        }
    }
}

/// What validating a suite answers: its artifact identity, the scenario
/// quota, then each scenario in order.
pub open spec fn suite_check(s: CaScenarioSuite) -> Result<(), CaError> {
    if s.kind@ != CA_SCENARIO_SUITE_KIND@ || s.schema_version != 1 {
        Err(CaError::InvalidArtifactIdentity { expected: CA_SCENARIO_SUITE_KIND })
    } else if s.scenarios@.len() == 0 || s.scenarios@.len() > CA_MAX_SCENARIOS {
        Err(
            CaError::ScenarioQuotaExceeded {
                count: s.scenarios@.len() as usize,
                limit: CA_MAX_SCENARIOS,
            },
        )
    } else {
        scenarios_check(s.scenarios@, s.scenarios@.len() as int)
    }
}

proof fn lemma_scenarios_check_ok(scs: Seq<CaScenario>, n: int, i: int)
    requires
        0 <= i < n,
        scenarios_check(scs, n) is Ok,
    ensures
        scenarios_check(scs, i + 1) is Ok,
        scenario_check(scs[i]) is Ok,
    decreases n,
{
    if i < n - 1 {
        lemma_scenarios_check_ok(scs, n - 1, i);
    }
}

proof fn lemma_scenarios_check_stable(scs: Seq<CaScenario>, k: int, n: int)
    requires
        0 <= k <= n,
        scenarios_check(scs, k) is Err,
    ensures
        scenarios_check(scs, n) == scenarios_check(scs, k),
    decreases n - k,
{
    if n > k {
        lemma_scenarios_check_stable(scs, k, n - 1);
    }
}

/// What generating the delta fixtures of a suite answers: the suite's
/// validation error; else the traces of all its scenarios in order, or the
/// error of the first scenario whose run fails.
pub open spec fn fixtures_outcome(s: CaScenarioSuite, r: Result<CaDeltaFixtureSet, CaError>) -> bool {
    let scs = s.scenarios@;
    match suite_check(s) {
        Err(e) => r == Err::<CaDeltaFixtureSet, CaError>(e),
        Ok(()) => match r {
            Ok(f) => {
                &&& forall|i: int| 0 <= i < scs.len() ==> #[trigger] run_ok(scs[i])
                &&& f.kind@ == CA_DELTA_FIXTURE_SET_KIND@
                &&& f.schema_version == 1
                &&& f.suite_kind == s.kind
                &&& f.traces@.len() == scs.len()
                &&& forall|i: int| 0 <= i < scs.len() ==> run_trace_spec(scs[i], #[trigger] f.traces@[i])
            },
            Err(e) => exists|i: int|
                0 <= i < scs.len() && (forall|j: int| 0 <= j < i ==> #[trigger] run_ok(scs[j]))
                    && #[trigger] run_error_spec(scs[i], e),
        },
    }
}

impl CaScenarioSuite {
    /// Checks the suite's artifact identity, its scenario quota, and each
    /// scenario in order, refusing a repeated scenario identity.
    pub fn validate(&self) -> (r: Result<(), CaError>)
        ensures
            r == suite_check(*self),
    {
        if !str_eq(self.kind.as_str(), CA_SCENARIO_SUITE_KIND) || self.schema_version != 1 {
            return Err(CaError::InvalidArtifactIdentity { expected: CA_SCENARIO_SUITE_KIND });
        }
        let n = self.scenarios.len();
        if n == 0 || n > CA_MAX_SCENARIOS {
            return Err(CaError::ScenarioQuotaExceeded { count: n, limit: CA_MAX_SCENARIOS });
        }
        let ghost scs = self.scenarios@;
        let mut i: usize = 0;
        while i < n
            invariant
                n == scs.len(),
                scs == self.scenarios@,
                i <= n,
                suite_check(*self) == scenarios_check(scs, n as int),
                scenarios_check(scs, i as int) is Ok,
            decreases n - i,
        {
            let scenario = &self.scenarios[i];
            match scenario.validate() {
                Ok(()) => {},
                Err(e) => {
                    proof {
                        lemma_scenarios_check_stable(scs, i + 1, n as int);
                    }
                    return Err(e);
                },
            }
            let mut j: usize = 0;
            while j < i
                invariant
                    j <= i < n,
                    n == scs.len(),
                    scs == self.scenarios@,
                    *scenario == scs[i as int],
                    scenario_check(scs[i as int]) is Ok,
                    scenarios_check(scs, i as int) is Ok,
                    suite_check(*self) == scenarios_check(scs, n as int),
                    forall|k: int| 0 <= k < j ==> scs[k].id@ != scs[i as int].id@,
                decreases i - j,
            {
                if str_eq(self.scenarios[j].id.as_str(), scenario.id.as_str()) {
                    proof {
                        assert(scs[j as int].id@ == scs[i as int].id@);
                        lemma_scenarios_check_stable(scs, i + 1, n as int);
                    }
                    return Err(CaError::DuplicateScenarioId { id: scenario.id.clone() });
                }
                j = j + 1;
            }
            i = i + 1;
        }
        Ok(())
    }

    /// Runs every scenario of a valid suite and gathers the traces.
    #[verifier::rlimit(40)]
    pub fn generate_delta_fixtures(&self) -> (r: Result<CaDeltaFixtureSet, CaError>)
        ensures
            fixtures_outcome(*self, r),
            suite_check(*self) is Ok ==> r is Ok,
    {
        match self.validate() {
            Ok(()) => {},
            Err(e) => return Err(e),
        }
        let n = self.scenarios.len();
        let ghost scs = self.scenarios@;
        let mut traces: Vec<CaScenarioTrace> = Vec::new();
        let mut i: usize = 0;
        while i < n
            invariant
                n == scs.len(),
                scs == self.scenarios@,
                i <= n,
                suite_check(*self) is Ok,
                traces@.len() == i,
                forall|k: int| 0 <= k < i ==> #[trigger] run_ok(scs[k]),
                forall|k: int| 0 <= k < i ==> run_trace_spec(scs[k], #[trigger] traces@[k]),
            decreases n - i,
        {
            let copy = copy_scenario(&self.scenarios[i]);
            let ghost copied = copy;
            proof {
                lemma_scenarios_check_ok(scs, n as int, i as int);
                assert(scenario_check(copied) == scenario_check(scs[i as int]));
            }
            match run_ca_scenario(copy) {
                Ok(t) => {
                    proof {
                        lemma_same_scenario_trace(copied, scs[i as int], t);
                    }
                    traces.push(t);
                },
                Err(e) => {
                    proof {
                        lemma_same_scenario_error(copied, scs[i as int], e);
                    }
                    return Err(e);
                },
            }
            i = i + 1;
        }
        Ok(
            CaDeltaFixtureSet {
                kind: String::from_str(CA_DELTA_FIXTURE_SET_KIND),
                schema_version: 1,
                suite_kind: self.kind.clone(),
                traces,
            },
        )
    }
}

/// Two step evidences that agree field by field, text and lists by view.
pub open spec fn same_evidence(a: CaStepEvidence, b: CaStepEvidence) -> bool {
    &&& a.step == b.step
    &&& a.active_cell_count == b.active_cell_count
    &&& a.changed_cell_count == b.changed_cell_count
    &&& a.evaluated_cell_count == b.evaluated_cell_count
    &&& a.touched_bounds == b.touched_bounds
    &&& a.state_counts == b.state_counts
    &&& a.deltas@ == b.deltas@
    &&& a.delta_hash@ == b.delta_hash@
    &&& a.state_hash@ == b.state_hash@
    &&& a.cumulative_scenario_hash@ == b.cumulative_scenario_hash@
}

/// Two runs that give equal traces, every hash included, or equal errors.
pub open spec fn same_run(a: Result<CaScenarioTrace, CaError>, b: Result<CaScenarioTrace, CaError>) -> bool {
    match (a, b) {
        (Ok(t1), Ok(t2)) => {
            &&& t1.scenario_id@ == t2.scenario_id@
            &&& t1.workload == t2.workload
            &&& t1.rule_id@ == t2.rule_id@
            &&& t1.seed == t2.seed
            &&& t1.bounds == t2.bounds
            &&& t1.neighborhood == t2.neighborhood
            &&& t1.boundary == t2.boundary
            &&& t1.initial_state_hash@ == t2.initial_state_hash@
            &&& t1.steps@.len() == t2.steps@.len()
            &&& forall|i: int| 0 <= i < t1.steps@.len() ==> same_evidence(#[trigger] t1.steps@[i], t2.steps@[i])
            &&& t1.final_state_hash@ == t2.final_state_hash@
            &&& t1.final_scenario_hash@ == t2.final_scenario_hash@
        },
        (Err(e1), Err(e2)) => e1 == e2,
        _ => false,
    }
}

/// The run of a scenario depends on the scenario alone: any two results
/// that `run_ca_scenario` may give for it are the same trace or the same
/// error.
pub proof fn lemma_run_deterministic(
    sc: CaScenario,
    r1: Result<CaScenarioTrace, CaError>,
    r2: Result<CaScenarioTrace, CaError>,
)
    requires
        match r1 {
            Ok(t) => run_trace_spec(sc, t),
            Err(e) => run_error_spec(sc, e),
        },
        match r2 {
            Ok(t) => run_trace_spec(sc, t),
            Err(e) => run_error_spec(sc, e),
        },
    ensures
        same_run(r1, r2),
{
    reveal(steps_succeed);
    reveal(evidence_upto);
    match (r1, r2) {
        (Ok(t1), Ok(t2)) => {
            assert forall|i: int| 0 <= i < t1.steps@.len() implies same_evidence(#[trigger] t1.steps@[i], t2.steps@[i]) by {
                reveal(step_evidence);
                assert(step_evidence(
                    sc.id@,
                    space_of(sc),
                    scenario_cells(sc, i as nat),
                    run_cumulative(sc, i as nat),
                    (i + 1) as u32,
                    run_candidates(space_of(sc), sc.initial_cells@, i as nat).len(),
                    t1.steps@[i],
                ));
                assert(step_evidence(
                    sc.id@,
                    space_of(sc),
                    scenario_cells(sc, i as nat),
                    run_cumulative(sc, i as nat),
                    (i + 1) as u32,
                    run_candidates(space_of(sc), sc.initial_cells@, i as nat).len(),
                    t2.steps@[i],
                ));
            }
        },
        (Ok(t1), Err(e2)) => {
            if scenario_check(sc) is Ok {
                let m = choose|m: nat|
                    m < sc.steps && steps_succeed(sc, m) && #[trigger] step_failure(
                        space_of(sc),
                        scenario_cells(sc, m),
                        (m + 1) as u32,
                    ) == Some(e2);
                assert(step_failure(space_of(sc), scenario_cells(sc, m), (m + 1) as u32) is None);
            }
        },
        (Err(e1), Ok(t2)) => {
            if scenario_check(sc) is Ok {
                let m = choose|m: nat|
                    m < sc.steps && steps_succeed(sc, m) && #[trigger] step_failure(
                        space_of(sc),
                        scenario_cells(sc, m),
                        (m + 1) as u32,
                    ) == Some(e1);
                assert(step_failure(space_of(sc), scenario_cells(sc, m), (m + 1) as u32) is None);
            }
        },
        (Err(e1), Err(e2)) => {
            if scenario_check(sc) is Ok {
                let m1 = choose|m: nat|
                    m < sc.steps && steps_succeed(sc, m) && #[trigger] step_failure(
                        space_of(sc),
                        scenario_cells(sc, m),
                        (m + 1) as u32,
                    ) == Some(e1);
                let m2 = choose|m: nat|
                    m < sc.steps && steps_succeed(sc, m) && #[trigger] step_failure(
                        space_of(sc),
                        scenario_cells(sc, m),
                        (m + 1) as u32,
                    ) == Some(e2);
                if m1 < m2 {
                    assert(step_failure(space_of(sc), scenario_cells(sc, m1), (m1 + 1) as u32) is None);
                } else if m2 < m1 {
                    assert(step_failure(space_of(sc), scenario_cells(sc, m2), (m2 + 1) as u32) is None);
                }
            }
        },
    }
}

/// A trace holds one evidence per declared step, numbered from 1, and its
/// final hashes are those of its last step.
pub proof fn lemma_trace_shape(sc: CaScenario, t: CaScenarioTrace)
    requires
        run_trace_spec(sc, t),
    ensures
        t.steps@.len() == sc.steps,
        forall|i: int| 0 <= i < t.steps@.len() ==> (#[trigger] t.steps@[i]).step == i + 1,
        sc.steps > 0 ==> t.final_state_hash@ == t.steps@.last().state_hash@,
        sc.steps > 0 ==> t.final_scenario_hash@ == t.steps@.last().cumulative_scenario_hash@,
{
    reveal(evidence_upto);
    assert forall|i: int| 0 <= i < t.steps@.len() implies (#[trigger] t.steps@[i]).step == i + 1 by {
        reveal(step_evidence);
        assert(step_evidence(
            sc.id@,
            space_of(sc),
            scenario_cells(sc, i as nat),
            run_cumulative(sc, i as nat),
            (i + 1) as u32,
            run_candidates(space_of(sc), sc.initial_cells@, i as nat).len(),
            t.steps@[i],
        ));
    }
    if sc.steps > 0 {
        let n = sc.steps as nat;
        let i = (n - 1) as int;
        reveal(step_evidence);
        assert(step_evidence(
            sc.id@,
            space_of(sc),
            scenario_cells(sc, i as nat),
            run_cumulative(sc, i as nat),
            (i + 1) as u32,
            run_candidates(space_of(sc), sc.initial_cells@, i as nat).len(),
            t.steps@[i],
        ));
        assert(t.steps@.last() == t.steps@[i]);
        assert(scenario_cells(sc, n) == step_cells(space_of(sc), scenario_cells(sc, (n - 1) as nat), n as u32));
    }
}

} // verus!
