use rusty_procgen_preflight::cellular_automata::rules::wrap_axis;
use rusty_procgen_preflight::cellular_automata::{
    run_ca_scenario, CaAutomaton, CaBoundaryPolicy, CaBounds, CaCellState, CaCoord, CaError,
    CaNeighborhood, CaRule, CaScenario, CaScenarioSuite, CaSeedCell, CaStateCounts,
    CaWorkloadClass, CA_DELTA_FIXTURE_SET_KIND, CA_SCENARIO_SUITE_KIND,
};

fn sparse_scenario(boundary: CaBoundaryPolicy) -> CaScenario {
    CaScenario {
        id: "oracle.sparse".to_owned(),
        workload: CaWorkloadClass::SparsePropagation,
        seed: 7,
        bounds: CaBounds {
            min: CaCoord { x: -2, y: 0, z: -2 },
            max_exclusive: CaCoord { x: 3, y: 2, z: 3 },
        },
        neighborhood: CaNeighborhood::VonNeumann6,
        boundary,
        rule: CaRule::FrontierTrailV1,
        steps: 5,
        initial_cells: vec![CaSeedCell {
            coord: CaCoord { x: 2, y: 0, z: 0 },
            state: CaCellState::Source,
        }],
    }
}

fn assert_frontier_matches_full_scan(scenario: CaScenario) {
    let mut frontier = CaAutomaton::new(scenario.clone()).expect("frontier automaton");
    let mut oracle = CaAutomaton::new(scenario).expect("oracle automaton");
    while frontier.completed_steps() < frontier.scenario().steps {
        let frontier_step = frontier.step().expect("frontier step");
        let all = oracle.scenario().bounds.all_coords();
        let oracle_step = oracle
            .step_with_candidates(all)
            .expect("full scan step");
        assert_eq!(frontier_step.deltas, oracle_step.deltas);
        assert_eq!(frontier_step.state_hash, oracle_step.state_hash);
        assert_eq!(
            frontier_step.cumulative_scenario_hash,
            oracle_step.cumulative_scenario_hash
        );
    }
}

#[test]
fn sparse_frontier_matches_full_scan_for_fixed_and_wrapped_boundaries() {
    assert_frontier_matches_full_scan(sparse_scenario(CaBoundaryPolicy::FixedEmpty));
    assert_frontier_matches_full_scan(sparse_scenario(CaBoundaryPolicy::Wrap));
}

#[test]
fn declared_step_limit_rejects_without_mutation() {
    let mut scenario = sparse_scenario(CaBoundaryPolicy::FixedEmpty);
    scenario.steps = 1;
    let mut automaton = CaAutomaton::new(scenario).expect("automaton");
    automaton.step().expect("declared step");
    let before = automaton.current_state_hash().expect("before hash");
    let error = automaton.step().expect_err("one-over step");
    assert_eq!(error.code(), "declared_step_limit_reached");
    assert_eq!(automaton.current_state_hash().expect("after hash"), before);
    assert_eq!(automaton.completed_steps(), 1);
}

#[test]
fn bounds_volume_and_dimensions() {
    let bounds = CaBounds {
        min: CaCoord { x: -2, y: 0, z: -2 },
        max_exclusive: CaCoord { x: 3, y: 2, z: 3 },
    };
    assert_eq!(bounds.dimensions(), Ok([5, 2, 5]));
    assert_eq!(bounds.volume(), Ok(50));
    assert!(bounds.contains(CaCoord { x: -2, y: 1, z: 2 }));
    assert!(!bounds.contains(CaCoord { x: 3, y: 0, z: 0 }));
    let empty = CaBounds {
        min: CaCoord { x: 1, y: 0, z: 0 },
        max_exclusive: CaCoord { x: 1, y: 1, z: 1 },
    };
    assert_eq!(empty.dimensions().unwrap_err().code(), "invalid_bounds");
    assert_eq!(bounds.all_coords().len(), 50);
}

#[test]
fn state_counts_active_sums_non_empty_states() {
    let counts = CaStateCounts { empty: 9, source: 1, frontier: 2, trail: 3 };
    assert_eq!(counts.active(), 6);
}

#[test]
fn scenario_validation_errors() {
    let mut s = sparse_scenario(CaBoundaryPolicy::FixedEmpty);
    s.id = "Bad Id".to_owned();
    assert_eq!(s.validate().unwrap_err().code(), "invalid_id");

    let mut s = sparse_scenario(CaBoundaryPolicy::FixedEmpty);
    s.steps = 0;
    assert_eq!(s.validate().unwrap_err().code(), "step_quota_exceeded");

    let mut s = sparse_scenario(CaBoundaryPolicy::FixedEmpty);
    s.initial_cells.push(CaSeedCell {
        coord: CaCoord { x: 2, y: 0, z: 0 },
        state: CaCellState::Trail,
    });
    assert_eq!(
        s.validate(),
        Err(CaError::DuplicateSeedCell { coord: CaCoord { x: 2, y: 0, z: 0 } })
    );

    let mut s = sparse_scenario(CaBoundaryPolicy::FixedEmpty);
    s.initial_cells[0].state = CaCellState::Empty;
    assert_eq!(s.validate().unwrap_err().code(), "empty_seed_cell");

    let mut s = sparse_scenario(CaBoundaryPolicy::FixedEmpty);
    s.initial_cells[0].coord = CaCoord { x: 9, y: 0, z: 0 };
    assert_eq!(s.validate().unwrap_err().code(), "seed_outside_bounds");

    let mut s = sparse_scenario(CaBoundaryPolicy::FixedEmpty);
    s.bounds.max_exclusive = CaCoord { x: 1000, y: 1000, z: 1000 };
    assert_eq!(s.validate().unwrap_err().code(), "volume_quota_exceeded");

    assert_eq!(sparse_scenario(CaBoundaryPolicy::Wrap).validate(), Ok(()));
}

#[test]
fn state_at_reports_seed_and_rejects_outside() {
    let automaton = CaAutomaton::new(sparse_scenario(CaBoundaryPolicy::FixedEmpty)).unwrap();
    assert_eq!(
        automaton.state_at(CaCoord { x: 2, y: 0, z: 0 }),
        Ok(CaCellState::Source)
    );
    assert_eq!(
        automaton.state_at(CaCoord { x: 1, y: 0, z: 0 }),
        Ok(CaCellState::Empty)
    );
    assert_eq!(
        automaton.state_at(CaCoord { x: 5, y: 0, z: 0 }).unwrap_err().code(),
        "coordinate_outside_bounds"
    );
    assert_eq!(automaton.active_cells().len(), 1);
    assert!(automaton.initial_state_hash().starts_with("fnv1a64:"));
    assert_eq!(automaton.initial_state_hash().len(), "fnv1a64:".len() + 16);
}

#[test]
fn run_is_deterministic_and_matches_stepping() {
    let a = run_ca_scenario(sparse_scenario(CaBoundaryPolicy::Wrap)).unwrap();
    let b = run_ca_scenario(sparse_scenario(CaBoundaryPolicy::Wrap)).unwrap();
    assert_eq!(a, b);
    assert_eq!(a.steps.len(), 5);
    assert_eq!(a.rule_id, "frontier_trail_v1");
    let mut automaton = CaAutomaton::new(sparse_scenario(CaBoundaryPolicy::Wrap)).unwrap();
    for evidence in &a.steps {
        let step = automaton.step().unwrap();
        assert_eq!(&step, evidence);
        assert_eq!(step.changed_cell_count as usize, step.deltas.len());
    }
    assert_eq!(a.final_state_hash, automaton.current_state_hash().unwrap());
    assert_eq!(a.steps[4].cumulative_scenario_hash, a.final_scenario_hash);
}

#[test]
fn suite_rejects_duplicates_and_bad_identity() {
    let suite = CaScenarioSuite {
        kind: CA_SCENARIO_SUITE_KIND.to_owned(),
        schema_version: 1,
        scenarios: vec![
            sparse_scenario(CaBoundaryPolicy::Wrap),
            sparse_scenario(CaBoundaryPolicy::FixedEmpty),
        ],
    };
    assert_eq!(
        suite.validate(),
        Err(CaError::DuplicateScenarioId { id: "oracle.sparse".to_owned() })
    );
    let wrong = CaScenarioSuite {
        kind: "other".to_owned(),
        schema_version: 1,
        scenarios: vec![sparse_scenario(CaBoundaryPolicy::Wrap)],
    };
    assert_eq!(wrong.validate().unwrap_err().code(), "invalid_artifact_identity");
    let empty = CaScenarioSuite {
        kind: CA_SCENARIO_SUITE_KIND.to_owned(),
        schema_version: 1,
        scenarios: Vec::new(),
    };
    assert_eq!(empty.validate().unwrap_err().code(), "scenario_quota_exceeded");
}

#[test]
fn suite_generates_one_trace_per_scenario() {
    let mut second = sparse_scenario(CaBoundaryPolicy::FixedEmpty);
    second.id = "oracle.fixed".to_owned();
    let suite = CaScenarioSuite {
        kind: CA_SCENARIO_SUITE_KIND.to_owned(),
        schema_version: 1,
        scenarios: vec![sparse_scenario(CaBoundaryPolicy::Wrap), second.clone()],
    };
    let fixtures = suite.generate_delta_fixtures().unwrap();
    assert_eq!(fixtures.kind, CA_DELTA_FIXTURE_SET_KIND);
    assert_eq!(fixtures.schema_version, 1);
    assert_eq!(fixtures.suite_kind, CA_SCENARIO_SUITE_KIND);
    assert_eq!(fixtures.traces.len(), 2);
    assert_eq!(fixtures.traces[1], run_ca_scenario(second).unwrap());
}

#[test]
fn initial_state_hash_is_fnv_of_canonical_cells() {
    let automaton = CaAutomaton::new(sparse_scenario(CaBoundaryPolicy::FixedEmpty)).unwrap();
    assert_eq!(automaton.initial_state_hash(), "fnv1a64:b1d1e079ec813153");
}

#[test]
fn wrap_axis_takes_the_euclidean_remainder_of_any_value() {
    assert_eq!(wrap_axis(3, -2, 3), -2);
    assert_eq!(wrap_axis(-1, 0, 2), 1);
    assert_eq!(wrap_axis(-7, 0, 3), 2);
    assert_eq!(wrap_axis(100, 10, 13), 10);
    assert_eq!(wrap_axis(-9_000_000_000, -5, 5), 0);
    assert_eq!(wrap_axis(i64::MIN + 10, 0, 7), ((i64::MIN + 10).rem_euclid(7)) as i32);
}
