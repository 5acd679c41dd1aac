use std::cmp::Ordering;

use rusty_procgen_preflight::catalog::GridCell;
use rusty_procgen_preflight::catalog_outcome::{
    catalog_outcome_constraint_misses, catalog_outcome_metric_value, catalog_outcome_metrics,
    catalog_outcome_metrics_from_parts, catalog_outcome_ordering, catalog_primary_metric_name,
    catalog_route_bends, evaluate_catalog_outcome, validate_catalog_aware_policy,
    CatalogAwareAttemptEvidence, CatalogAwareGenerationPolicy, CatalogAwareOutcomeConstraints,
    CatalogAwareOutcomeMetric, CatalogAwareOutcomeMetrics, CatalogAwareOutcomePreferences,
};
use rusty_procgen_preflight::catalog_selection::{
    attempt_compaction, catalog_generation_failure, catalog_room_exit, catalog_room_exit_cell,
    catalog_validation_failure,
    CatalogOutcomeSelection,
};
use rusty_procgen_preflight::catalog_geometry::MatchedExit;
use rusty_procgen_preflight::graph::Diagnostic;
use rusty_procgen_preflight::intermediate::ValidationReport;
use rusty_procgen_preflight::model::Severity;

fn policy() -> CatalogAwareGenerationPolicy {
    CatalogAwareGenerationPolicy {
        kind: "rusty_procgen.catalog_aware_generation_policy.v2".to_owned(),
        schema_version: 2,
        max_generation_attempts: 4,
        initial_room_compaction_cells: 2,
        room_compaction_growth_cells: 3,
        max_room_candidates: 8,
        max_routing_states_per_section: 1_000,
        route_margin_cells: 16,
        guide_distance_weight: 1,
        turn_penalty: 2,
        outcome_constraints: CatalogAwareOutcomeConstraints::default(),
        outcome_preferences: CatalogAwareOutcomePreferences::default(),
    }
}

fn metrics(width: u64, height: u64, routed: u64, bends: u64, states: u64) -> CatalogAwareOutcomeMetrics {
    catalog_outcome_metrics_from_parts(width, height, routed, bends, states).expect("metrics")
}

fn cell(x: i32, y: i32) -> GridCell {
    GridCell { x, y }
}

#[test]
fn catalog_policy_defaults_and_valid_policy_pass() {
    let c = CatalogAwareOutcomeConstraints::default();
    assert_eq!(c.max_placement_width_cells, 4_096);
    assert_eq!(c.max_placement_area_cells, 16_777_216);
    assert_eq!(c.max_routed_catalog_cells, 1_048_576);
    let p = CatalogAwareOutcomePreferences::default();
    assert_eq!(p.primary_metric, CatalogAwareOutcomeMetric::PlacementSpan);
    assert_eq!(p.preferred_maximum, 286);
    assert!(validate_catalog_aware_policy(&policy()).is_ok());
}

#[test]
fn catalog_policy_errors_name_the_first_bad_field() {
    let mut p = policy();
    p.schema_version = 1;
    assert_eq!(
        validate_catalog_aware_policy(&p).unwrap_err(),
        "unsupported catalog-aware generation policy"
    );
    let mut p = policy();
    p.max_generation_attempts = 17;
    assert_eq!(
        validate_catalog_aware_policy(&p).unwrap_err(),
        "maxGenerationAttempts must be from 1 through 16"
    );
    let mut p = policy();
    p.room_compaction_growth_cells = 60;
    assert_eq!(
        validate_catalog_aware_policy(&p).unwrap_err(),
        "catalog-aware room compaction must remain from 0 through 128 cells"
    );
    let mut p = policy();
    p.max_room_candidates = 0;
    assert_eq!(
        validate_catalog_aware_policy(&p).unwrap_err(),
        "maxRoomCandidates must be from 1 through 64"
    );
    let mut p = policy();
    p.max_routing_states_per_section = 99;
    assert_eq!(
        validate_catalog_aware_policy(&p).unwrap_err(),
        "maxRoutingStatesPerSection must be from 100 through 1000000"
    );
    let mut p = policy();
    p.route_margin_cells = 7;
    assert_eq!(
        validate_catalog_aware_policy(&p).unwrap_err(),
        "routeMarginCells must be from 8 through 256"
    );
    let mut p = policy();
    p.outcome_constraints.max_placement_height_cells = 0;
    assert_eq!(
        validate_catalog_aware_policy(&p).unwrap_err(),
        "maxPlacementHeightCells must be from 1 through 4294967296"
    );
    let mut p = policy();
    p.outcome_constraints.max_routed_catalog_cells = 1_048_577;
    assert_eq!(
        validate_catalog_aware_policy(&p).unwrap_err(),
        "maxRoutedCatalogCells must be from 1 through 1048576"
    );
    let mut p = policy();
    p.outcome_preferences.preferred_maximum = 0;
    assert_eq!(
        validate_catalog_aware_policy(&p).unwrap_err(),
        "preferredMaximum must be from 1 through 9007199254740991"
    );
}

#[test]
fn catalog_metrics_from_parts_compute_span_and_area() {
    let m = metrics(3, 4, 10, 2, 7);
    assert_eq!(m.placement_span_cells, 7);
    assert_eq!(m.placement_area_cells, 12);
    assert_eq!(m.routing_states, 7);
    assert_eq!(
        catalog_outcome_metrics_from_parts(u64::MAX, 1, 0, 0, 0).unwrap_err(),
        "placement span arithmetic overflowed"
    );
    assert_eq!(
        catalog_outcome_metrics_from_parts(1 << 33, 1 << 33, 0, 0, 0).unwrap_err(),
        "placement area arithmetic overflowed"
    );
}

#[test]
fn catalog_metrics_measure_the_occupied_extent() {
    let cells = vec![cell(0, 0), cell(2, 1), cell(-1, 3)];
    let m = catalog_outcome_metrics(&cells, 5, 1, 9).expect("metrics");
    assert_eq!(m.placement_width_cells, 4);
    assert_eq!(m.placement_height_cells, 4);
    assert_eq!(m.placement_area_cells, 16);
    let empty = catalog_outcome_metrics(&Vec::new(), 0, 0, 0).expect("metrics");
    assert_eq!(empty.placement_width_cells, 0);
    assert_eq!(empty.placement_span_cells, 0);
}

#[test]
fn catalog_constraint_misses_list_each_exceeded_limit_in_order() {
    let constraints = CatalogAwareOutcomeConstraints {
        max_placement_width_cells: 4,
        max_placement_height_cells: 10,
        max_placement_area_cells: 20,
        max_routed_catalog_cells: 3,
    };
    let misses = catalog_outcome_constraint_misses(&metrics(5, 5, 3, 0, 0), &constraints);
    let names: Vec<&str> = misses.iter().map(|m| m.metric.as_str()).collect();
    assert_eq!(names, vec!["placement_width_cells", "placement_area_cells"]);
    assert_eq!(misses[0].actual, 5);
    assert_eq!(misses[0].limit, 4);
    assert_eq!(misses[1].actual, 25);
    assert!(catalog_outcome_constraint_misses(&metrics(1, 1, 1, 0, 0), &constraints).is_empty());
}

#[test]
fn catalog_metric_values_and_primary_names() {
    let m = metrics(3, 4, 10, 2, 7);
    assert_eq!(catalog_outcome_metric_value(&m, "placement_span_cells"), 7);
    assert_eq!(catalog_outcome_metric_value(&m, "placement_area_cells"), 12);
    assert_eq!(catalog_outcome_metric_value(&m, "routed_catalog_cells"), 10);
    assert_eq!(catalog_outcome_metric_value(&m, "route_bends"), 2);
    assert_eq!(catalog_outcome_metric_value(&m, "routing_states"), 7);
    assert_eq!(catalog_outcome_metric_value(&m, "unknown"), 0);
    assert_eq!(catalog_primary_metric_name(CatalogAwareOutcomeMetric::PlacementArea), "placement_area_cells");
    assert_eq!(
        catalog_primary_metric_name(CatalogAwareOutcomeMetric::RoutedCatalogCells),
        "routed_catalog_cells"
    );
}

#[test]
fn catalog_ordering_follows_the_primary_metric_then_the_rest() {
    let small = metrics(2, 2, 10, 0, 0);
    let wide = metrics(1, 4, 4, 0, 0);
    let (o, name) = catalog_outcome_ordering(&small, &wide, CatalogAwareOutcomeMetric::PlacementSpan);
    assert_eq!((o, name), (Ordering::Less, "placement_span_cells"));
    let (o, name) = catalog_outcome_ordering(&small, &wide, CatalogAwareOutcomeMetric::PlacementArea);
    assert_eq!((o, name), (Ordering::Less, "placement_span_cells"));
    let (o, name) = catalog_outcome_ordering(&small, &wide, CatalogAwareOutcomeMetric::RoutedCatalogCells);
    assert_eq!((o, name), (Ordering::Greater, "routed_catalog_cells"));
    let (o, name) = catalog_outcome_ordering(&small, &small, CatalogAwareOutcomeMetric::PlacementSpan);
    assert_eq!((o, name), (Ordering::Equal, "attempt_order"));
}

#[test]
fn catalog_ordering_swapped_arguments_reverse_the_order() {
    let a = metrics(3, 3, 8, 1, 40);
    let b = metrics(3, 3, 8, 2, 10);
    let (ab, m1) = catalog_outcome_ordering(&a, &b, CatalogAwareOutcomeMetric::PlacementSpan);
    let (ba, m2) = catalog_outcome_ordering(&b, &a, CatalogAwareOutcomeMetric::PlacementSpan);
    assert_eq!(ab, Ordering::Less);
    assert_eq!(ba, Ordering::Greater);
    assert_eq!(m1, "route_bends");
    assert_eq!(m1, m2);
}

#[test]
fn catalog_route_bends_count_direction_changes() {
    assert_eq!(catalog_route_bends(&vec![]), Some(0));
    assert_eq!(catalog_route_bends(&vec![cell(0, 0), cell(1, 0)]), Some(0));
    assert_eq!(catalog_route_bends(&vec![cell(0, 0), cell(1, 0), cell(2, 0)]), Some(0));
    assert_eq!(catalog_route_bends(&vec![cell(0, 0), cell(1, 0), cell(1, 1)]), Some(1));
    assert_eq!(
        catalog_route_bends(&vec![cell(0, 0), cell(1, 0), cell(1, 1), cell(2, 1)]),
        Some(2)
    );
    assert_eq!(
        catalog_route_bends(&vec![cell(i32::MIN, 0), cell(i32::MAX, 0), cell(i32::MAX, 1)]),
        None
    );
}

#[test]
fn catalog_evaluation_labels_first_retained_new_and_missed_outcomes() {
    let c = CatalogAwareOutcomeConstraints::default();
    let p = CatalogAwareOutcomePreferences { primary_metric: CatalogAwareOutcomeMetric::PlacementSpan, preferred_maximum: 5 };
    let first = metrics(2, 2, 4, 0, 3);
    let (ev, replaces) = evaluate_catalog_outcome(&first, None, &c, &p);
    assert!(replaces && ev.admissible && ev.preference_satisfied);
    assert_eq!(ev.comparison.ordering, "first_admissible");
    assert_eq!(ev.comparison.decisive_metric, "placement_span_cells");
    assert_eq!(ev.comparison.incumbent_attempt, None);

    let worse = metrics(3, 3, 4, 0, 3);
    let (ev, replaces) = evaluate_catalog_outcome(&worse, Some((0, first)), &c, &p);
    assert!(!replaces && ev.admissible && !ev.preference_satisfied);
    assert_eq!(ev.comparison.ordering, "incumbent_retained");
    assert_eq!(ev.comparison.decisive_metric, "placement_span_cells");
    assert_eq!(ev.comparison.incumbent_attempt, Some(0));

    let better = metrics(1, 2, 4, 0, 3);
    let (ev, replaces) = evaluate_catalog_outcome(&better, Some((1, first)), &c, &p);
    assert!(replaces);
    assert_eq!(ev.comparison.ordering, "new_incumbent");

    let tight = CatalogAwareOutcomeConstraints { max_routed_catalog_cells: 2, ..c };
    let (ev, replaces) = evaluate_catalog_outcome(&better, None, &tight, &p);
    assert!(!replaces && !ev.admissible && !ev.preference_satisfied);
    assert_eq!(ev.comparison.ordering, "constraint_miss");
    assert_eq!(ev.comparison.decisive_metric, "routed_catalog_cells");
    assert_eq!(ev.constraint_misses.len(), 1);
}

#[test]
fn catalog_attempt_compaction_grows_per_attempt() {
    let p = policy();
    assert_eq!(attempt_compaction(&p, 0), 2);
    assert_eq!(attempt_compaction(&p, 3), 11);
    let mut big = policy();
    big.initial_room_compaction_cells = i32::MAX - 1;
    assert_eq!(attempt_compaction(&big, 5), i32::MAX);
}

#[test]
fn catalog_selection_keeps_the_best_admissible_outcome() {
    let mut p = policy();
    p.outcome_preferences.preferred_maximum = 3;
    let mut s = CatalogOutcomeSelection::new();
    assert_eq!(s.final_classification, "generation_infeasibility");
    assert_eq!(s.exhausted_classification().as_deref(), Some("generation_infeasibility"));

    let stop = s.record_outcome(&p, 0, &metrics(3, 3, 4, 0, 9), 2, 1, 9);
    assert!(!stop);
    assert_eq!(s.best.map(|(a, _)| a), Some(0));
    assert_eq!(s.attempts.len(), 1);
    assert_eq!(s.attempts[0].classification, "admissible");
    assert_eq!(s.attempts[0].stage, "outcome_selection");
    assert_eq!(s.attempts[0].room_compaction_cells, 2);

    let stop = s.record_outcome(&p, 1, &metrics(4, 4, 4, 0, 9), 2, 1, 9);
    assert!(!stop);
    assert_eq!(s.best.map(|(a, _)| a), Some(0));

    let stop = s.record_outcome(&p, 2, &metrics(1, 2, 4, 0, 9), 2, 1, 9);
    assert!(stop);
    assert_eq!(s.best.map(|(a, _)| a), Some(2));
    assert_eq!(s.exhausted_classification(), None);
}

#[test]
fn catalog_selection_reports_constraint_misses_and_failures() {
    let mut p = policy();
    p.outcome_constraints.max_placement_width_cells = 2;
    let mut s = CatalogOutcomeSelection::new();
    s.record_failure(CatalogAwareAttemptEvidence {
        attempt: 0,
        room_compaction_cells: 2,
        classification: "routing_infeasibility".to_owned(),
        stage: "routing".to_owned(),
        detail: "no route".to_owned(),
        rooms_placed: 1,
        sections_routed: 0,
        routing_states: 100,
        outcome: None,
    });
    assert_eq!(s.exhausted_classification().as_deref(), Some("routing_infeasibility"));
    let stop = s.record_outcome(&p, 1, &metrics(3, 1, 4, 0, 9), 2, 1, 9);
    assert!(!stop);
    assert!(s.best.is_none());
    assert!(s.constraint_rejected);
    assert_eq!(s.attempts[1].classification, "outcome_constraint_miss");
    assert_eq!(s.attempts[1].stage, "outcome_constraints");
    assert_eq!(s.attempts[1].detail, "Validated catalog outcome exceeded 1 hard constraint(s).");
    assert_eq!(s.exhausted_classification().as_deref(), Some("outcome_constraint_miss"));
}

fn diag(code: &str, detail: &str) -> Diagnostic {
    Diagnostic {
        code: code.to_owned(),
        severity: Severity::Fatal,
        node: None,
        edge: None,
        detail: detail.to_owned(),
        repair_hint: None,
    }
}

#[test]
fn generation_failures_carry_stage_and_progress() {
    let f = catalog_generation_failure("materialize", "Missing room exit x.".to_owned(), 2, 1, 40);
    assert_eq!(f.classification, "generation_infeasibility");
    assert_eq!(f.stage, "materialize");
    assert_eq!(f.detail, "Missing room exit x.");
    assert_eq!((f.rooms_placed, f.sections_routed, f.routing_states), (2, 1, 40));
}

#[test]
fn validation_failures_list_the_report_diagnostics() {
    let report = ValidationReport {
        kind: "rusty_procgen.validation.v1".to_owned(),
        schema_version: 1,
        state_hash: "fnv1a64:0000000000000000".to_owned(),
        ok: false,
        fatal_count: 2,
        diagnostics: vec![diag("a_code", "first"), diag("b_code", "second")],
    };
    let f = catalog_validation_failure("placement", &report, 3, 2, 9);
    assert_eq!(f.classification, "generation_infeasibility");
    assert_eq!(f.stage, "placement");
    assert_eq!(f.detail, "a_code: first; b_code: second");
    assert_eq!((f.rooms_placed, f.sections_routed, f.routing_states), (3, 2, 9));
    let empty = ValidationReport { diagnostics: Vec::new(), ..report };
    assert_eq!(catalog_validation_failure("x", &empty, 0, 0, 0).detail, "");
}

fn exits() -> Vec<MatchedExit> {
    let exit = |id: &str, x: i32, y: i32| MatchedExit {
        requirement_exit_id: id.to_owned(),
        catalog_exit_id: format!("catalog.{id}"),
        x,
        y,
        direction: "east".to_owned(),
        width: 1,
    };
    vec![exit("exit.a", 1, 2), exit("exit.b", 3, 0), exit("exit.b", 9, 9)]
}

#[test]
fn room_exits_are_found_by_their_requirement_id() {
    let exits = exits();
    let found = catalog_room_exit(&exits, "exit.b").ok().expect("exit");
    assert_eq!(found.catalog_exit_id, "catalog.exit.b");
    assert_eq!((found.x, found.y), (3, 0));
    let missing = catalog_room_exit(&exits, "exit.z").err().expect("failure");
    assert_eq!(missing.stage, "materialize");
    assert_eq!(missing.detail, "Missing room exit exit.z.");
}

#[test]
fn room_exit_cells_are_moved_by_the_room_origin() {
    let exits = exits();
    let cell = catalog_room_exit_cell("room.a", &exits, &GridCell { x: 10, y: -4 }, "exit.b")
        .ok()
        .expect("cell");
    assert_eq!((cell.x, cell.y), (13, -4));
    let missing = catalog_room_exit_cell("room.a", &exits, &GridCell { x: 0, y: 0 }, "exit.z")
        .err()
        .expect("failure");
    assert_eq!(missing.classification, "generation_infeasibility");
    assert_eq!(missing.stage, "section_domains");
    assert_eq!(missing.detail, "Room room.a has no matched exit exit.z.");
}

#[test]
fn catalog_evaluation_keeps_the_earlier_attempt_on_a_tie() {
    let c = CatalogAwareOutcomeConstraints::default();
    let p = CatalogAwareOutcomePreferences { primary_metric: CatalogAwareOutcomeMetric::PlacementSpan, preferred_maximum: 5 };
    let first = metrics(2, 2, 4, 0, 3);
    let same = metrics(2, 2, 4, 0, 3);
    let (ev, replaces) = evaluate_catalog_outcome(&same, Some((0, first)), &c, &p);
    assert!(!replaces && ev.admissible);
    assert_eq!(ev.comparison.ordering, "incumbent_retained");
    assert_eq!(ev.comparison.decisive_metric, "attempt_order");
    assert_eq!(ev.comparison.incumbent_attempt, Some(0));
}
