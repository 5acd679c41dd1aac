use rusty_procgen_preflight::catalog::GridCell;
use rusty_procgen_preflight::catalog_outcome::{
    CatalogAwareGenerationPolicy, CatalogAwareOutcomeConstraints, CatalogAwareOutcomePreferences,
};
use rusty_procgen_preflight::catalog_route::{
    catalog_route_cell_blocked, route_catalog_section, CatalogOccupiedCell, CatalogRouteSearch,
};
use rusty_procgen_preflight::catalog_trace::CatalogGridBounds;

fn policy(max_states: u32, weight: u32, turn: u32) -> CatalogAwareGenerationPolicy {
    CatalogAwareGenerationPolicy {
        kind: "rusty_procgen.catalog_aware_generation_policy.v2".to_owned(),
        schema_version: 2,
        max_generation_attempts: 4,
        initial_room_compaction_cells: 2,
        room_compaction_growth_cells: 3,
        max_room_candidates: 8,
        max_routing_states_per_section: max_states,
        route_margin_cells: 16,
        guide_distance_weight: weight,
        turn_penalty: turn,
        outcome_constraints: CatalogAwareOutcomeConstraints::default(),
        outcome_preferences: CatalogAwareOutcomePreferences::default(),
    }
}

fn c(x: i32, y: i32) -> GridCell {
    GridCell { x, y }
}

fn cells(points: &[(i32, i32)]) -> Vec<GridCell> {
    points.iter().map(|&(x, y)| c(x, y)).collect()
}

fn occ(x: i32, y: i32, owner: &str) -> CatalogOccupiedCell {
    CatalogOccupiedCell { x, y, owner: owner.to_owned() }
}

fn bounds() -> CatalogGridBounds {
    CatalogGridBounds { min_x: -2, max_x: 5, min_y: -2, max_y: 3 }
}

fn found(r: CatalogRouteSearch) -> (Vec<GridCell>, u32) {
    match r {
        CatalogRouteSearch::Found { cells, states_visited } => (cells, states_visited),
        other => panic!("expected a route, got {other:?}"),
    }
}

#[test]
fn catalog_route_runs_straight_when_nothing_is_in_the_way() {
    let r = route_catalog_section(&c(0, 0), &c(3, 0), &vec![], &vec![], &vec![], &vec![], 0, &bounds(), &policy(1_000, 1, 2));
    let (path, visited) = found(r);
    assert_eq!(path, cells(&[(0, 0), (1, 0), (2, 0), (3, 0)]));
    assert_eq!(visited, 4);
}

#[test]
fn catalog_route_goes_around_an_occupied_cell() {
    let occupied = vec![occ(1, 0, "wall")];
    let r = route_catalog_section(&c(0, 0), &c(3, 0), &vec![], &occupied, &vec![], &vec![], 0, &bounds(), &policy(1_000, 1, 2));
    let (path, visited) = found(r);
    assert_eq!(path, cells(&[(0, 0), (0, -1), (1, -1), (2, -1), (3, -1), (3, 0)]));
    assert_eq!(visited, 35);
}

#[test]
fn catalog_route_follows_its_guide() {
    let guide = cells(&[(0, 2), (1, 2), (2, 2), (3, 2)]);
    let r = route_catalog_section(&c(0, 0), &c(3, 0), &guide, &vec![], &vec![], &vec![], 0, &bounds(), &policy(1_000, 3, 0));
    let (path, visited) = found(r);
    assert_eq!(path, cells(&[(0, 0), (0, 1), (0, 2), (1, 2), (2, 2), (3, 2), (3, 1), (3, 0)]));
    assert_eq!(visited, 49);
}

#[test]
fn catalog_route_reports_no_path_through_reserved_cells() {
    let narrow = CatalogGridBounds { min_x: 0, max_x: 2, min_y: 0, max_y: 0 };
    let r = route_catalog_section(&c(0, 0), &c(2, 0), &vec![], &vec![], &cells(&[(1, 0)]), &vec![], 0, &narrow, &policy(1_000, 1, 2));
    assert!(matches!(r, CatalogRouteSearch::NoPath { states_visited: 1 }));
}

#[test]
fn catalog_route_stops_one_state_past_its_budget() {
    let r = route_catalog_section(&c(0, 0), &c(4, 0), &vec![], &vec![], &vec![], &vec![], 0, &bounds(), &policy(2, 1, 2));
    assert!(matches!(r, CatalogRouteSearch::BudgetExhausted { states_visited: 3 }));
}

#[test]
fn catalog_route_clearance_spares_only_the_section_rooms() {
    let terminals = vec!["room.b".to_owned()];
    let own = vec![occ(2, -1, "room.b")];
    let (path, visited) = found(route_catalog_section(&c(0, 0), &c(3, 0), &vec![], &own, &vec![], &terminals, 2, &bounds(), &policy(1_000, 1, 2)));
    assert_eq!(path, cells(&[(0, 0), (0, 1), (1, 1), (2, 1), (3, 1), (3, 0)]));
    assert_eq!(visited, 32);
    let other = vec![occ(2, -1, "room.c")];
    let (path, visited) = found(route_catalog_section(&c(0, 0), &c(3, 0), &vec![], &other, &vec![], &terminals, 2, &bounds(), &policy(1_000, 1, 2)));
    assert_eq!(path, cells(&[(0, 0), (0, 1), (0, 2), (1, 2), (2, 2), (3, 2), (3, 1), (3, 0)]));
    assert_eq!(visited, 36);
}

#[test]
fn catalog_route_cell_blocking_rules() {
    let terminals = vec!["room.b".to_owned()];
    let occupied = vec![occ(5, 5, "room.b"), occ(9, 9, "room.c")];
    let reserved = cells(&[(0, 7)]);
    let start = c(0, 0);
    let goal = c(20, 20);
    let blocked = |x: i32, y: i32| catalog_route_cell_blocked(&c(x, y), &start, &goal, &occupied, &reserved, &terminals, 2);
    assert!(blocked(5, 5));
    assert!(blocked(0, 7));
    assert!(blocked(5, 6));
    assert!(!blocked(5, 7));
    assert!(blocked(9, 11));
    assert!(!blocked(9, 12));
    assert!(!catalog_route_cell_blocked(&c(5, 5), &c(5, 5), &goal, &occupied, &reserved, &terminals, 2));
    assert!(!catalog_route_cell_blocked(&c(0, 7), &start, &c(0, 7), &occupied, &reserved, &terminals, 2));
}
