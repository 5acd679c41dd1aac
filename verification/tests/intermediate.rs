use rusty_procgen_preflight::breakdown::{constraint_code_for_intent, intermediate_breakdown, region_id};
use rusty_procgen_preflight::candidate::create_initial_candidate;
use rusty_procgen_preflight::graph_rules::mutate_graph_rule;
use rusty_procgen_preflight::intermediate::{
    hash_breakdown, IntermediateBreakdown, IntermediateConnector, IntermediateRegion,
};
use rusty_procgen_preflight::intermediate_validation::{
    contains_unsupported_3d_claim, str_contains, validate_intermediate_breakdown,
};
use rusty_procgen_preflight::model::{Candidate, GraphRule, SeedIntent, Severity};
use rusty_procgen_preflight::procgen_core::ProcgenCore;
use rusty_procgen_preflight::spatial::spatial_intent_report;

fn candidate() -> Candidate {
    let intent = SeedIntent {
        kind: "rusty_procgen.seed_intent.v1".to_owned(),
        id: "demo".to_owned(),
        title: "Demo".to_owned(),
        target_dimension: "topology_graph".to_owned(),
        desired_patterns: Vec::new(),
        notes: Vec::new(),
    };
    create_initial_candidate(&intent, 7)
}

fn breakdown_of(c: &Candidate) -> IntermediateBreakdown {
    let annotations = ProcgenCore::annotate_spatial_intent(c).unwrap();
    ProcgenCore::breakdown(c, &annotations).unwrap()
}

#[test]
fn spatial_intent_of_initial_candidate() {
    let c = candidate();
    let report = spatial_intent_report(&c, Some("runs/analysis.json")).unwrap();
    assert_eq!(report.kind, "rusty_procgen.spatial_intent.v1");
    assert_eq!(report.analysis_ref.as_deref(), Some("runs/analysis.json"));
    assert_eq!(report.state_hash, "fnv1a64:7559d5d931745bc4");
    assert_eq!(report.annotations.len(), 2);
    assert_eq!(report.annotations[0].target_id, "start");
    assert_eq!(report.annotations[0].intents, vec!["entry_orientation"]);
    assert_eq!(report.annotations[0].rationale, "Node start carries spatial role tags.");
    assert_eq!(report.annotations[1].intents, vec!["destination_readability"]);
}

#[test]
fn spatial_intents_are_sorted_and_distinct() {
    let mut c = candidate();
    mutate_graph_rule(&mut c, GraphRule::LockKeyLoop, 0);
    mutate_graph_rule(&mut c, GraphRule::BossPreparationLoop, 0);
    let report = ProcgenCore::annotate_spatial_intent(&c).unwrap();
    let boss = report.annotations.iter().find(|a| a.target_id == "gate.boss_1").unwrap();
    assert_eq!(boss.intents, vec!["gated_reveal"]);
    let locked = report.annotations.iter().find(|a| a.target_id == "edge.gate_1.goal");
    assert!(locked.is_none(), "the lock edge is replaced by the boss approach");
    let boss_edge = report.annotations.iter().find(|a| a.target_id == "edge.boss_1.goal").unwrap();
    assert_eq!(boss_edge.target_type, "edge");
    assert_eq!(boss_edge.intents, vec!["gated_connector", "visible_before_reachable"]);
    for a in &report.annotations {
        let mut sorted = a.intents.clone();
        sorted.sort();
        sorted.dedup();
        assert_eq!(sorted, a.intents);
    }
}

#[test]
fn breakdown_of_initial_candidate() {
    let c = candidate();
    let b = breakdown_of(&c);
    assert_eq!(b.kind, "rusty_procgen.intermediate_breakdown.v1");
    assert_eq!(b.schema_version, 2);
    assert_eq!(b.annotation_ref, "memory/spatial-intent.json");
    assert_eq!(b.regions.len(), 2);
    let start = &b.regions[0];
    assert_eq!(start.id, "region.start");
    assert_eq!(start.role, "start");
    assert_eq!(start.anchor_node.as_deref(), Some("start"));
    assert_eq!(start.geometry_role, "entry");
    assert_eq!(start.footprint_class, "marker_room");
    assert_eq!(start.scale_band, "medium");
    assert_eq!(start.anchor_quality, "explicit");
    assert_eq!(start.entrance_expectations, vec!["entry_spawn"]);
    assert_eq!(b.connectors.len(), 1);
    let conn = &b.connectors[0];
    assert_eq!(conn.id, "connector.edge_start_goal");
    assert_eq!(conn.from_region, "region.start");
    assert_eq!(conn.to_region, "region.goal");
    assert_eq!(conn.affordances, vec!["corridor"]);
    assert_eq!(conn.traversal_hint, "open");
    assert!(conn.intents.is_empty());
    assert_eq!(b.constraints.len(), 2);
    assert_eq!(b.constraints[0].code, "preserve_entry_orientation");
    assert_eq!(b.constraints[0].detail, "Preserve entry_orientation for start.");
    let report = validate_intermediate_breakdown(&b);
    assert!(report.ok);
    assert_eq!(report.fatal_count, 0);
    assert_eq!(report.state_hash, hash_breakdown(&b));
}

#[test]
fn breakdown_of_locked_candidate_validates() {
    let mut c = candidate();
    for rule in [
        GraphRule::LockKeyLoop,
        GraphRule::HubSpokeCluster,
        GraphRule::OneWayShortcut,
        GraphRule::SecretBypass,
        GraphRule::BranchMergeShortcut,
    ] {
        assert!(mutate_graph_rule(&mut c, rule, 3).is_empty());
    }
    let b = breakdown_of(&c);
    let hub = b.regions.iter().find(|r| r.id == "region.hub_central_1").unwrap();
    assert_eq!(hub.role, "landmark_hub");
    assert_eq!(hub.geometry_role, "landmark_junction");
    assert_eq!(hub.scale_band, "large");
    assert!(hub.entrance_expectations.contains(&"choice_readability".to_owned()));
    let lock = b.connectors.iter().find(|c| c.edge_id == "edge.gate_1.goal").unwrap();
    assert_eq!(lock.traversal_hint, "locked");
    assert_eq!(lock.affordances, vec!["locked_threshold", "preview_line"]);
    assert_eq!(
        lock.constraint_refs,
        vec![
            "preserve_gated_connector:edge.gate_1.goal",
            "preserve_lock_preview:edge.gate_1.goal"
        ]
    );
    let report = ProcgenCore::validate_intermediate(&b);
    assert!(report.ok, "{:?}", report.diagnostics);
}

#[test]
fn validation_reports_missing_start_and_bad_connectors() {
    let c = candidate();
    let mut b = breakdown_of(&c);
    b.regions[0].role = "standard".to_owned();
    b.regions[1].scale_band = "huge".to_owned();
    b.regions[1].entrance_expectations.push("stair_climb".to_owned());
    b.connectors[0].to_region = "region.nowhere".to_owned();
    b.connectors[0].affordances.clear();
    b.connectors[0].intents.push("hidden_route".to_owned());
    b.connectors[0].intents.push("vertical_candidate".to_owned());
    b.connectors[0].traversal_hint = "shaft_drop".to_owned();
    let report = validate_intermediate_breakdown(&b);
    let codes: Vec<&str> = report.diagnostics.iter().map(|d| d.code.as_str()).collect();
    assert_eq!(
        codes,
        vec![
            "intermediate_start_missing",
            "intermediate_region_scale_invalid",
            "intermediate_3d_claim_unsupported",
            "intermediate_connector_endpoint_missing",
            "intermediate_connector_affordance_missing",
            "intermediate_hidden_affordance_missing",
            "intermediate_vertical_candidate_unsupported",
            "intermediate_3d_claim_unsupported",
        ]
    );
    assert!(!report.ok);
    assert_eq!(report.fatal_count, 8);
    assert!(report.diagnostics.iter().all(|d| d.severity == Severity::Fatal));
    assert_eq!(report.diagnostics[0].node.as_deref(), Some("start"));
    assert_eq!(report.diagnostics[1].node.as_deref(), Some("goal"));
    assert_eq!(report.diagnostics[3].edge.as_deref(), Some("connector.edge_start_goal"));
}

#[test]
fn validation_requires_geometry_prep_and_landmark_anchor() {
    let b = IntermediateBreakdown {
        kind: "k".to_owned(),
        schema_version: 2,
        candidate_id: "c".to_owned(),
        state_hash: "h".to_owned(),
        annotation_ref: "a".to_owned(),
        regions: vec![IntermediateRegion {
            id: "region.hub".to_owned(),
            node_ids: Vec::new(),
            role: "landmark_hub".to_owned(),
            anchor_node: None,
            geometry_role: String::new(),
            footprint_class: "hub".to_owned(),
            scale_band: "large".to_owned(),
            anchor_quality: "derived".to_owned(),
            entrance_expectations: Vec::new(),
        }],
        connectors: vec![IntermediateConnector {
            id: "connector.x".to_owned(),
            edge_id: String::new(),
            from_region: "region.hub".to_owned(),
            to_region: "region.hub".to_owned(),
            intents: vec!["gated_connector".to_owned(), "shortcut_connector".to_owned(), "one_way_drop".to_owned()],
            affordances: vec!["corridor".to_owned()],
            traversal_hint: String::new(),
            constraint_refs: vec!["other:x".to_owned()],
        }],
        constraints: Vec::new(),
    };
    let report = validate_intermediate_breakdown(&b);
    let codes: Vec<&str> = report.diagnostics.iter().map(|d| d.code.as_str()).collect();
    assert_eq!(
        codes,
        vec![
            "intermediate_start_missing",
            "intermediate_goal_missing",
            "intermediate_region_geometry_prep_missing",
            "intermediate_anchor_missing",
            "intermediate_landmark_geometry_role_missing",
            "intermediate_connector_unbound",
            "intermediate_connector_traversal_hint_missing",
            "intermediate_gated_constraint_missing",
            "intermediate_shortcut_affordance_missing",
            "intermediate_one_way_affordance_missing",
        ]
    );
    assert_eq!(report.diagnostics[2].node, None);
}

#[test]
fn three_d_claims_and_substrings() {
    assert!(contains_unsupported_3d_claim("spiral_staircase"));
    assert!(contains_unsupported_3d_claim("3d_room"));
    assert!(contains_unsupported_3d_claim("three_d"));
    assert!(!contains_unsupported_3d_claim("corridor"));
    assert!(str_contains("abc", ""));
    assert!(str_contains("abc", "bc"));
    assert!(!str_contains("ab", "abc"));
}

#[test]
fn small_breakdown_helpers() {
    assert_eq!(region_id("Key.Gate_1"), "region.key_gate_1");
    assert_eq!(constraint_code_for_intent("hidden_route"), Some("preserve_hidden_route"));
    assert_eq!(constraint_code_for_intent("unknown"), None);
    let c = candidate();
    let annotations = spatial_intent_report(&c, None).unwrap();
    let b = intermediate_breakdown(&c, &annotations, "x.json").unwrap();
    assert_eq!(b.annotation_ref, "x.json");
}
