use rusty_procgen_preflight::candidate::{create_initial_candidate, fork_candidate, slugify_label};
use rusty_procgen_preflight::graph::{has_edge, has_node, Diagnostic};
use rusty_procgen_preflight::graph_reports::{
    all_graph_rules, compatible_rules_report, rule_compatibility,
};
use rusty_procgen_preflight::graph_rules::{guarded_node_item, mutate_graph_rule};
use rusty_procgen_preflight::json::candidate_bytes;
use rusty_procgen_preflight::model::{
    Candidate, CorridorRealization, EdgeKind, GraphRule, NodeKind, RepairAction, SceneFacing,
    SeedIntent, Severity, TraversalKind,
};
use rusty_procgen_preflight::procgen_core::{ProcgenCore, RuleApplication, RuleDisposition};
use rusty_procgen_preflight::text::stable_suffix;

const INITIAL_JSON: &str = "{\"kind\":\"rusty_procgen.candidate.v1\",\"schemaVersion\":1,\"candidateId\":\"candidate.demo.7\",\"seed\":7,\"dimensionModel\":\"topology_graph\",\"sourceIntent\":\"demo\",\"provenance\":[],\"graph\":{\"nodes\":[{\"id\":\"start\",\"kind\":\"start\",\"label\":\"Start\",\"tags\":[\"critical\"],\"grantsItem\":null},{\"id\":\"goal\",\"kind\":\"goal\",\"label\":\"Goal\",\"tags\":[\"critical\"],\"grantsItem\":null}],\"edges\":[{\"id\":\"edge.start.goal\",\"from\":\"start\",\"to\":\"goal\",\"kind\":\"critical_path\",\"traversal\":\"open\",\"requiredItem\":null,\"tags\":[\"initial\"]}]}}";

fn intent() -> SeedIntent {
    SeedIntent {
        kind: "rusty_procgen.seed_intent.v1".to_owned(),
        id: "demo".to_owned(),
        title: "Demo".to_owned(),
        target_dimension: "topology_graph".to_owned(),
        desired_patterns: Vec::new(),
        notes: Vec::new(),
    }
}

fn fresh() -> Candidate {
    create_initial_candidate(&intent(), 7)
}

fn node_ids(c: &Candidate) -> Vec<String> {
    c.graph.nodes.iter().map(|n| n.id.clone()).collect()
}

fn edge_ids(c: &Candidate) -> Vec<String> {
    c.graph.edges.iter().map(|e| e.id.clone()).collect()
}

fn codes(d: &[Diagnostic]) -> Vec<String> {
    d.iter().map(|d| d.code.clone()).collect()
}

#[test]
fn initial_candidate_has_start_goal_and_one_edge() {
    let c = fresh();
    assert_eq!(c.candidate_id, "candidate.demo.7");
    assert_eq!(c.kind, "rusty_procgen.candidate.v1");
    assert_eq!(c.source_intent.as_deref(), Some("demo"));
    assert_eq!(node_ids(&c), vec!["start", "goal"]);
    assert_eq!(edge_ids(&c), vec!["edge.start.goal"]);
    assert_eq!(c.graph.edges[0].kind, EdgeKind::CriticalPath);
    assert_eq!(String::from_utf8(candidate_bytes(&c)).unwrap(), INITIAL_JSON);
}

#[test]
fn initial_candidate_state_hash_is_fnv_of_its_json() {
    let report = compatible_rules_report(&fresh()).unwrap();
    assert_eq!(report.state_hash, "fnv1a64:7559d5d931745bc4");
    assert_eq!(report.rules.len(), 10);
}

#[test]
fn slugs_keep_ascii_letters_and_digits() {
    assert_eq!(slugify_label("Hello, World!"), "hello_world");
    assert_eq!(slugify_label("  ---  "), "fork");
    assert_eq!(slugify_label(""), "fork");
    assert_eq!(slugify_label("\u{c0}B c"), "b_c");
    assert_eq!(slugify_label("Route 66 -- Alt"), "route_66_alt");
    assert_eq!(slugify_label("\u{212a}"), "k");
}

#[test]
fn fork_renames_and_records_provenance() {
    let f = fork_candidate(fresh(), "Wide Hall", 9);
    assert_eq!(f.candidate_id, "candidate.demo.7.fork.wide_hall.9");
    assert_eq!(f.seed, 9);
    assert_eq!(f.provenance.len(), 1);
    assert_eq!(f.provenance[0].step, 1);
    assert_eq!(f.provenance[0].command, "graph fork");
    assert_eq!(f.provenance[0].seed, Some(9));
    assert_eq!(
        f.provenance[0].summary,
        "Forked candidate.demo.7 as candidate.demo.7.fork.wide_hall.9 with label wide_hall"
    );
    let g = ProcgenCore::fork_candidate(f, "", 10);
    assert_eq!(g.provenance[1].step, 2);
    assert!(g.candidate_id.ends_with(".fork.fork.10"));
}

#[test]
fn stable_suffix_is_four_low_hex_digits() {
    assert_eq!(stable_suffix(0x1234_abcd), "abcd");
    assert_eq!(stable_suffix(5), "0005");
}

#[test]
fn lock_key_loop_replaces_direct_route_and_refuses_twice() {
    let mut c = fresh();
    let d = mutate_graph_rule(&mut c, GraphRule::LockKeyLoop, 1);
    assert!(d.is_empty());
    assert_eq!(node_ids(&c), vec!["start", "goal", "gate.locked_1", "key.gate_1"]);
    assert_eq!(
        edge_ids(&c),
        vec!["edge.start.gate_1", "edge.gate_1.goal", "edge.start.key_1", "edge.key_1.gate_1"]
    );
    assert_eq!(c.graph.nodes[3].grants_item.as_deref(), Some("item.gate_key_1"));
    assert_eq!(c.graph.edges[1].traversal, TraversalKind::Locked);
    let before_nodes = node_ids(&c);
    let before_edges = edge_ids(&c);
    let d = mutate_graph_rule(&mut c, GraphRule::LockKeyLoop, 2);
    assert_eq!(codes(&d), vec!["rule_already_applied"]);
    assert_eq!(d[0].severity, Severity::Fatal);
    assert_eq!(d[0].node.as_deref(), Some("gate.locked_1"));
    assert_eq!(d[0].detail, "lock_key_loop is already present.");
    assert_eq!(d[0].repair_hint, None);
    assert_eq!(node_ids(&c), before_nodes);
    assert_eq!(edge_ids(&c), before_edges);
}

#[test]
fn nested_lock_requires_first_lock() {
    let mut c = fresh();
    let d = mutate_graph_rule(&mut c, GraphRule::NestedLockKeyChain, 1);
    assert_eq!(codes(&d), vec!["missing_required_pattern"]);
    assert_eq!(
        d[0].repair_hint.as_deref(),
        Some("Apply lock_key_loop before nested_lock_key_chain.")
    );
    mutate_graph_rule(&mut c, GraphRule::LockKeyLoop, 1);
    let d = mutate_graph_rule(&mut c, GraphRule::NestedLockKeyChain, 1);
    assert!(d.is_empty());
    assert!(!edge_ids(&c).contains(&"edge.gate_1.goal".to_owned()));
    assert!(has_edge(&c, "edge.gate_2.goal"));
    let d = mutate_graph_rule(&mut c, GraphRule::NestedLockKeyChain, 1);
    assert_eq!(codes(&d), vec!["rule_already_applied"]);
}

#[test]
fn treasure_detour_uses_seed_suffix_and_repeats() {
    let mut c = fresh();
    assert!(mutate_graph_rule(&mut c, GraphRule::OptionalTreasureDetour, 0x1234_abcd).is_empty());
    assert!(has_node(&c, "treasure.abcd"));
    assert!(has_edge(&c, "edge.start.treasure.abcd"));
    assert!(has_edge(&c, "edge.treasure.abcd.goal"));
    assert!(mutate_graph_rule(&mut c, GraphRule::OptionalTreasureDetour, 7).is_empty());
    assert!(has_node(&c, "treasure.0007"));
    assert_eq!(c.graph.nodes.len(), 4);
}

#[test]
fn boss_loop_approaches_from_deepest_gate() {
    let mut c = fresh();
    assert!(mutate_graph_rule(&mut c, GraphRule::BossPreparationLoop, 0).is_empty());
    assert!(!has_edge(&c, "edge.start.goal"));
    let approach = c.graph.edges.iter().find(|e| e.id == "edge.approach.boss_1").unwrap();
    assert_eq!(approach.from, "start");

    let mut c = fresh();
    mutate_graph_rule(&mut c, GraphRule::LockKeyLoop, 0);
    mutate_graph_rule(&mut c, GraphRule::NestedLockKeyChain, 0);
    assert!(mutate_graph_rule(&mut c, GraphRule::BossPreparationLoop, 0).is_empty());
    assert!(!has_edge(&c, "edge.gate_2.goal"));
    let approach = c.graph.edges.iter().find(|e| e.id == "edge.approach.boss_1").unwrap();
    assert_eq!(approach.from, "gate.locked_2");
    let d = mutate_graph_rule(&mut c, GraphRule::BossPreparationLoop, 0);
    assert_eq!(codes(&d), vec!["rule_already_applied"]);
}

#[test]
fn merge_shortcut_needs_a_branch_and_inherits_its_guard() {
    let mut c = fresh();
    let d = mutate_graph_rule(&mut c, GraphRule::BranchMergeShortcut, 0);
    assert_eq!(codes(&d), vec!["missing_required_pattern"]);
    assert_eq!(d[0].node, None);
    mutate_graph_rule(&mut c, GraphRule::GatedTreasureBranch, 0);
    assert_eq!(
        guarded_node_item(&c, "treasure.gated_1").as_deref(),
        Some("item.treasure_key_1")
    );
    assert_eq!(guarded_node_item(&c, "start"), None);
    assert!(mutate_graph_rule(&mut c, GraphRule::BranchMergeShortcut, 0).is_empty());
    let e = c.graph.edges.iter().find(|e| e.id == "edge.secondary.merge_1").unwrap();
    assert_eq!(e.from, "treasure.gated_1");
    assert_eq!(e.traversal, TraversalKind::Locked);
    assert_eq!(e.required_item.as_deref(), Some("item.treasure_key_1"));
    assert_eq!(e.tags, vec!["locked", "rejoin"]);

    let mut h = fresh();
    mutate_graph_rule(&mut h, GraphRule::HubSpokeCluster, 0);
    assert!(mutate_graph_rule(&mut h, GraphRule::BranchMergeShortcut, 0).is_empty());
    let e = h.graph.edges.iter().find(|e| e.id == "edge.secondary.merge_1").unwrap();
    assert_eq!(e.from, "hub.central_1");
    assert_eq!(e.traversal, TraversalKind::Open);
    assert_eq!(e.tags, vec!["rejoin"]);
}

#[test]
fn guard_with_two_distinct_items_is_none() {
    let mut c = fresh();
    mutate_graph_rule(&mut c, GraphRule::LockKeyLoop, 0);
    mutate_graph_rule(&mut c, GraphRule::NestedLockKeyChain, 0);
    mutate_graph_rule(&mut c, GraphRule::BossPreparationLoop, 0);
    // goal is entered by a locked edge requiring the boss preparation only
    assert_eq!(guarded_node_item(&c, "goal").as_deref(), Some("item.boss_preparation_1"));
    let mut extra = c.graph.edges[0].clone();
    extra.to = "goal".to_owned();
    extra.traversal = TraversalKind::Locked;
    extra.required_item = Some("item.other".to_owned());
    c.graph.edges.push(extra);
    assert_eq!(guarded_node_item(&c, "goal"), None);
}

#[test]
fn shortcut_and_secret_rules_add_their_patterns() {
    let mut c = fresh();
    assert!(mutate_graph_rule(&mut c, GraphRule::OneWayShortcut, 0).is_empty());
    assert!(has_edge(&c, "edge.shortcut_1.start"));
    assert!(mutate_graph_rule(&mut c, GraphRule::SecretBypass, 0).is_empty());
    let e = c.graph.edges.iter().find(|e| e.id == "edge.start.secret_1").unwrap();
    assert_eq!(e.traversal, TraversalKind::Hidden);
    assert!(mutate_graph_rule(&mut c, GraphRule::HazardResourceTradeoff, 0).is_empty());
    assert_eq!(
        codes(&mutate_graph_rule(&mut c, GraphRule::HazardResourceTradeoff, 0)),
        vec!["rule_already_applied"]
    );
    assert!(mutate_graph_rule(&mut c, GraphRule::HubSpokeCluster, 0).is_empty());
    assert_eq!(c.graph.nodes.iter().filter(|n| n.kind == NodeKind::Junction).count(), 1);
}

#[test]
fn rule_compatibility_reports_duplicates_blocks_and_risks() {
    let mut c = fresh();
    let nested = rule_compatibility(&c, GraphRule::NestedLockKeyChain);
    assert_eq!(nested.status, "blocked");
    assert_eq!(nested.rule, "nested_lock_key_chain");
    let merge = rule_compatibility(&c, GraphRule::BranchMergeShortcut);
    assert_eq!(merge.status, "blocked");
    assert_eq!(rule_compatibility(&c, GraphRule::SecretBypass).status, "applicable");
    mutate_graph_rule(&mut c, GraphRule::LockKeyLoop, 0);
    let lock = rule_compatibility(&c, GraphRule::LockKeyLoop);
    assert_eq!(lock.status, "duplicate");
    assert_eq!(lock.reasons, vec!["Fixed marker for this rule already exists."]);
    let secret = rule_compatibility(&c, GraphRule::SecretBypass);
    assert_eq!(secret.status, "risky");
    assert_eq!(secret.recommended_actions, vec!["Use only when bypass routes are intended."]);
    mutate_graph_rule(&mut c, GraphRule::OneWayShortcut, 0);
    assert_eq!(rule_compatibility(&c, GraphRule::OneWayShortcut).status, "duplicate");
    let all = all_graph_rules();
    assert_eq!(all.len(), 10);
    let report = ProcgenCore::compatible_rules(&c).unwrap();
    for (rule, entry) in all.iter().zip(report.rules.iter()) {
        assert_eq!(entry.rule, rule.as_str());
    }
}

#[test]
fn vocabulary_texts() {
    assert_eq!(GraphRule::HazardResourceTradeoff.as_str(), "hazard_resource_tradeoff");
    assert_eq!(NodeKind::Junction.as_str(), "junction");
    assert_eq!(EdgeKind::SecretBypass.as_str(), "secret_bypass");
    assert_eq!(TraversalKind::OneWayReturn.as_str(), "one_way_return");
    assert_eq!(SceneFacing::West.as_str(), "west");
    assert_eq!(RepairAction::RemoveOrphanNode.as_str(), "remove_orphan_node");
    assert_eq!(CorridorRealization::default(), CorridorRealization::Hybrid);
    assert!(CorridorRealization::Hybrid.uses_catalog_pieces());
    assert!(CorridorRealization::Catalog.uses_catalog_pieces());
    assert!(!CorridorRealization::Procedural.uses_catalog_pieces());
    assert_eq!(CorridorRealization::Procedural.as_str(), "procedural");
}

#[test]
fn rule_application_reports_acceptance() {
    let app = RuleApplication {
        disposition: RuleDisposition::Accepted,
        candidate: fresh(),
        diagnostics: Vec::new(),
    };
    assert!(app.accepted());
    let rejected = RuleApplication { disposition: RuleDisposition::Rejected, ..app };
    assert!(!rejected.accepted());
    let created = ProcgenCore::create_candidate(&intent(), 3);
    assert_eq!(created.candidate_id, "candidate.demo.3");
}
