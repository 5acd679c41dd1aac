//! The graph rules: each one rewrites a candidate's intent graph with a fixed
//! pattern of nodes and edges, or refuses with a diagnostic and leaves the
//! graph as it was.

use vstd::prelude::*;
use vstd::string::*;

use crate::graph::{
    diagnostic_lit, diagnostic_views, drop_edge, edge_lit, fatal, fatal_with_hint, has_edge,
    has_edge_spec, has_node, has_node_spec, lit_texts, make_edge, make_node, node_lit, push_edge,
    push_node, remove_edges_with_id, Diagnostic, DiagnosticView,
};
use crate::model::{
    edge_views, node_views, opt_text, Candidate, Edge, EdgeKind, EdgeView, GraphRule, Node,
    NodeKind, NodeView, Severity, TraversalKind,
};
use crate::text::{stable_suffix, stable_suffix_spec, str_eq};

verus! {

/// What a rule leaves: the graph's nodes and edges, and its diagnostics.
pub struct RuleOutcome {
    pub nodes: Seq<NodeView>,
    pub edges: Seq<EdgeView>,
    pub diagnostics: Seq<DiagnosticView>,
}

/// A refusal: the graph unchanged and one diagnostic.
pub open spec fn refused(nodes: Seq<NodeView>, edges: Seq<EdgeView>, d: DiagnosticView) -> RuleOutcome {
    RuleOutcome { nodes, edges, diagnostics: seq![d] }
}

/// A rewrite: the new graph and no diagnostic.
pub open spec fn rewritten(nodes: Seq<NodeView>, edges: Seq<EdgeView>) -> RuleOutcome {
    RuleOutcome { nodes, edges, diagnostics: Seq::empty() }
}

/// `after` holds the graph of `o`, `diags` its diagnostics, and every other
/// field of the candidate is as it was in `before`.
pub open spec fn realizes(
    before: Candidate,
    after: Candidate,
    diags: Seq<Diagnostic>,
    o: RuleOutcome,
) -> bool {
    &&& node_views(after.graph.nodes@) == o.nodes
    &&& edge_views(after.graph.edges@) == o.edges
    &&& diagnostic_views(diags) == o.diagnostics
    &&& after.kind == before.kind
    &&& after.schema_version == before.schema_version
    &&& after.candidate_id == before.candidate_id
    &&& after.seed == before.seed
    &&& after.dimension_model == before.dimension_model
    &&& after.source_intent == before.source_intent
    &&& after.provenance == before.provenance
}

/// The identity of the seed-derived optional treasure.
pub open spec fn treasure_id(seed: u64) -> Seq<char> {
    "treasure."@ + stable_suffix_spec(seed)
}

pub open spec fn optional_treasure_detour_nodes(seed: u64) -> Seq<NodeView> {
    seq![
        node_lit(treasure_id(seed), NodeKind::Treasure, "Optional Treasure", seq!["optional", "reward"], None),
    ]
}

pub open spec fn optional_treasure_detour_edges(seed: u64) -> Seq<EdgeView> {
    seq![
        edge_lit(
            "edge.start."@ + treasure_id(seed),
            "start"@,
            treasure_id(seed),
            EdgeKind::OptionalBranch,
            TraversalKind::Open,
            None,
            seq!["detour"],
        ),
        edge_lit(
            "edge."@ + treasure_id(seed) + ".goal"@,
            treasure_id(seed),
            "goal"@,
            EdgeKind::OptionalBranch,
            TraversalKind::Open,
            None,
            seq!["rejoin"],
        ),
    ]
}

/// The items that locked edges into `node` require.
pub open spec fn guard_items(edges: Seq<EdgeView>, node: Seq<char>) -> Set<Seq<char>> {
    Set::new(
        |item: Seq<char>|
            exists|i: int|
                0 <= i < edges.len() && #[trigger] edges[i].to == node && edges[i].traversal
                    == TraversalKind::Locked && edges[i].required_item == Some(item),
    )
}

/// The one item that guards `node`, if the locked edges into it require
/// exactly one distinct item.
pub open spec fn guard_item(edges: Seq<EdgeView>, node: Seq<char>) -> Option<Seq<char>> {
    if exists|x: Seq<char>| guard_items(edges, node) == set![x] {
        Some(choose|x: Seq<char>| guard_items(edges, node) == set![x])
    } else {
        None
    }
}

/// The existing branch or hub that a merge shortcut starts from.
pub open spec fn merge_source(nodes: Seq<NodeView>) -> Option<Seq<char>> {
    if has_node_spec(nodes, "hub.central_1"@) {
        Some("hub.central_1"@)
    } else if has_node_spec(nodes, "treasure.gated_1"@) {
        Some("treasure.gated_1"@)
    } else if has_node_spec(nodes, "key.gate_1"@) {
        Some("key.gate_1"@)
    } else {
        None
    }
}

pub open spec fn branch_merge_shortcut_nodes() -> Seq<NodeView> {
    seq![
        node_lit("junction.merge_1"@, NodeKind::Junction, "Branch Merge", seq!["merge", "wayfinding_anchor"], None),
    ]
}

pub open spec fn branch_merge_shortcut_edges(source: Seq<char>, guard: Option<Seq<char>>) -> Seq<EdgeView> {
    seq![
        edge_lit(
            "edge.start.merge_1"@,
            "start"@,
            "junction.merge_1"@,
            EdgeKind::OptionalBranch,
            TraversalKind::Open,
            None,
            seq!["branch"],
        ),
        EdgeView {
            id: "edge.secondary.merge_1"@,
            from: source,
            to: "junction.merge_1"@,
            kind: EdgeKind::OptionalBranch,
            traversal: if guard is Some {
                TraversalKind::Locked
            } else {
                TraversalKind::Open
            },
            required_item: guard,
            tags: if guard is Some {
                lit_texts(seq!["locked", "rejoin"])
            } else {
                lit_texts(seq!["rejoin"])
            },
        },
        edge_lit(
            "edge.merge_1.goal.shortcut"@,
            "junction.merge_1"@,
            "goal"@,
            EdgeKind::Shortcut,
            TraversalKind::Open,
            None,
            seq!["shortcut", "rejoin"],
        ),
    ]
}

/// Where a boss gate is approached from, and the edge it replaces: the
/// deepest lock gate present, else the start.
pub open spec fn boss_approach(nodes: Seq<NodeView>) -> (Seq<char>, Seq<char>) {
    if has_node_spec(nodes, "gate.locked_2"@) {
        ("gate.locked_2"@, "edge.gate_2.goal"@)
    } else if has_node_spec(nodes, "gate.locked_1"@) {
        ("gate.locked_1"@, "edge.gate_1.goal"@)
    } else {
        ("start"@, "edge.start.goal"@)
    }
}

pub open spec fn lock_key_loop_nodes() -> Seq<NodeView> {
    seq![
        node_lit("gate.locked_1"@, NodeKind::Gate, "Locked Gate", seq!["lock", "critical"], None),
        node_lit("key.gate_1"@, NodeKind::Key, "Gate Key", seq!["key", "branch"], Some("item.gate_key_1"))
    ]
}

pub open spec fn lock_key_loop_edges() -> Seq<EdgeView> {
    seq![
        edge_lit("edge.start.gate_1"@, "start"@, "gate.locked_1"@, EdgeKind::CriticalPath, TraversalKind::Open, None, seq!["approach"]),
        edge_lit("edge.gate_1.goal"@, "gate.locked_1"@, "goal"@, EdgeKind::CriticalPath, TraversalKind::Locked, Some("item.gate_key_1"), seq!["lock"]),
        edge_lit("edge.start.key_1"@, "start"@, "key.gate_1"@, EdgeKind::KeyBranch, TraversalKind::Open, None, seq!["branch"]),
        edge_lit("edge.key_1.gate_1"@, "key.gate_1"@, "gate.locked_1"@, EdgeKind::KeyBranch, TraversalKind::Open, None, seq!["return"])
    ]
}

pub open spec fn one_way_shortcut_nodes() -> Seq<NodeView> {
    seq![
        node_lit("shortcut.return_1"@, NodeKind::Shortcut, "Return Shortcut", seq!["shortcut"], None)
    ]
}

pub open spec fn one_way_shortcut_edges() -> Seq<EdgeView> {
    seq![
        edge_lit("edge.goal.shortcut_1"@, "goal"@, "shortcut.return_1"@, EdgeKind::Shortcut, TraversalKind::Open, None, seq!["shortcut"]),
        edge_lit("edge.shortcut_1.start"@, "shortcut.return_1"@, "start"@, EdgeKind::Shortcut, TraversalKind::OneWayReturn, None, seq!["return"])
    ]
}

pub open spec fn secret_bypass_nodes() -> Seq<NodeView> {
    seq![
        node_lit("secret.bypass_1"@, NodeKind::Secret, "Secret Bypass", seq!["secret", "bypass"], None)
    ]
}

pub open spec fn secret_bypass_edges() -> Seq<EdgeView> {
    seq![
        edge_lit("edge.start.secret_1"@, "start"@, "secret.bypass_1"@, EdgeKind::SecretBypass, TraversalKind::Hidden, None, seq!["hidden"]),
        edge_lit("edge.secret_1.goal"@, "secret.bypass_1"@, "goal"@, EdgeKind::SecretBypass, TraversalKind::Open, None, seq!["bypass"])
    ]
}

pub open spec fn hub_spoke_cluster_nodes() -> Seq<NodeView> {
    seq![
        node_lit("hub.central_1"@, NodeKind::Junction, "Wayfinding Hub", seq!["hub", "wayfinding_anchor", "merge"], None),
        node_lit("resource.clue_1"@, NodeKind::Resource, "Route Clue", seq!["optional", "preparation"], None),
        node_lit("hazard.watch_1"@, NodeKind::Hazard, "Watched Passage", seq!["optional", "hazard"], None),
        node_lit("treasure.cache_1"@, NodeKind::Treasure, "Hub Cache", seq!["optional", "reward"], None)
    ]
}

pub open spec fn hub_spoke_cluster_edges() -> Seq<EdgeView> {
    seq![
        edge_lit("edge.start.hub_1"@, "start"@, "hub.central_1"@, EdgeKind::CriticalPath, TraversalKind::Open, None, seq!["approach"]),
        edge_lit("edge.hub_1.goal"@, "hub.central_1"@, "goal"@, EdgeKind::CriticalPath, TraversalKind::Open, None, seq!["rejoin"]),
        edge_lit("edge.hub_1.clue_1"@, "hub.central_1"@, "resource.clue_1"@, EdgeKind::OptionalBranch, TraversalKind::Open, None, seq!["branch"]),
        edge_lit("edge.clue_1.hub_1"@, "resource.clue_1"@, "hub.central_1"@, EdgeKind::OptionalBranch, TraversalKind::Open, None, seq!["return"]),
        edge_lit("edge.hub_1.watch_1"@, "hub.central_1"@, "hazard.watch_1"@, EdgeKind::OptionalBranch, TraversalKind::Open, None, seq!["branch", "pressure"]),
        edge_lit("edge.watch_1.goal"@, "hazard.watch_1"@, "goal"@, EdgeKind::OptionalBranch, TraversalKind::Open, None, seq!["rejoin"]),
        edge_lit("edge.hub_1.cache_1"@, "hub.central_1"@, "treasure.cache_1"@, EdgeKind::OptionalBranch, TraversalKind::Open, None, seq!["branch"]),
        edge_lit("edge.cache_1.hub_1"@, "treasure.cache_1"@, "hub.central_1"@, EdgeKind::OptionalBranch, TraversalKind::Open, None, seq!["return"])
    ]
}

pub open spec fn nested_lock_key_chain_nodes() -> Seq<NodeView> {
    seq![
        node_lit("gate.locked_2"@, NodeKind::Gate, "Inner Locked Gate", seq!["lock", "critical"], None),
        node_lit("key.deep_2"@, NodeKind::Key, "Inner Gate Key", seq!["key", "branch", "preparation"], Some("item.deep_key_2"))
    ]
}

pub open spec fn nested_lock_key_chain_edges() -> Seq<EdgeView> {
    seq![
        edge_lit("edge.gate_1.gate_2"@, "gate.locked_1"@, "gate.locked_2"@, EdgeKind::CriticalPath, TraversalKind::Open, None, seq!["approach"]),
        edge_lit("edge.gate_2.goal"@, "gate.locked_2"@, "goal"@, EdgeKind::CriticalPath, TraversalKind::Locked, Some("item.deep_key_2"), seq!["locked"]),
        edge_lit("edge.gate_1.key_2"@, "gate.locked_1"@, "key.deep_2"@, EdgeKind::KeyBranch, TraversalKind::Open, None, seq!["branch"]),
        edge_lit("edge.key_2.gate_2"@, "key.deep_2"@, "gate.locked_2"@, EdgeKind::KeyBranch, TraversalKind::Open, None, seq!["return"])
    ]
}

pub open spec fn hazard_resource_tradeoff_nodes() -> Seq<NodeView> {
    seq![
        node_lit("hazard.sluice_1"@, NodeKind::Hazard, "Flooded Sluice", seq!["optional", "hazard"], None),
        node_lit("resource.safety_1"@, NodeKind::Resource, "Safety Cache", seq!["optional", "preparation"], Some("item.safety_cache_1"))
    ]
}

pub open spec fn hazard_resource_tradeoff_edges() -> Seq<EdgeView> {
    seq![
        edge_lit("edge.start.safety_1"@, "start"@, "resource.safety_1"@, EdgeKind::OptionalBranch, TraversalKind::Open, None, seq!["branch"]),
        edge_lit("edge.safety_1.sluice_1"@, "resource.safety_1"@, "hazard.sluice_1"@, EdgeKind::OptionalBranch, TraversalKind::Open, None, seq!["preparation"]),
        edge_lit("edge.start.sluice_1"@, "start"@, "hazard.sluice_1"@, EdgeKind::OptionalBranch, TraversalKind::Open, None, seq!["branch", "pressure"]),
        edge_lit("edge.sluice_1.goal"@, "hazard.sluice_1"@, "goal"@, EdgeKind::OptionalBranch, TraversalKind::Open, None, seq!["rejoin"])
    ]
}

pub open spec fn boss_preparation_loop_nodes() -> Seq<NodeView> {
    seq![
        node_lit("gate.boss_1"@, NodeKind::Gate, "Boss Threshold", seq!["boss", "critical"], None),
        node_lit("resource.boss_prep_1"@, NodeKind::Resource, "Boss Preparation", seq!["preparation", "optional"], Some("item.boss_preparation_1"))
    ]
}

pub open spec fn boss_preparation_loop_edges(a: Seq<char>) -> Seq<EdgeView> {
    seq![
        edge_lit("edge.approach.boss_1"@, a, "gate.boss_1"@, EdgeKind::CriticalPath, TraversalKind::Open, None, seq!["approach"]),
        edge_lit("edge.boss_1.goal"@, "gate.boss_1"@, "goal"@, EdgeKind::CriticalPath, TraversalKind::Locked, Some("item.boss_preparation_1"), seq!["locked", "boss"]),
        edge_lit("edge.approach.boss_prep_1"@, a, "resource.boss_prep_1"@, EdgeKind::OptionalBranch, TraversalKind::Open, None, seq!["branch", "preparation"]),
        edge_lit("edge.boss_prep_1.boss_1"@, "resource.boss_prep_1"@, "gate.boss_1"@, EdgeKind::OptionalBranch, TraversalKind::Open, None, seq!["return"])
    ]
}

pub open spec fn gated_treasure_branch_nodes() -> Seq<NodeView> {
    seq![
        node_lit("key.treasure_1"@, NodeKind::Key, "Treasure Key", seq!["key", "optional"], Some("item.treasure_key_1")),
        node_lit("treasure.gated_1"@, NodeKind::Treasure, "Gated Treasure", seq!["optional", "reward"], None)
    ]
}

pub open spec fn gated_treasure_branch_edges() -> Seq<EdgeView> {
    seq![
        edge_lit("edge.start.treasure_key_1"@, "start"@, "key.treasure_1"@, EdgeKind::KeyBranch, TraversalKind::Open, None, seq!["branch"]),
        edge_lit("edge.treasure_key_1.treasure_1"@, "key.treasure_1"@, "treasure.gated_1"@, EdgeKind::OptionalBranch, TraversalKind::Locked, Some("item.treasure_key_1"), seq!["locked", "branch"]),
        edge_lit("edge.treasure_1.goal"@, "treasure.gated_1"@, "goal"@, EdgeKind::OptionalBranch, TraversalKind::Locked, Some("item.treasure_key_1"), seq!["locked", "rejoin"])
    ]
}
/// What applying `rule` with `seed` to a graph leaves.
pub open spec fn rule_outcome(
    nodes: Seq<NodeView>,
    edges: Seq<EdgeView>,
    rule: GraphRule,
    seed: u64,
) -> RuleOutcome {
    match rule {
        GraphRule::LockKeyLoop => if has_node_spec(nodes, "gate.locked_1"@) {
            refused(nodes, edges, diagnostic_lit("rule_already_applied", Severity::Fatal, Some("gate.locked_1"), None, "lock_key_loop is already present.", None))
        } else {
            rewritten(nodes + lock_key_loop_nodes(), drop_edge(edges, "edge.start.goal"@) + lock_key_loop_edges())
        },
        GraphRule::OptionalTreasureDetour => rewritten(
            nodes + optional_treasure_detour_nodes(seed),
            edges + optional_treasure_detour_edges(seed),
        ),
        GraphRule::OneWayShortcut => if has_edge_spec(edges, "edge.goal.start.shortcut"@) {
            refused(nodes, edges, diagnostic_lit("rule_already_applied", Severity::Fatal, None, Some("edge.goal.start.shortcut"), "one_way_shortcut is already present.", None))
        } else {
            rewritten(nodes + one_way_shortcut_nodes(), edges + one_way_shortcut_edges())
        },
        GraphRule::SecretBypass => if has_edge_spec(edges, "edge.start.goal.secret"@) {
            refused(nodes, edges, diagnostic_lit("rule_already_applied", Severity::Fatal, None, Some("edge.start.goal.secret"), "secret_bypass is already present.", Some("Choose a different bypass rule or start from an earlier candidate.")))
        } else {
            rewritten(nodes + secret_bypass_nodes(), edges + secret_bypass_edges())
        },
        GraphRule::HubSpokeCluster => if has_node_spec(nodes, "hub.central_1"@) {
            refused(nodes, edges, diagnostic_lit("rule_already_applied", Severity::Fatal, Some("hub.central_1"), None, "hub_spoke_cluster is already present.", Some("Use an alternate hub id or apply a different branch pattern.")))
        } else {
            rewritten(nodes + hub_spoke_cluster_nodes(), edges + hub_spoke_cluster_edges())
        },
        GraphRule::NestedLockKeyChain => if has_node_spec(nodes, "gate.locked_2"@) {
            refused(nodes, edges, diagnostic_lit("rule_already_applied", Severity::Fatal, Some("gate.locked_2"), None, "nested_lock_key_chain is already present.", Some("Nested locks use fixed gate/key ids; start from a candidate before this rule.")))
        } else if !has_node_spec(nodes, "gate.locked_1"@) {
            refused(nodes, edges, diagnostic_lit("missing_required_pattern", Severity::Fatal, Some("gate.locked_1"), None, "nested_lock_key_chain requires an existing first lock/key loop.", Some("Apply lock_key_loop before nested_lock_key_chain.")))
        } else {
            rewritten(
                nodes + nested_lock_key_chain_nodes(),
                drop_edge(edges, "edge.gate_1.goal"@) + nested_lock_key_chain_edges(),
            )
        },
        GraphRule::HazardResourceTradeoff => if has_node_spec(nodes, "hazard.sluice_1"@) {
            refused(nodes, edges, diagnostic_lit("rule_already_applied", Severity::Fatal, Some("hazard.sluice_1"), None, "hazard_resource_tradeoff is already present.", Some("Apply a different pressure pattern or use a fresh candidate.")))
        } else {
            rewritten(nodes + hazard_resource_tradeoff_nodes(), edges + hazard_resource_tradeoff_edges())
        },
        GraphRule::BossPreparationLoop => if has_node_spec(nodes, "gate.boss_1"@) {
            refused(nodes, edges, diagnostic_lit("rule_already_applied", Severity::Fatal, Some("gate.boss_1"), None, "boss_preparation_loop is already present.", Some("Boss preparation currently uses one fixed boss gate per candidate.")))
        } else {
            let (approach, replaced) = boss_approach(nodes);
            rewritten(
                nodes + boss_preparation_loop_nodes(),
                drop_edge(edges, replaced) + boss_preparation_loop_edges(approach),
            )
        },
        GraphRule::GatedTreasureBranch => if has_node_spec(nodes, "treasure.gated_1"@) {
            refused(nodes, edges, diagnostic_lit("rule_already_applied", Severity::Fatal, Some("treasure.gated_1"), None, "gated_treasure_branch is already present.", Some("Use optional_treasure_detour for repeatable reward branches.")))
        } else {
            rewritten(nodes + gated_treasure_branch_nodes(), edges + gated_treasure_branch_edges())
        },
        GraphRule::BranchMergeShortcut => if has_node_spec(nodes, "junction.merge_1"@) {
            refused(nodes, edges, diagnostic_lit("rule_already_applied", Severity::Fatal, Some("junction.merge_1"), None, "branch_merge_shortcut is already present.", Some("Merge shortcuts use a fixed merge node until batch generation adds variant ids.")))
        } else {
            match merge_source(nodes) {
                None => refused(nodes, edges, diagnostic_lit("missing_required_pattern", Severity::Fatal, None, None, "branch_merge_shortcut needs an existing branch or hub to merge.", Some("Apply hub_spoke_cluster, gated_treasure_branch, or lock_key_loop first."))),
                Some(source) => rewritten(
                    nodes + branch_merge_shortcut_nodes(),
                    edges + branch_merge_shortcut_edges(source, guard_item(edges, source)),
                ),
            }
        },
    }
}
fn apply_lock_key_loop(candidate: &mut Candidate) -> (r: Vec<Diagnostic>)
    ensures
        realizes(*old(candidate), *final(candidate), r@, rule_outcome(
            node_views(old(candidate).graph.nodes@),
            edge_views(old(candidate).graph.edges@),
            GraphRule::LockKeyLoop,
            0,
        )),
{
    if has_node(candidate, "gate.locked_1") {
        let mut r: Vec<Diagnostic> = Vec::new();
        r.push(fatal("rule_already_applied", Some("gate.locked_1"), None, "lock_key_loop is already present."));
        proof {
            assert(diagnostic_views(r@) =~= seq![diagnostic_lit("rule_already_applied", Severity::Fatal, Some("gate.locked_1"), None, "lock_key_loop is already present.", None)]);
        }
        return r;
    }
    let ghost nodes0 = node_views(candidate.graph.nodes@);
    remove_edges_with_id(&mut candidate.graph.edges, "edge.start.goal");
    let ghost edges0 = edge_views(candidate.graph.edges@);
    push_node(&mut candidate.graph.nodes, make_node("gate.locked_1", NodeKind::Gate, "Locked Gate", &["lock", "critical"], None));
    push_node(&mut candidate.graph.nodes, make_node("key.gate_1", NodeKind::Key, "Gate Key", &["key", "branch"], Some("item.gate_key_1")));
    push_edge(
        &mut candidate.graph.edges,
        make_edge("edge.start.gate_1", "start", "gate.locked_1", EdgeKind::CriticalPath, TraversalKind::Open, None, &["approach"]),
    );
    push_edge(
        &mut candidate.graph.edges,
        make_edge("edge.gate_1.goal", "gate.locked_1", "goal", EdgeKind::CriticalPath, TraversalKind::Locked, Some("item.gate_key_1"), &["lock"]),
    );
    push_edge(
        &mut candidate.graph.edges,
        make_edge("edge.start.key_1", "start", "key.gate_1", EdgeKind::KeyBranch, TraversalKind::Open, None, &["branch"]),
    );
    push_edge(
        &mut candidate.graph.edges,
        make_edge("edge.key_1.gate_1", "key.gate_1", "gate.locked_1", EdgeKind::KeyBranch, TraversalKind::Open, None, &["return"]),
    );
    proof {
        assert(node_views(candidate.graph.nodes@) =~~= nodes0 + lock_key_loop_nodes());
        assert(edge_views(candidate.graph.edges@) =~~= edges0 + lock_key_loop_edges());
    }
    let r: Vec<Diagnostic> = Vec::new();
    assert(diagnostic_views(r@) =~= Seq::empty());
    r
}

fn apply_one_way_shortcut(candidate: &mut Candidate) -> (r: Vec<Diagnostic>)
    ensures
        realizes(*old(candidate), *final(candidate), r@, rule_outcome(
            node_views(old(candidate).graph.nodes@),
            edge_views(old(candidate).graph.edges@),
            GraphRule::OneWayShortcut,
            0,
        )),
{
    if has_edge(candidate, "edge.goal.start.shortcut") {
        let mut r: Vec<Diagnostic> = Vec::new();
        r.push(fatal("rule_already_applied", None, Some("edge.goal.start.shortcut"), "one_way_shortcut is already present."));
        proof {
            assert(diagnostic_views(r@) =~= seq![diagnostic_lit("rule_already_applied", Severity::Fatal, None, Some("edge.goal.start.shortcut"), "one_way_shortcut is already present.", None)]);
        }
        return r;
    }
    let ghost nodes0 = node_views(candidate.graph.nodes@);
    let ghost edges0 = edge_views(candidate.graph.edges@);
    push_node(&mut candidate.graph.nodes, make_node("shortcut.return_1", NodeKind::Shortcut, "Return Shortcut", &["shortcut"], None));
    push_edge(
        &mut candidate.graph.edges,
        make_edge("edge.goal.shortcut_1", "goal", "shortcut.return_1", EdgeKind::Shortcut, TraversalKind::Open, None, &["shortcut"]),
    );
    push_edge(
        &mut candidate.graph.edges,
        make_edge("edge.shortcut_1.start", "shortcut.return_1", "start", EdgeKind::Shortcut, TraversalKind::OneWayReturn, None, &["return"]),
    );
    proof {
        assert(node_views(candidate.graph.nodes@) =~~= nodes0 + one_way_shortcut_nodes());
        assert(edge_views(candidate.graph.edges@) =~~= edges0 + one_way_shortcut_edges());
    }
    let r: Vec<Diagnostic> = Vec::new();
    assert(diagnostic_views(r@) =~= Seq::empty());
    r
}

fn apply_secret_bypass(candidate: &mut Candidate) -> (r: Vec<Diagnostic>)
    ensures
        realizes(*old(candidate), *final(candidate), r@, rule_outcome(
            node_views(old(candidate).graph.nodes@),
            edge_views(old(candidate).graph.edges@),
            GraphRule::SecretBypass,
            0,
        )),
{
    if has_edge(candidate, "edge.start.goal.secret") {
        let mut r: Vec<Diagnostic> = Vec::new();
        r.push(fatal_with_hint(
            "rule_already_applied",
            None,
            Some("edge.start.goal.secret"),
            "secret_bypass is already present.",
            "Choose a different bypass rule or start from an earlier candidate.",
        ));
        proof {
            assert(diagnostic_views(r@) =~= seq![diagnostic_lit("rule_already_applied", Severity::Fatal, None, Some("edge.start.goal.secret"), "secret_bypass is already present.", Some("Choose a different bypass rule or start from an earlier candidate."))]);
        }
        return r;
    }
    let ghost nodes0 = node_views(candidate.graph.nodes@);
    let ghost edges0 = edge_views(candidate.graph.edges@);
    push_node(&mut candidate.graph.nodes, make_node("secret.bypass_1", NodeKind::Secret, "Secret Bypass", &["secret", "bypass"], None));
    push_edge(
        &mut candidate.graph.edges,
        make_edge("edge.start.secret_1", "start", "secret.bypass_1", EdgeKind::SecretBypass, TraversalKind::Hidden, None, &["hidden"]),
    );
    push_edge(
        &mut candidate.graph.edges,
        make_edge("edge.secret_1.goal", "secret.bypass_1", "goal", EdgeKind::SecretBypass, TraversalKind::Open, None, &["bypass"]),
    );
    proof {
        assert(node_views(candidate.graph.nodes@) =~~= nodes0 + secret_bypass_nodes());
        assert(edge_views(candidate.graph.edges@) =~~= edges0 + secret_bypass_edges());
    }
    let r: Vec<Diagnostic> = Vec::new();
    assert(diagnostic_views(r@) =~= Seq::empty());
    r
}

fn apply_hub_spoke_cluster(candidate: &mut Candidate) -> (r: Vec<Diagnostic>)
    ensures
        realizes(*old(candidate), *final(candidate), r@, rule_outcome(
            node_views(old(candidate).graph.nodes@),
            edge_views(old(candidate).graph.edges@),
            GraphRule::HubSpokeCluster,
            0,
        )),
{
    if has_node(candidate, "hub.central_1") {
        let mut r: Vec<Diagnostic> = Vec::new();
        r.push(fatal_with_hint(
            "rule_already_applied",
            Some("hub.central_1"),
            None,
            "hub_spoke_cluster is already present.",
            "Use an alternate hub id or apply a different branch pattern.",
        ));
        proof {
            assert(diagnostic_views(r@) =~= seq![diagnostic_lit("rule_already_applied", Severity::Fatal, Some("hub.central_1"), None, "hub_spoke_cluster is already present.", Some("Use an alternate hub id or apply a different branch pattern."))]);
        }
        return r;
    }
    let ghost nodes0 = node_views(candidate.graph.nodes@);
    let ghost edges0 = edge_views(candidate.graph.edges@);
    push_node(&mut candidate.graph.nodes, make_node("hub.central_1", NodeKind::Junction, "Wayfinding Hub", &["hub", "wayfinding_anchor", "merge"], None));
    push_node(&mut candidate.graph.nodes, make_node("resource.clue_1", NodeKind::Resource, "Route Clue", &["optional", "preparation"], None));
    push_node(&mut candidate.graph.nodes, make_node("hazard.watch_1", NodeKind::Hazard, "Watched Passage", &["optional", "hazard"], None));
    push_node(&mut candidate.graph.nodes, make_node("treasure.cache_1", NodeKind::Treasure, "Hub Cache", &["optional", "reward"], None));
    push_edge(
        &mut candidate.graph.edges,
        make_edge("edge.start.hub_1", "start", "hub.central_1", EdgeKind::CriticalPath, TraversalKind::Open, None, &["approach"]),
    );
    push_edge(
        &mut candidate.graph.edges,
        make_edge("edge.hub_1.goal", "hub.central_1", "goal", EdgeKind::CriticalPath, TraversalKind::Open, None, &["rejoin"]),
    );
    push_edge(
        &mut candidate.graph.edges,
        make_edge("edge.hub_1.clue_1", "hub.central_1", "resource.clue_1", EdgeKind::OptionalBranch, TraversalKind::Open, None, &["branch"]),
    );
    push_edge(
        &mut candidate.graph.edges,
        make_edge("edge.clue_1.hub_1", "resource.clue_1", "hub.central_1", EdgeKind::OptionalBranch, TraversalKind::Open, None, &["return"]),
    );
    push_edge(
        &mut candidate.graph.edges,
        make_edge("edge.hub_1.watch_1", "hub.central_1", "hazard.watch_1", EdgeKind::OptionalBranch, TraversalKind::Open, None, &["branch", "pressure"]),
    );
    push_edge(
        &mut candidate.graph.edges,
        make_edge("edge.watch_1.goal", "hazard.watch_1", "goal", EdgeKind::OptionalBranch, TraversalKind::Open, None, &["rejoin"]),
    );
    push_edge(
        &mut candidate.graph.edges,
        make_edge("edge.hub_1.cache_1", "hub.central_1", "treasure.cache_1", EdgeKind::OptionalBranch, TraversalKind::Open, None, &["branch"]),
    );
    push_edge(
        &mut candidate.graph.edges,
        make_edge("edge.cache_1.hub_1", "treasure.cache_1", "hub.central_1", EdgeKind::OptionalBranch, TraversalKind::Open, None, &["return"]),
    );
    proof {
        assert(node_views(candidate.graph.nodes@) =~~= nodes0 + hub_spoke_cluster_nodes());
        assert(edge_views(candidate.graph.edges@) =~~= edges0 + hub_spoke_cluster_edges());
    }
    let r: Vec<Diagnostic> = Vec::new();
    assert(diagnostic_views(r@) =~= Seq::empty());
    r
}

fn apply_hazard_resource_tradeoff(candidate: &mut Candidate) -> (r: Vec<Diagnostic>)
    ensures
        realizes(*old(candidate), *final(candidate), r@, rule_outcome(
            node_views(old(candidate).graph.nodes@),
            edge_views(old(candidate).graph.edges@),
            GraphRule::HazardResourceTradeoff,
            0,
        )),
{
    if has_node(candidate, "hazard.sluice_1") {
        let mut r: Vec<Diagnostic> = Vec::new();
        r.push(fatal_with_hint(
            "rule_already_applied",
            Some("hazard.sluice_1"),
            None,
            "hazard_resource_tradeoff is already present.",
            "Apply a different pressure pattern or use a fresh candidate.",
        ));
        proof {
            assert(diagnostic_views(r@) =~= seq![diagnostic_lit("rule_already_applied", Severity::Fatal, Some("hazard.sluice_1"), None, "hazard_resource_tradeoff is already present.", Some("Apply a different pressure pattern or use a fresh candidate."))]);
        }
        return r;
    }
    let ghost nodes0 = node_views(candidate.graph.nodes@);
    let ghost edges0 = edge_views(candidate.graph.edges@);
    push_node(&mut candidate.graph.nodes, make_node("hazard.sluice_1", NodeKind::Hazard, "Flooded Sluice", &["optional", "hazard"], None));
    push_node(&mut candidate.graph.nodes, make_node("resource.safety_1", NodeKind::Resource, "Safety Cache", &["optional", "preparation"], Some("item.safety_cache_1")));
    push_edge(
        &mut candidate.graph.edges,
        make_edge("edge.start.safety_1", "start", "resource.safety_1", EdgeKind::OptionalBranch, TraversalKind::Open, None, &["branch"]),
    );
    push_edge(
        &mut candidate.graph.edges,
        make_edge("edge.safety_1.sluice_1", "resource.safety_1", "hazard.sluice_1", EdgeKind::OptionalBranch, TraversalKind::Open, None, &["preparation"]),
    );
    push_edge(
        &mut candidate.graph.edges,
        make_edge("edge.start.sluice_1", "start", "hazard.sluice_1", EdgeKind::OptionalBranch, TraversalKind::Open, None, &["branch", "pressure"]),
    );
    push_edge(
        &mut candidate.graph.edges,
        make_edge("edge.sluice_1.goal", "hazard.sluice_1", "goal", EdgeKind::OptionalBranch, TraversalKind::Open, None, &["rejoin"]),
    );
    proof {
        assert(node_views(candidate.graph.nodes@) =~~= nodes0 + hazard_resource_tradeoff_nodes());
        assert(edge_views(candidate.graph.edges@) =~~= edges0 + hazard_resource_tradeoff_edges());
    }
    let r: Vec<Diagnostic> = Vec::new();
    assert(diagnostic_views(r@) =~= Seq::empty());
    r
}

fn apply_gated_treasure_branch(candidate: &mut Candidate) -> (r: Vec<Diagnostic>)
    ensures
        realizes(*old(candidate), *final(candidate), r@, rule_outcome(
            node_views(old(candidate).graph.nodes@),
            edge_views(old(candidate).graph.edges@),
            GraphRule::GatedTreasureBranch,
            0,
        )),
{
    if has_node(candidate, "treasure.gated_1") {
        let mut r: Vec<Diagnostic> = Vec::new();
        r.push(fatal_with_hint(
            "rule_already_applied",
            Some("treasure.gated_1"),
            None,
            "gated_treasure_branch is already present.",
            "Use optional_treasure_detour for repeatable reward branches.",
        ));
        proof {
            assert(diagnostic_views(r@) =~= seq![diagnostic_lit("rule_already_applied", Severity::Fatal, Some("treasure.gated_1"), None, "gated_treasure_branch is already present.", Some("Use optional_treasure_detour for repeatable reward branches."))]);
        }
        return r;
    }
    let ghost nodes0 = node_views(candidate.graph.nodes@);
    let ghost edges0 = edge_views(candidate.graph.edges@);
    push_node(&mut candidate.graph.nodes, make_node("key.treasure_1", NodeKind::Key, "Treasure Key", &["key", "optional"], Some("item.treasure_key_1")));
    push_node(&mut candidate.graph.nodes, make_node("treasure.gated_1", NodeKind::Treasure, "Gated Treasure", &["optional", "reward"], None));
    push_edge(
        &mut candidate.graph.edges,
        make_edge("edge.start.treasure_key_1", "start", "key.treasure_1", EdgeKind::KeyBranch, TraversalKind::Open, None, &["branch"]),
    );
    push_edge(
        &mut candidate.graph.edges,
        make_edge("edge.treasure_key_1.treasure_1", "key.treasure_1", "treasure.gated_1", EdgeKind::OptionalBranch, TraversalKind::Locked, Some("item.treasure_key_1"), &["locked", "branch"]),
    );
    push_edge(
        &mut candidate.graph.edges,
        make_edge("edge.treasure_1.goal", "treasure.gated_1", "goal", EdgeKind::OptionalBranch, TraversalKind::Locked, Some("item.treasure_key_1"), &["locked", "rejoin"]),
    );
    proof {
        assert(node_views(candidate.graph.nodes@) =~~= nodes0 + gated_treasure_branch_nodes());
        assert(edge_views(candidate.graph.edges@) =~~= edges0 + gated_treasure_branch_edges());
    }
    let r: Vec<Diagnostic> = Vec::new();
    assert(diagnostic_views(r@) =~= Seq::empty());
    r
}
fn apply_optional_treasure_detour(candidate: &mut Candidate, seed: u64) -> (r: Vec<Diagnostic>)
    ensures
        realizes(*old(candidate), *final(candidate), r@, rule_outcome(
            node_views(old(candidate).graph.nodes@),
            edge_views(old(candidate).graph.edges@),
            GraphRule::OptionalTreasureDetour,
            seed,
        )),
{
    let ghost nodes0 = node_views(candidate.graph.nodes@);
    let ghost edges0 = edge_views(candidate.graph.edges@);
    let suffix = stable_suffix(seed);
    let mut treasure = String::from_str("treasure.");
    treasure.append(suffix.as_str());
    let mut start_edge = String::from_str("edge.start.");
    start_edge.append(treasure.as_str());
    let mut goal_edge = String::from_str("edge.");
    goal_edge.append(treasure.as_str());
    goal_edge.append(".goal");
    push_node(
        &mut candidate.graph.nodes,
        make_node(treasure.as_str(), NodeKind::Treasure, "Optional Treasure", &["optional", "reward"], None),
    );
    push_edge(
        &mut candidate.graph.edges,
        make_edge(
            start_edge.as_str(),
            "start",
            treasure.as_str(),
            EdgeKind::OptionalBranch,
            TraversalKind::Open,
            None,
            &["detour"],
        ),
    );
    push_edge(
        &mut candidate.graph.edges,
        make_edge(
            goal_edge.as_str(),
            treasure.as_str(),
            "goal",
            EdgeKind::OptionalBranch,
            TraversalKind::Open,
            None,
            &["rejoin"],
        ),
    );
    proof {
        assert(node_views(candidate.graph.nodes@) =~~= nodes0 + optional_treasure_detour_nodes(seed));
        assert(edge_views(candidate.graph.edges@) =~~= edges0 + optional_treasure_detour_edges(seed));
    }
    let r: Vec<Diagnostic> = Vec::new();
    assert(diagnostic_views(r@) =~= Seq::empty());
    r
}

fn apply_nested_lock_key_chain(candidate: &mut Candidate) -> (r: Vec<Diagnostic>)
    ensures
        realizes(*old(candidate), *final(candidate), r@, rule_outcome(
            node_views(old(candidate).graph.nodes@),
            edge_views(old(candidate).graph.edges@),
            GraphRule::NestedLockKeyChain,
            0,
        )),
{
    if has_node(candidate, "gate.locked_2") {
        let mut r: Vec<Diagnostic> = Vec::new();
        r.push(fatal_with_hint(
            "rule_already_applied",
            Some("gate.locked_2"),
            None,
            "nested_lock_key_chain is already present.",
            "Nested locks use fixed gate/key ids; start from a candidate before this rule.",
        ));
        proof {
            assert(diagnostic_views(r@) =~= seq![diagnostic_lit("rule_already_applied", Severity::Fatal, Some("gate.locked_2"), None, "nested_lock_key_chain is already present.", Some("Nested locks use fixed gate/key ids; start from a candidate before this rule."))]);
        }
        return r;
    }
    if !has_node(candidate, "gate.locked_1") {
        let mut r: Vec<Diagnostic> = Vec::new();
        r.push(fatal_with_hint(
            "missing_required_pattern",
            Some("gate.locked_1"),
            None,
            "nested_lock_key_chain requires an existing first lock/key loop.",
            "Apply lock_key_loop before nested_lock_key_chain.",
        ));
        proof {
            assert(diagnostic_views(r@) =~= seq![diagnostic_lit("missing_required_pattern", Severity::Fatal, Some("gate.locked_1"), None, "nested_lock_key_chain requires an existing first lock/key loop.", Some("Apply lock_key_loop before nested_lock_key_chain."))]);
        }
        return r;
    }
    let ghost nodes0 = node_views(candidate.graph.nodes@);
    remove_edges_with_id(&mut candidate.graph.edges, "edge.gate_1.goal");
    let ghost edges0 = edge_views(candidate.graph.edges@);
    push_node(&mut candidate.graph.nodes, make_node("gate.locked_2", NodeKind::Gate, "Inner Locked Gate", &["lock", "critical"], None));
    push_node(&mut candidate.graph.nodes, make_node("key.deep_2", NodeKind::Key, "Inner Gate Key", &["key", "branch", "preparation"], Some("item.deep_key_2")));
    push_edge(
        &mut candidate.graph.edges,
        make_edge("edge.gate_1.gate_2", "gate.locked_1", "gate.locked_2", EdgeKind::CriticalPath, TraversalKind::Open, None, &["approach"]),
    );
    push_edge(
        &mut candidate.graph.edges,
        make_edge("edge.gate_2.goal", "gate.locked_2", "goal", EdgeKind::CriticalPath, TraversalKind::Locked, Some("item.deep_key_2"), &["locked"]),
    );
    push_edge(
        &mut candidate.graph.edges,
        make_edge("edge.gate_1.key_2", "gate.locked_1", "key.deep_2", EdgeKind::KeyBranch, TraversalKind::Open, None, &["branch"]),
    );
    push_edge(
        &mut candidate.graph.edges,
        make_edge("edge.key_2.gate_2", "key.deep_2", "gate.locked_2", EdgeKind::KeyBranch, TraversalKind::Open, None, &["return"]),
    );
    proof {
        assert(node_views(candidate.graph.nodes@) =~~= nodes0 + nested_lock_key_chain_nodes());
        assert(edge_views(candidate.graph.edges@) =~~= edges0 + nested_lock_key_chain_edges());
    }
    let r: Vec<Diagnostic> = Vec::new();
    assert(diagnostic_views(r@) =~= Seq::empty());
    r
}

fn apply_boss_preparation_loop(candidate: &mut Candidate) -> (r: Vec<Diagnostic>)
    ensures
        realizes(*old(candidate), *final(candidate), r@, rule_outcome(
            node_views(old(candidate).graph.nodes@),
            edge_views(old(candidate).graph.edges@),
            GraphRule::BossPreparationLoop,
            0,
        )),
{
    if has_node(candidate, "gate.boss_1") {
        let mut r: Vec<Diagnostic> = Vec::new();
        r.push(fatal_with_hint(
            "rule_already_applied",
            Some("gate.boss_1"),
            None,
            "boss_preparation_loop is already present.",
            "Boss preparation currently uses one fixed boss gate per candidate.",
        ));
        proof {
            assert(diagnostic_views(r@) =~= seq![diagnostic_lit("rule_already_applied", Severity::Fatal, Some("gate.boss_1"), None, "boss_preparation_loop is already present.", Some("Boss preparation currently uses one fixed boss gate per candidate."))]);
        }
        return r;
    }
    let ghost nodes0 = node_views(candidate.graph.nodes@);
    let approach_from: &str = if has_node(candidate, "gate.locked_2") {
        remove_edges_with_id(&mut candidate.graph.edges, "edge.gate_2.goal");
        "gate.locked_2"
    } else if has_node(candidate, "gate.locked_1") {
        remove_edges_with_id(&mut candidate.graph.edges, "edge.gate_1.goal");
        "gate.locked_1"
    } else {
        remove_edges_with_id(&mut candidate.graph.edges, "edge.start.goal");
        "start"
    };
    assert(approach_from@ == boss_approach(nodes0).0);
    let ghost edges0 = edge_views(candidate.graph.edges@);
    push_node(&mut candidate.graph.nodes, make_node("gate.boss_1", NodeKind::Gate, "Boss Threshold", &["boss", "critical"], None));
    push_node(&mut candidate.graph.nodes, make_node("resource.boss_prep_1", NodeKind::Resource, "Boss Preparation", &["preparation", "optional"], Some("item.boss_preparation_1")));
    push_edge(
        &mut candidate.graph.edges,
        make_edge("edge.approach.boss_1", approach_from, "gate.boss_1", EdgeKind::CriticalPath, TraversalKind::Open, None, &["approach"]),
    );
    push_edge(
        &mut candidate.graph.edges,
        make_edge("edge.boss_1.goal", "gate.boss_1", "goal", EdgeKind::CriticalPath, TraversalKind::Locked, Some("item.boss_preparation_1"), &["locked", "boss"]),
    );
    push_edge(
        &mut candidate.graph.edges,
        make_edge("edge.approach.boss_prep_1", approach_from, "resource.boss_prep_1", EdgeKind::OptionalBranch, TraversalKind::Open, None, &["branch", "preparation"]),
    );
    push_edge(
        &mut candidate.graph.edges,
        make_edge("edge.boss_prep_1.boss_1", "resource.boss_prep_1", "gate.boss_1", EdgeKind::OptionalBranch, TraversalKind::Open, None, &["return"]),
    );
    proof {
        assert(node_views(candidate.graph.nodes@) =~~= nodes0 + boss_preparation_loop_nodes());
        assert(edge_views(candidate.graph.edges@) =~~= edges0 + boss_preparation_loop_edges(approach_from@));
    }
    let r: Vec<Diagnostic> = Vec::new();
    assert(diagnostic_views(r@) =~= Seq::empty());
    r
}

fn apply_branch_merge_shortcut(candidate: &mut Candidate) -> (r: Vec<Diagnostic>)
    ensures
        realizes(*old(candidate), *final(candidate), r@, rule_outcome(
            node_views(old(candidate).graph.nodes@),
            edge_views(old(candidate).graph.edges@),
            GraphRule::BranchMergeShortcut,
            0,
        )),
{
    if has_node(candidate, "junction.merge_1") {
        let mut r: Vec<Diagnostic> = Vec::new();
        r.push(fatal_with_hint(
            "rule_already_applied",
            Some("junction.merge_1"),
            None,
            "branch_merge_shortcut is already present.",
            "Merge shortcuts use a fixed merge node until batch generation adds variant ids.",
        ));
        proof {
            assert(diagnostic_views(r@) =~= seq![diagnostic_lit("rule_already_applied", Severity::Fatal, Some("junction.merge_1"), None, "branch_merge_shortcut is already present.", Some("Merge shortcuts use a fixed merge node until batch generation adds variant ids."))]);
        }
        return r;
    }
    let secondary_source: &str = if has_node(candidate, "hub.central_1") {
        "hub.central_1"
    } else if has_node(candidate, "treasure.gated_1") {
        "treasure.gated_1"
    } else if has_node(candidate, "key.gate_1") {
        "key.gate_1"
    } else {
        let mut r: Vec<Diagnostic> = Vec::new();
        r.push(fatal_with_hint(
            "missing_required_pattern",
            None,
            None,
            "branch_merge_shortcut needs an existing branch or hub to merge.",
            "Apply hub_spoke_cluster, gated_treasure_branch, or lock_key_loop first.",
        ));
        proof {
            assert(diagnostic_views(r@) =~= seq![diagnostic_lit("missing_required_pattern", Severity::Fatal, None, None, "branch_merge_shortcut needs an existing branch or hub to merge.", Some("Apply hub_spoke_cluster, gated_treasure_branch, or lock_key_loop first."))]);
        }
        return r;
    };
    let ghost nodes0 = node_views(candidate.graph.nodes@);
    let ghost edges0 = edge_views(candidate.graph.edges@);
    assert(merge_source(nodes0) == Some(secondary_source@));
    let guard = guarded_node_item(candidate, secondary_source);
    let guarded = guard.is_some();
    let required: Option<&str> = match &guard {
        Some(g) => Some(g.as_str()),
        None => None,
    };
    assert(opt_text(guard) == guard_item(edges0, secondary_source@));
    push_node(
        &mut candidate.graph.nodes,
        make_node("junction.merge_1", NodeKind::Junction, "Branch Merge", &["merge", "wayfinding_anchor"], None),
    );
    push_edge(
        &mut candidate.graph.edges,
        make_edge(
            "edge.start.merge_1",
            "start",
            "junction.merge_1",
            EdgeKind::OptionalBranch,
            TraversalKind::Open,
            None,
            &["branch"],
        ),
    );
    if guarded {
        push_edge(
            &mut candidate.graph.edges,
            make_edge(
                "edge.secondary.merge_1",
                secondary_source,
                "junction.merge_1",
                EdgeKind::OptionalBranch,
                TraversalKind::Locked,
                required,
                &["locked", "rejoin"],
            ),
        );
    } else {
        push_edge(
            &mut candidate.graph.edges,
            make_edge(
                "edge.secondary.merge_1",
                secondary_source,
                "junction.merge_1",
                EdgeKind::OptionalBranch,
                TraversalKind::Open,
                required,
                &["rejoin"],
            ),
        );
    }
    push_edge(
        &mut candidate.graph.edges,
        make_edge(
            "edge.merge_1.goal.shortcut",
            "junction.merge_1",
            "goal",
            EdgeKind::Shortcut,
            TraversalKind::Open,
            None,
            &["shortcut", "rejoin"],
        ),
    );
    proof {
        assert(node_views(candidate.graph.nodes@) =~~= nodes0 + branch_merge_shortcut_nodes());
        assert(edge_views(candidate.graph.edges@) =~~= edges0 + branch_merge_shortcut_edges(
            secondary_source@,
            guard_item(edges0, secondary_source@),
        ));
    }
    let r: Vec<Diagnostic> = Vec::new();
    assert(diagnostic_views(r@) =~= Seq::empty());
    r
}
proof fn lemma_guard_items_step(ev: Seq<EdgeView>, node: Seq<char>, i: int)
    requires
        0 <= i < ev.len(),
    ensures
        guard_items(ev.take(i + 1), node) == (if ev[i].to == node && ev[i].traversal
            == TraversalKind::Locked && ev[i].required_item is Some {
            guard_items(ev.take(i), node).insert(ev[i].required_item->0)
        } else {
            guard_items(ev.take(i), node)
        }),
{
    let a = ev.take(i);
    let b = ev.take(i + 1);
    assert forall|j: int| 0 <= j < i implies #[trigger] b[j] == a[j] by {}
    assert(b[i] == ev[i]);
    let expected = if ev[i].to == node && ev[i].traversal == TraversalKind::Locked
        && ev[i].required_item is Some {
        guard_items(a, node).insert(ev[i].required_item->0)
    } else {
        guard_items(a, node)
    };
    assert forall|item: Seq<char>| #[trigger] guard_items(b, node).contains(item) implies expected.contains(
        item,
    ) by {
        let j = choose|j: int|
            0 <= j < b.len() && #[trigger] b[j].to == node && b[j].traversal == TraversalKind::Locked
                && b[j].required_item == Some(item);
        if j < i {
            assert(a[j] == b[j]);
            assert(guard_items(a, node).contains(item));
        }
    }
    assert forall|item: Seq<char>| expected.contains(item) implies #[trigger] guard_items(
        b,
        node,
    ).contains(item) by {
        if guard_items(a, node).contains(item) {
            let j = choose|j: int|
                0 <= j < a.len() && #[trigger] a[j].to == node && a[j].traversal
                    == TraversalKind::Locked && a[j].required_item == Some(item);
            assert(b[j] == a[j]);
        } else {
            assert(b[i].to == node);
        }
    }
    assert(guard_items(b, node) =~= expected);
}

/// The item that guards `node_id`: the one item required by the locked edges
/// into it, if they require exactly one distinct item.
pub fn guarded_node_item(candidate: &Candidate, node_id: &str) -> (r: Option<String>)
    ensures
        opt_text(r) == guard_item(edge_views(candidate.graph.edges@), node_id@),
{
    let edges = &candidate.graph.edges;
    let ghost ev = edge_views(candidate.graph.edges@);
    let mut first: Option<String> = None;
    let mut multiple = false;
    let mut i: usize = 0;
    while i < edges.len()
        invariant
            edges@ == candidate.graph.edges@,
            ev == edge_views(edges@),
            i <= edges@.len(),
            first is None ==> guard_items(ev.take(i as int), node_id@) =~= Set::<Seq<char>>::empty(),
            first is None ==> !multiple,
            first matches Some(f) ==> guard_items(ev.take(i as int), node_id@).contains(f@),
            first matches Some(f) ==> (!multiple ==> guard_items(ev.take(i as int), node_id@)
                =~= set![f@]),
            first matches Some(f) ==> (multiple ==> exists|y: Seq<char>|
                #[trigger] guard_items(ev.take(i as int), node_id@).contains(y) && y != f@),
        decreases edges@.len() - i,
    {
        proof {
            lemma_guard_items_step(ev, node_id@, i as int);
            assert(ev[i as int] == edges@[i as int]@);
        }
        let ghost prev = guard_items(ev.take(i as int), node_id@);
        let e = &edges[i];
        if e.traversal == TraversalKind::Locked && str_eq(e.to.as_str(), node_id) {
            match &e.required_item {
                Some(item) => {
                    let ghost cur = guard_items(ev.take(i + 1), node_id@);
                    assert(cur == prev.insert(item@));
                    match &first {
                        None => {
                            first = Some(item.clone());
                            proof {
                                assert(cur =~= set![item@]);
                            }
                        },
                        Some(f) => {
                            let ghost fv = f@;
                            if !str_eq(f.as_str(), item.as_str()) {
                                multiple = true;
                                assert(cur.contains(item@));
                            } else {
                                proof {
                                    if !multiple {
                                        assert(cur =~= set![fv]);
                                    } else {
                                        let y = choose|y: Seq<char>|
                                            #[trigger] prev.contains(y) && y != fv;
                                        assert(cur.contains(y));
                                    }
                                }
                            }
                        },
                    }
                },
                None => {},
            }
        }
        i = i + 1;
    }
    proof {
        assert(ev.take(edges@.len() as int) =~= ev);
        let s = guard_items(ev, node_id@);
        let ghost fst = first;
        match fst {
            None => {
                assert forall|x: Seq<char>| s != set![x] by {
                    assert(set![x].contains(x));
                }
            },
            Some(f) => {
                if multiple {
                    let y = choose|y: Seq<char>| #[trigger] s.contains(y) && y != f@;
                    assert forall|x: Seq<char>| s != set![x] by {
                        if s == set![x] {
                            assert(s.contains(f@));
                            assert(s.contains(y));
                        }
                    }
                } else {
                    assert(s == set![f@]);
                    let x = choose|x: Seq<char>| s == set![x];
                    assert(set![x].contains(f@));
                }
            },
        }
    }
    if multiple {
        None
    } else {
        first
    }
}

/// Rewrites a candidate's graph with `rule`, or refuses with a diagnostic
/// and leaves it unchanged.
pub fn mutate_graph_rule(candidate: &mut Candidate, rule: GraphRule, seed: u64) -> (r: Vec<
    Diagnostic,
>)
    ensures
        realizes(*old(candidate), *final(candidate), r@, rule_outcome(
            node_views(old(candidate).graph.nodes@),
            edge_views(old(candidate).graph.edges@),
            rule,
            seed,
        )),
{
    match rule {
        GraphRule::LockKeyLoop => apply_lock_key_loop(candidate),
        GraphRule::OptionalTreasureDetour => apply_optional_treasure_detour(candidate, seed),
        GraphRule::OneWayShortcut => apply_one_way_shortcut(candidate),
        GraphRule::SecretBypass => apply_secret_bypass(candidate),
        GraphRule::HubSpokeCluster => apply_hub_spoke_cluster(candidate),
        GraphRule::NestedLockKeyChain => apply_nested_lock_key_chain(candidate),
        GraphRule::HazardResourceTradeoff => apply_hazard_resource_tradeoff(candidate),
        GraphRule::BossPreparationLoop => apply_boss_preparation_loop(candidate),
        GraphRule::GatedTreasureBranch => apply_gated_treasure_branch(candidate),
        GraphRule::BranchMergeShortcut => apply_branch_merge_shortcut(candidate),
    }
}

} // verus!
