//! Reports over a candidate graph: which rules can still be applied to it,
//! and why not.

use vstd::prelude::*;
use vstd::string::*;

use crate::graph::{has_edge, has_edge_spec, has_node, has_node_spec};
use crate::graph_rules::{
    branch_merge_shortcut_nodes, boss_preparation_loop_nodes, gated_treasure_branch_nodes,
    hazard_resource_tradeoff_nodes, hub_spoke_cluster_nodes, lock_key_loop_nodes,
    nested_lock_key_chain_nodes, one_way_shortcut_edges, rule_outcome,
};
use crate::json::{candidate_json, hash_candidate, hash_of};
use crate::model::{
    edge_views, graph_rule_text, node_views, owned, texts, Candidate, EdgeView, GraphRule, NodeView,
    TraversalKind,
};

verus! {

#[derive(Clone, Debug)]
pub struct RuleCompatibility {
    pub rule: String,
    pub status: String,
    pub reasons: Vec<String>,
    pub recommended_actions: Vec<String>,
}

#[derive(Clone, Debug)]
pub struct RuleCompatibilityReport {
    pub kind: String,
    pub schema_version: u32,
    pub candidate_id: String,
    pub state_hash: String,
    pub rules: Vec<RuleCompatibility>,
}

/// A rule's compatibility as text.
#[verifier::ext_equal]
pub struct CompatibilityView {
    pub rule: Seq<char>,
    pub status: Seq<char>,
    pub reasons: Seq<Seq<char>>,
    pub recommended_actions: Seq<Seq<char>>,
}

impl View for RuleCompatibility {
    type V = CompatibilityView;

    open spec fn view(&self) -> CompatibilityView {
        CompatibilityView {
            rule: self.rule@,
            status: self.status@,
            reasons: texts(self.reasons@),
            recommended_actions: texts(self.recommended_actions@),
        }
    }
}

/// Every graph rule, in declaration order.
pub open spec fn all_rules() -> Seq<GraphRule> {
    seq![
        GraphRule::LockKeyLoop,
        GraphRule::OptionalTreasureDetour,
        GraphRule::OneWayShortcut,
        GraphRule::SecretBypass,
        GraphRule::HubSpokeCluster,
        GraphRule::NestedLockKeyChain,
        GraphRule::HazardResourceTradeoff,
        GraphRule::BossPreparationLoop,
        GraphRule::GatedTreasureBranch,
        GraphRule::BranchMergeShortcut,
    ]
}

/// Every graph rule, in declaration order.
pub fn all_graph_rules() -> (r: Vec<GraphRule>)
    ensures
        r@ == all_rules(),
{
    let r = vec![
        GraphRule::LockKeyLoop,
        GraphRule::OptionalTreasureDetour,
        GraphRule::OneWayShortcut,
        GraphRule::SecretBypass,
        GraphRule::HubSpokeCluster,
        GraphRule::NestedLockKeyChain,
        GraphRule::HazardResourceTradeoff,
        GraphRule::BossPreparationLoop,
        GraphRule::GatedTreasureBranch,
        GraphRule::BranchMergeShortcut,
    ];
    assert(r@ =~= all_rules());
    r
}

/// Whether the fixed marker of `rule` is already in the graph.
pub open spec fn marker_present(nodes: Seq<NodeView>, edges: Seq<EdgeView>, rule: GraphRule) -> bool {
    match rule {
        GraphRule::LockKeyLoop => has_node_spec(nodes, "gate.locked_1"@),
        GraphRule::OneWayShortcut => has_edge_spec(edges, "edge.goal.start.shortcut"@)
            || has_edge_spec(edges, "edge.goal.shortcut_1"@) || has_edge_spec(
            edges,
            "edge.shortcut_1.start"@,
        ),
        GraphRule::SecretBypass => has_edge_spec(edges, "edge.start.goal.secret"@),
        GraphRule::HubSpokeCluster => has_node_spec(nodes, "hub.central_1"@),
        GraphRule::NestedLockKeyChain => has_node_spec(nodes, "gate.locked_2"@),
        GraphRule::HazardResourceTradeoff => has_node_spec(nodes, "hazard.sluice_1"@),
        GraphRule::BossPreparationLoop => has_node_spec(nodes, "gate.boss_1"@),
        GraphRule::GatedTreasureBranch => has_node_spec(nodes, "treasure.gated_1"@),
        GraphRule::BranchMergeShortcut => has_node_spec(nodes, "junction.merge_1"@),
        GraphRule::OptionalTreasureDetour => false,
    }
}

pub open spec fn has_locked_edge(edges: Seq<EdgeView>) -> bool {
    exists|i: int| 0 <= i < edges.len() && #[trigger] edges[i].traversal == TraversalKind::Locked
}

/// A finding: the status it sets, with a reason and an action.
pub open spec fn noted(c: CompatibilityView, status: &str, reason: &str, action: &str) -> CompatibilityView {
    CompatibilityView {
        rule: c.rule,
        status: status@,
        reasons: c.reasons.push(reason@),
        recommended_actions: c.recommended_actions.push(action@),
    }
}

/// How `rule` stands against a graph: applicable; a duplicate of a present
/// marker; blocked for a missing prerequisite; or risky, for a secret bypass
/// over locked progression.
pub open spec fn compatibility(
    nodes: Seq<NodeView>,
    edges: Seq<EdgeView>,
    rule: GraphRule,
) -> CompatibilityView {
    let c0 = CompatibilityView {
        rule: graph_rule_text(rule)@,
        status: "applicable"@,
        reasons: Seq::empty(),
        recommended_actions: Seq::empty(),
    };
    let c1 = if marker_present(nodes, edges, rule) {
        noted(
            c0,
            "duplicate",
            "Fixed marker for this rule already exists.",
            "Fork from an earlier candidate or choose another rule.",
        )
    } else {
        c0
    };
    let c2 = if rule == GraphRule::NestedLockKeyChain && !has_node_spec(nodes, "gate.locked_1"@) {
        noted(
            c1,
            "blocked",
            "Requires lock_key_loop / gate.locked_1 first.",
            "Apply lock_key_loop before nested_lock_key_chain.",
        )
    } else {
        c1
    };
    let c3 = if rule == GraphRule::BranchMergeShortcut && !(has_node_spec(nodes, "hub.central_1"@)
        || has_node_spec(nodes, "treasure.gated_1"@) || has_node_spec(nodes, "key.gate_1"@)) {
        noted(
            c2,
            "blocked",
            "Requires an existing branch, hub, or key route to merge.",
            "Apply hub_spoke_cluster, gated_treasure_branch, or lock_key_loop first.",
        )
    } else {
        c2
    };
    if c3.status == "applicable"@ && rule == GraphRule::SecretBypass && has_locked_edge(edges) {
        noted(
            c3,
            "risky",
            "Secret bypass may trivialize existing locked progression.",
            "Use only when bypass routes are intended.",
        )
    } else {
        c3
    }
}

fn note(c: &mut RuleCompatibility, status: &str, reason: &str, action: &str)
    ensures
        final(c)@ == noted(old(c)@, status, reason, action),
{
    c.status = owned(status);
    let ghost r0 = c.reasons@;
    let ghost a0 = c.recommended_actions@;
    c.reasons.push(owned(reason));
    c.recommended_actions.push(owned(action));
    assert(texts(c.reasons@) =~= texts(r0).push(reason@));
    assert(texts(c.recommended_actions@) =~= texts(a0).push(action@));
}

fn any_locked_edge(candidate: &Candidate) -> (r: bool)
    ensures
        r == has_locked_edge(edge_views(candidate.graph.edges@)),
{
    let edges = &candidate.graph.edges;
    let mut i: usize = 0;
    while i < edges.len()
        invariant
            i <= edges@.len(),
            edges@ == candidate.graph.edges@,
            forall|j: int| 0 <= j < i ==> edges@[j].traversal != TraversalKind::Locked,
        decreases edges@.len() - i,
    {
        if edges[i].traversal == TraversalKind::Locked {
            assert(edge_views(edges@)[i as int].traversal == TraversalKind::Locked);
            return true;
        }
        i = i + 1;
    }
    assert forall|j: int| 0 <= j < edges@.len() implies #[trigger] edge_views(edges@)[j].traversal
        != TraversalKind::Locked by {
        assert(edge_views(edges@)[j] == edges@[j]@);
    }
    false
}

/// How `rule` stands against the candidate's graph (see `compatibility`).
pub fn rule_compatibility(candidate: &Candidate, rule: GraphRule) -> (r: RuleCompatibility)
    ensures
        r@ == compatibility(node_views(candidate.graph.nodes@), edge_views(candidate.graph.edges@), rule),
{
    let ghost nodes = node_views(candidate.graph.nodes@);
    let ghost edges = edge_views(candidate.graph.edges@);
    let mut c = RuleCompatibility {
        rule: owned(rule.as_str()),
        status: owned("applicable"),
        reasons: Vec::new(),
        recommended_actions: Vec::new(),
    };
    assert(texts(c.reasons@) =~= Seq::<Seq<char>>::empty());
    assert(texts(c.recommended_actions@) =~= Seq::<Seq<char>>::empty());
    let duplicate = match rule {
        GraphRule::LockKeyLoop => has_node(candidate, "gate.locked_1"),
        GraphRule::OneWayShortcut => {
            has_edge(candidate, "edge.goal.start.shortcut") || has_edge(
                candidate,
                "edge.goal.shortcut_1",
            ) || has_edge(candidate, "edge.shortcut_1.start")
        },
        GraphRule::SecretBypass => has_edge(candidate, "edge.start.goal.secret"),
        GraphRule::HubSpokeCluster => has_node(candidate, "hub.central_1"),
        GraphRule::NestedLockKeyChain => has_node(candidate, "gate.locked_2"),
        GraphRule::HazardResourceTradeoff => has_node(candidate, "hazard.sluice_1"),
        GraphRule::BossPreparationLoop => has_node(candidate, "gate.boss_1"),
        GraphRule::GatedTreasureBranch => has_node(candidate, "treasure.gated_1"),
        GraphRule::BranchMergeShortcut => has_node(candidate, "junction.merge_1"),
        GraphRule::OptionalTreasureDetour => false,
    };
    if duplicate {
        note(
            &mut c,
            "duplicate",
            "Fixed marker for this rule already exists.",
            "Fork from an earlier candidate or choose another rule.",
        );
    }
    if rule == GraphRule::NestedLockKeyChain && !has_node(candidate, "gate.locked_1") {
        note(
            &mut c,
            "blocked",
            "Requires lock_key_loop / gate.locked_1 first.",
            "Apply lock_key_loop before nested_lock_key_chain.",
        );
    }
    if rule == GraphRule::BranchMergeShortcut && !(has_node(candidate, "hub.central_1") || has_node(
        candidate,
        "treasure.gated_1",
    ) || has_node(candidate, "key.gate_1")) {
        note(
            &mut c,
            "blocked",
            "Requires an existing branch, hub, or key route to merge.",
            "Apply hub_spoke_cluster, gated_treasure_branch, or lock_key_loop first.",
        );
    }
    if crate::text::str_eq(c.status.as_str(), "applicable") && rule == GraphRule::SecretBypass
        && any_locked_edge(candidate) {
        note(
            &mut c,
            "risky",
            "Secret bypass may trivialize existing locked progression.",
            "Use only when bypass routes are intended.",
        );
    }
    c
}

/// The compatibility of every rule, in declaration order, with the
/// candidate's identity and state hash.
pub fn compatible_rules_report(candidate: &Candidate) -> (r: Result<RuleCompatibilityReport, String>)
    ensures
        r matches Ok(report) && {
            &&& report.kind@ == "rusty_procgen.rule_compatibility.v1"@
            &&& report.schema_version == 1
            &&& report.candidate_id == candidate.candidate_id
            &&& report.state_hash@ == hash_of(candidate_json(*candidate))
            &&& report.rules@.len() == all_rules().len()
            &&& forall|i: int|
                0 <= i < all_rules().len() ==> #[trigger] report.rules@[i]@ == compatibility(
                    node_views(candidate.graph.nodes@),
                    edge_views(candidate.graph.edges@),
                    all_rules()[i],
                )
        },
{
    let rules = all_graph_rules();
    let mut out: Vec<RuleCompatibility> = Vec::new();
    let mut i: usize = 0;
    while i < rules.len()
        invariant
            rules@ == all_rules(),
            i <= rules@.len(),
            out@.len() == i,
            forall|j: int|
                0 <= j < i ==> #[trigger] out@[j]@ == compatibility(
                    node_views(candidate.graph.nodes@),
                    edge_views(candidate.graph.edges@),
                    all_rules()[j],
                ),
        decreases rules@.len() - i,
    {
        out.push(rule_compatibility(candidate, rules[i]));
        i = i + 1;
    }
    Ok(
        RuleCompatibilityReport {
            kind: owned("rusty_procgen.rule_compatibility.v1"),
            schema_version: 1,
            candidate_id: candidate.candidate_id.clone(),
            state_hash: hash_candidate(candidate),
            rules: out,
        },
    )
}


proof fn lemma_status_literals()
    ensures
        "duplicate"@ != "applicable"@,
        "blocked"@ != "applicable"@,
        "risky"@ != "applicable"@,
        "missing_required_pattern"@ != "rule_already_applied"@,
{
    reveal_strlit("duplicate");
    reveal_strlit("applicable");
    reveal_strlit("blocked");
    reveal_strlit("risky");
    reveal_strlit("missing_required_pattern");
    reveal_strlit("rule_already_applied");
    assert("duplicate"@[0] != "applicable"@[0]);
    assert("blocked"@[0] != "applicable"@[0]);
    assert("risky"@[0] != "applicable"@[0]);
    assert("missing_required_pattern"@[0] != "rule_already_applied"@[0]);
}

/// A graph holding a rule's fixed marker reports that rule as a duplicate:
/// its status is not applicable and its first reason names the marker.
proof fn lemma_marker_reports_duplicate(nodes: Seq<NodeView>, edges: Seq<EdgeView>, rule: GraphRule)
    requires
        marker_present(nodes, edges, rule),
    ensures
        compatibility(nodes, edges, rule).status != "applicable"@,
        compatibility(nodes, edges, rule).reasons.len() > 0,
        compatibility(nodes, edges, rule).reasons[0] == "Fixed marker for this rule already exists."@,
{
    lemma_status_literals();
}

/// A rule that the rewrite refuses as already applied is never reported
/// applicable: its report is a duplicate whose first reason is the marker
/// already in the graph.
pub proof fn lemma_already_applied_is_never_applicable(
    nodes: Seq<NodeView>,
    edges: Seq<EdgeView>,
    rule: GraphRule,
    seed: u64,
)
    ensures
        ({
            let o = rule_outcome(nodes, edges, rule, seed);
            o.diagnostics.len() > 0 && o.diagnostics[0].code == "rule_already_applied"@ ==> {
                &&& compatibility(nodes, edges, rule).status != "applicable"@
                &&& compatibility(nodes, edges, rule).reasons.len() > 0
                &&& compatibility(nodes, edges, rule).reasons[0]
                    == "Fixed marker for this rule already exists."@
            }
        }),
{
    lemma_status_literals();
    let o = rule_outcome(nodes, edges, rule, seed);
    if o.diagnostics.len() > 0 && o.diagnostics[0].code == "rule_already_applied"@ {
        assert(marker_present(nodes, edges, rule));
        lemma_marker_reports_duplicate(nodes, edges, rule);
    }
}

/// Applying a rule with a fixed marker (every rule but the repeatable
/// treasure detour and the secret bypass, whose marker edge the rule itself
/// never adds) puts the marker in the graph: the report on the new graph is
/// a duplicate, never applicable, and applying the rule again is refused as
/// already applied (the one-way shortcut refuses only its direct shortcut
/// edge, which its own rewrite does not add).
pub proof fn lemma_applied_rule_becomes_duplicate(
    nodes: Seq<NodeView>,
    edges: Seq<EdgeView>,
    rule: GraphRule,
    seed: u64,
    again: u64,
)
    requires
        rule != GraphRule::OptionalTreasureDetour,
        rule != GraphRule::SecretBypass,
    ensures
        ({
            let o = rule_outcome(nodes, edges, rule, seed);
            o.diagnostics.len() == 0 ==> {
                &&& rule != GraphRule::OneWayShortcut ==> {
                    &&& rule_outcome(o.nodes, o.edges, rule, again).diagnostics.len() > 0
                    &&& rule_outcome(o.nodes, o.edges, rule, again).diagnostics[0].code
                        == "rule_already_applied"@
                }
                &&& compatibility(o.nodes, o.edges, rule).status != "applicable"@
                &&& compatibility(o.nodes, o.edges, rule).reasons[0]
                    == "Fixed marker for this rule already exists."@
            }
        }),
{
    lemma_status_literals();
    let o = rule_outcome(nodes, edges, rule, seed);
    if o.diagnostics.len() == 0 {
        let n = nodes.len() as int;
        match rule {
            GraphRule::LockKeyLoop => {
                assert(o.nodes == nodes + lock_key_loop_nodes());
                assert(o.nodes[n] == lock_key_loop_nodes()[0]);
                assert(o.nodes[n].id == "gate.locked_1"@);
                assert(has_node_spec(o.nodes, "gate.locked_1"@));
            },
            GraphRule::OneWayShortcut => {
                let m = edges.len() as int;
                assert(o.edges[m] == one_way_shortcut_edges()[0]);
                assert(o.edges[m].id == "edge.goal.shortcut_1"@);
                assert(has_edge_spec(o.edges, "edge.goal.shortcut_1"@));
            },
            GraphRule::HubSpokeCluster => {
                assert(o.nodes[n] == hub_spoke_cluster_nodes()[0]);
                assert(o.nodes[n].id == "hub.central_1"@);
                assert(has_node_spec(o.nodes, "hub.central_1"@));
            },
            GraphRule::NestedLockKeyChain => {
                assert(o.nodes[n] == nested_lock_key_chain_nodes()[0]);
                assert(o.nodes[n].id == "gate.locked_2"@);
                assert(has_node_spec(o.nodes, "gate.locked_2"@));
            },
            GraphRule::HazardResourceTradeoff => {
                assert(o.nodes[n] == hazard_resource_tradeoff_nodes()[0]);
                assert(o.nodes[n].id == "hazard.sluice_1"@);
                assert(has_node_spec(o.nodes, "hazard.sluice_1"@));
            },
            GraphRule::BossPreparationLoop => {
                assert(o.nodes[n] == boss_preparation_loop_nodes()[0]);
                assert(o.nodes[n].id == "gate.boss_1"@);
                assert(has_node_spec(o.nodes, "gate.boss_1"@));
            },
            GraphRule::GatedTreasureBranch => {
                assert(o.nodes[n + 1] == gated_treasure_branch_nodes()[1]);
                assert(o.nodes[n + 1].id == "treasure.gated_1"@);
                assert(has_node_spec(o.nodes, "treasure.gated_1"@));
            },
            GraphRule::BranchMergeShortcut => {
                assert(o.nodes == nodes + branch_merge_shortcut_nodes());
                assert(o.nodes[n] == branch_merge_shortcut_nodes()[0]);
                assert(o.nodes[n].id == "junction.merge_1"@);
                assert(has_node_spec(o.nodes, "junction.merge_1"@));
            },
            _ => {},
        }
        assert(marker_present(o.nodes, o.edges, rule));
        lemma_marker_reports_duplicate(o.nodes, o.edges, rule);
    }
}

} // verus!
