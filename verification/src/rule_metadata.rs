//! The published metadata of the graph rules: what each one is for, what it
//! needs, what marks it as applied, and which tags it emits.

use vstd::prelude::*;
use vstd::string::*;

use crate::graph::{lit_texts, owned_all};
use crate::graph_reports::{all_graph_rules, all_rules};
use crate::model::{graph_rule_text, owned, texts, GraphRule};

verus! {

#[derive(Clone, Debug)]
pub struct RuleMetadata {
    pub id: String,
    pub intent: String,
    pub required_patterns: Vec<String>,
    pub duplicate_markers: Vec<String>,
    pub emitted_node_tags: Vec<String>,
    pub emitted_edge_tags: Vec<String>,
    pub compatibility_hints: Vec<String>,
    pub repair_hints: Vec<String>,
}

#[derive(Clone, Debug)]
pub struct RuleMetadataReport {
    pub kind: String,
    pub schema_version: u32,
    pub rules: Vec<RuleMetadata>,
}

/// A rule's metadata as text.
#[verifier::ext_equal]
pub struct MetadataView {
    pub id: Seq<char>,
    pub intent: Seq<char>,
    pub required_patterns: Seq<Seq<char>>,
    pub duplicate_markers: Seq<Seq<char>>,
    pub emitted_node_tags: Seq<Seq<char>>,
    pub emitted_edge_tags: Seq<Seq<char>>,
    pub compatibility_hints: Seq<Seq<char>>,
    pub repair_hints: Seq<Seq<char>>,
}

impl View for RuleMetadata {
    type V = MetadataView;

    open spec fn view(&self) -> MetadataView {
        MetadataView {
            id: self.id@,
            intent: self.intent@,
            required_patterns: texts(self.required_patterns@),
            duplicate_markers: texts(self.duplicate_markers@),
            emitted_node_tags: texts(self.emitted_node_tags@),
            emitted_edge_tags: texts(self.emitted_edge_tags@),
            compatibility_hints: texts(self.compatibility_hints@),
            repair_hints: texts(self.repair_hints@),
        }
    }
}

/// The published metadata of a rule.
pub open spec fn rule_metadata_spec(rule: GraphRule) -> MetadataView {
    match rule {
        GraphRule::LockKeyLoop => MetadataView {
            id: graph_rule_text(rule)@,
            intent: "Replace direct start-goal route with a locked gate and reachable key branch."@,
            required_patterns: lit_texts(Seq::<&str>::empty()),
            duplicate_markers: lit_texts(seq!["gate.locked_1"]),
            emitted_node_tags: lit_texts(seq!["critical", "key", "lock"]),
            emitted_edge_tags: lit_texts(seq!["approach", "branch", "return"]),
            compatibility_hints: lit_texts(seq!["Useful first structural rule for nested locks and boss approaches."]),
            repair_hints: lit_texts(seq!["Apply before nested_lock_key_chain."]),
        },
        GraphRule::OptionalTreasureDetour => MetadataView {
            id: graph_rule_text(rule)@,
            intent: "Add a repeatable optional reward detour that rejoins the goal route."@,
            required_patterns: lit_texts(Seq::<&str>::empty()),
            duplicate_markers: lit_texts(Seq::<&str>::empty()),
            emitted_node_tags: lit_texts(seq!["optional", "reward"]),
            emitted_edge_tags: lit_texts(seq!["detour", "rejoin"]),
            compatibility_hints: lit_texts(seq!["Seed-derived ids allow multiple treasure detours when seeds differ."]),
            repair_hints: lit_texts(seq!["Use when score needs branch value without changing critical path."]),
        },
        GraphRule::OneWayShortcut => MetadataView {
            id: graph_rule_text(rule)@,
            intent: "Add a one-way return route from goal back to start."@,
            required_patterns: lit_texts(Seq::<&str>::empty()),
            duplicate_markers: lit_texts(seq!["edge.goal.start.shortcut"]),
            emitted_node_tags: lit_texts(seq!["shortcut"]),
            emitted_edge_tags: lit_texts(seq!["return", "shortcut"]),
            compatibility_hints: lit_texts(seq!["Best after the critical route is already meaningful."]),
            repair_hints: lit_texts(seq!["Start from a pre-shortcut candidate if duplicate rejected."]),
        },
        GraphRule::SecretBypass => MetadataView {
            id: graph_rule_text(rule)@,
            intent: "Add a hidden optional bypass from start to goal."@,
            required_patterns: lit_texts(Seq::<&str>::empty()),
            duplicate_markers: lit_texts(seq!["edge.start.goal.secret"]),
            emitted_node_tags: lit_texts(seq!["bypass", "secret"]),
            emitted_edge_tags: lit_texts(seq!["bypass", "hidden"]),
            compatibility_hints: lit_texts(seq!["Can reduce perceived lock importance; use when bypasses are desired."]),
            repair_hints: lit_texts(seq!["Avoid if selection wants strict lock/key progression."]),
        },
        GraphRule::HubSpokeCluster => MetadataView {
            id: graph_rule_text(rule)@,
            intent: "Create a wayfinding hub with optional spokes, returns, and rejoin routes."@,
            required_patterns: lit_texts(Seq::<&str>::empty()),
            duplicate_markers: lit_texts(seq!["hub.central_1"]),
            emitted_node_tags: lit_texts(seq!["hazard", "hub", "merge", "optional", "preparation", "reward", "wayfinding_anchor"]),
            emitted_edge_tags: lit_texts(seq!["approach", "branch", "pressure", "rejoin", "return"]),
            compatibility_hints: lit_texts(seq!["Good early rule when an agent needs local choice and orientation."]),
            repair_hints: lit_texts(seq!["If hub diagnostics fire, add return/rejoin routes or a wayfinding anchor."]),
        },
        GraphRule::NestedLockKeyChain => MetadataView {
            id: graph_rule_text(rule)@,
            intent: "Add a second gate/key layer behind the first lock."@,
            required_patterns: lit_texts(seq!["lock_key_loop"]),
            duplicate_markers: lit_texts(seq!["gate.locked_2"]),
            emitted_node_tags: lit_texts(seq!["branch", "critical", "key", "lock", "preparation"]),
            emitted_edge_tags: lit_texts(seq!["approach", "branch", "locked", "return"]),
            compatibility_hints: lit_texts(seq!["Requires gate.locked_1; apply lock_key_loop first."]),
            repair_hints: lit_texts(seq!["Move key branches before locked edges if validation fails."]),
        },
        GraphRule::HazardResourceTradeoff => MetadataView {
            id: graph_rule_text(rule)@,
            intent: "Add a pressure branch paired with a preparation resource."@,
            required_patterns: lit_texts(Seq::<&str>::empty()),
            duplicate_markers: lit_texts(seq!["hazard.sluice_1"]),
            emitted_node_tags: lit_texts(seq!["hazard", "optional", "preparation"]),
            emitted_edge_tags: lit_texts(seq!["branch", "preparation", "pressure", "rejoin"]),
            compatibility_hints: lit_texts(seq!["Pairs well with hubs and boss preparation loops."]),
            repair_hints: lit_texts(seq!["Add rejoin edges after hazards if diagnostics report terminal pressure."]),
        },
        GraphRule::BossPreparationLoop => MetadataView {
            id: graph_rule_text(rule)@,
            intent: "Insert a boss gate with a preparation branch returning to the approach."@,
            required_patterns: lit_texts(Seq::<&str>::empty()),
            duplicate_markers: lit_texts(seq!["gate.boss_1"]),
            emitted_node_tags: lit_texts(seq!["boss", "critical", "optional", "preparation"]),
            emitted_edge_tags: lit_texts(seq!["approach", "boss", "branch", "locked", "preparation", "return"]),
            compatibility_hints: lit_texts(seq!["Uses deepest known lock gate as approach if one exists."]),
            repair_hints: lit_texts(seq!["Keep preparation reachable before the boss locked edge."]),
        },
        GraphRule::GatedTreasureBranch => MetadataView {
            id: graph_rule_text(rule)@,
            intent: "Add an optional key-gated treasure branch that rejoins progression."@,
            required_patterns: lit_texts(Seq::<&str>::empty()),
            duplicate_markers: lit_texts(seq!["treasure.gated_1"]),
            emitted_node_tags: lit_texts(seq!["key", "optional", "reward"]),
            emitted_edge_tags: lit_texts(seq!["branch", "locked", "rejoin"]),
            compatibility_hints: lit_texts(seq!["Useful when a candidate needs reward tension without blocking the goal."]),
            repair_hints: lit_texts(seq!["Ensure the treasure key remains reachable before the gated reward."]),
        },
        GraphRule::BranchMergeShortcut => MetadataView {
            id: graph_rule_text(rule)@,
            intent: "Add a merge node and shortcut from an existing branch or hub back to goal."@,
            required_patterns: lit_texts(seq!["hub_spoke_cluster or gated_treasure_branch or lock_key_loop"]),
            duplicate_markers: lit_texts(seq!["junction.merge_1"]),
            emitted_node_tags: lit_texts(seq!["merge", "wayfinding_anchor"]),
            emitted_edge_tags: lit_texts(seq!["branch", "rejoin", "shortcut"]),
            compatibility_hints: lit_texts(seq!["Requires an upstream branch source; hub_spoke_cluster is the clearest pairing."]),
            repair_hints: lit_texts(seq!["Apply a branch or hub rule first if missing_required_pattern is reported."]),
        },    }
}

fn make_metadata(
    rule: GraphRule,
    intent: &str,
    required_patterns: &[&str],
    duplicate_markers: &[&str],
    emitted_node_tags: &[&str],
    emitted_edge_tags: &[&str],
    compatibility_hints: &[&str],
    repair_hints: &[&str],
) -> (m: RuleMetadata)
    ensures
        m@ == (MetadataView {
            id: graph_rule_text(rule)@,
            intent: intent@,
            required_patterns: lit_texts(required_patterns@),
            duplicate_markers: lit_texts(duplicate_markers@),
            emitted_node_tags: lit_texts(emitted_node_tags@),
            emitted_edge_tags: lit_texts(emitted_edge_tags@),
            compatibility_hints: lit_texts(compatibility_hints@),
            repair_hints: lit_texts(repair_hints@),
        }),
{
    RuleMetadata {
        id: owned(rule.as_str()),
        intent: owned(intent),
        required_patterns: owned_all(required_patterns),
        duplicate_markers: owned_all(duplicate_markers),
        emitted_node_tags: owned_all(emitted_node_tags),
        emitted_edge_tags: owned_all(emitted_edge_tags),
        compatibility_hints: owned_all(compatibility_hints),
        repair_hints: owned_all(repair_hints),
    }
}

/// The published metadata of a rule.
pub fn rule_metadata(rule: GraphRule) -> (m: RuleMetadata)
    ensures
        m@ == rule_metadata_spec(rule),
{
    let m = match rule {
        GraphRule::LockKeyLoop => make_metadata(
            rule,
            "Replace direct start-goal route with a locked gate and reachable key branch.",
            &[],
            &["gate.locked_1"],
            &["critical", "key", "lock"],
            &["approach", "branch", "return"],
            &["Useful first structural rule for nested locks and boss approaches."],
            &["Apply before nested_lock_key_chain."],
        ),
        GraphRule::OptionalTreasureDetour => make_metadata(
            rule,
            "Add a repeatable optional reward detour that rejoins the goal route.",
            &[],
            &[],
            &["optional", "reward"],
            &["detour", "rejoin"],
            &["Seed-derived ids allow multiple treasure detours when seeds differ."],
            &["Use when score needs branch value without changing critical path."],
        ),
        GraphRule::OneWayShortcut => make_metadata(
            rule,
            "Add a one-way return route from goal back to start.",
            &[],
            &["edge.goal.start.shortcut"],
            &["shortcut"],
            &["return", "shortcut"],
            &["Best after the critical route is already meaningful."],
            &["Start from a pre-shortcut candidate if duplicate rejected."],
        ),
        GraphRule::SecretBypass => make_metadata(
            rule,
            "Add a hidden optional bypass from start to goal.",
            &[],
            &["edge.start.goal.secret"],
            &["bypass", "secret"],
            &["bypass", "hidden"],
            &["Can reduce perceived lock importance; use when bypasses are desired."],
            &["Avoid if selection wants strict lock/key progression."],
        ),
        GraphRule::HubSpokeCluster => make_metadata(
            rule,
            "Create a wayfinding hub with optional spokes, returns, and rejoin routes.",
            &[],
            &["hub.central_1"],
            &["hazard", "hub", "merge", "optional", "preparation", "reward", "wayfinding_anchor"],
            &["approach", "branch", "pressure", "rejoin", "return"],
            &["Good early rule when an agent needs local choice and orientation."],
            &["If hub diagnostics fire, add return/rejoin routes or a wayfinding anchor."],
        ),
        GraphRule::NestedLockKeyChain => make_metadata(
            rule,
            "Add a second gate/key layer behind the first lock.",
            &["lock_key_loop"],
            &["gate.locked_2"],
            &["branch", "critical", "key", "lock", "preparation"],
            &["approach", "branch", "locked", "return"],
            &["Requires gate.locked_1; apply lock_key_loop first."],
            &["Move key branches before locked edges if validation fails."],
        ),
        GraphRule::HazardResourceTradeoff => make_metadata(
            rule,
            "Add a pressure branch paired with a preparation resource.",
            &[],
            &["hazard.sluice_1"],
            &["hazard", "optional", "preparation"],
            &["branch", "preparation", "pressure", "rejoin"],
            &["Pairs well with hubs and boss preparation loops."],
            &["Add rejoin edges after hazards if diagnostics report terminal pressure."],
        ),
        GraphRule::BossPreparationLoop => make_metadata(
            rule,
            "Insert a boss gate with a preparation branch returning to the approach.",
            &[],
            &["gate.boss_1"],
            &["boss", "critical", "optional", "preparation"],
            &["approach", "boss", "branch", "locked", "preparation", "return"],
            &["Uses deepest known lock gate as approach if one exists."],
            &["Keep preparation reachable before the boss locked edge."],
        ),
        GraphRule::GatedTreasureBranch => make_metadata(
            rule,
            "Add an optional key-gated treasure branch that rejoins progression.",
            &[],
            &["treasure.gated_1"],
            &["key", "optional", "reward"],
            &["branch", "locked", "rejoin"],
            &["Useful when a candidate needs reward tension without blocking the goal."],
            &["Ensure the treasure key remains reachable before the gated reward."],
        ),
        GraphRule::BranchMergeShortcut => make_metadata(
            rule,
            "Add a merge node and shortcut from an existing branch or hub back to goal.",
            &["hub_spoke_cluster or gated_treasure_branch or lock_key_loop"],
            &["junction.merge_1"],
            &["merge", "wayfinding_anchor"],
            &["branch", "rejoin", "shortcut"],
            &["Requires an upstream branch source; hub_spoke_cluster is the clearest pairing."],
            &["Apply a branch or hub rule first if missing_required_pattern is reported."],
        ),    };
    assert(m@ =~~= rule_metadata_spec(rule));
    m
}

/// The metadata of every graph rule, in declaration order.
pub fn rule_metadata_report() -> (r: RuleMetadataReport)
    ensures
        r.kind@ == "rusty_procgen.rule_metadata.v1"@,
        r.schema_version == 1,
        r.rules@.len() == all_rules().len(),
        forall|i: int|
            0 <= i < all_rules().len() ==> #[trigger] r.rules@[i]@ == rule_metadata_spec(
                all_rules()[i],
            ),
{
    let all = all_graph_rules();
    let mut rules: Vec<RuleMetadata> = Vec::new();
    let mut i: usize = 0;
    while i < all.len()
        invariant
            all@ == all_rules(),
            i <= all@.len(),
            rules@.len() == i,
            forall|j: int| 0 <= j < i ==> #[trigger] rules@[j]@ == rule_metadata_spec(all_rules()[j]),
        decreases all@.len() - i,
    {
        rules.push(rule_metadata(all[i]));
        i = i + 1;
    }
    RuleMetadataReport { kind: owned("rusty_procgen.rule_metadata.v1"), schema_version: 1, rules }
}

} // verus!
