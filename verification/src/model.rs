//! The intent-graph data model: candidates, their nodes and edges, the
//! diagnostics that checks emit, and the rule and command vocabularies.

use vstd::prelude::*;
use vstd::string::*;

verus! {

/// The text of each string of a sequence.
pub open spec fn texts(v: Seq<String>) -> Seq<Seq<char>> {
    v.map_values(|s: String| s@)
}

/// The text of an optional string.
pub open spec fn opt_text(o: Option<String>) -> Option<Seq<char>> {
    match o {
        Some(s) => Some(s@),
        None => None,
    }
}

/// A fresh string holding `s`.
pub fn owned(s: &str) -> (r: String)
    ensures
        r@ == s@,
{
    String::from_str(s)
}

/// A fresh optional string holding `s`.
pub fn owned_opt(s: Option<&str>) -> (r: Option<String>)
    ensures
        opt_text(r) == (match s {
            Some(t) => Some(t@),
            None => None::<Seq<char>>,
        }),
{
    match s {
        Some(t) => Some(String::from_str(t)),
        None => None,
    }
}

#[derive(Clone, Copy, Debug, PartialEq, Eq, Structural, PartialOrd, Ord, Hash)]
pub enum NodeKind {
    Start,
    Goal,
    Gate,
    Key,
    Treasure,
    Shortcut,
    Secret,
    Hazard,
    Resource,
    Junction,
}

pub open spec fn node_kind_text(k: NodeKind) -> &'static str {
    match k {
        NodeKind::Start => "start",
        NodeKind::Goal => "goal",
        NodeKind::Gate => "gate",
        NodeKind::Key => "key",
        NodeKind::Treasure => "treasure",
        NodeKind::Shortcut => "shortcut",
        NodeKind::Secret => "secret",
        NodeKind::Hazard => "hazard",
        NodeKind::Resource => "resource",
        NodeKind::Junction => "junction",
    }
}

impl NodeKind {
    pub fn as_str(self) -> (r: &'static str)
        ensures
            r == node_kind_text(self),
    {
        match self {
            NodeKind::Start => "start",
            NodeKind::Goal => "goal",
            NodeKind::Gate => "gate",
            NodeKind::Key => "key",
            NodeKind::Treasure => "treasure",
            NodeKind::Shortcut => "shortcut",
            NodeKind::Secret => "secret",
            NodeKind::Hazard => "hazard",
            NodeKind::Resource => "resource",
            NodeKind::Junction => "junction",
        }
    }
}

#[derive(Clone, Copy, Debug, PartialEq, Eq, Structural, Hash)]
pub enum EdgeKind {
    CriticalPath,
    KeyBranch,
    OptionalBranch,
    Shortcut,
    SecretBypass,
}

pub open spec fn edge_kind_text(k: EdgeKind) -> &'static str {
    match k {
        EdgeKind::CriticalPath => "critical_path",
        EdgeKind::KeyBranch => "key_branch",
        EdgeKind::OptionalBranch => "optional_branch",
        EdgeKind::Shortcut => "shortcut",
        EdgeKind::SecretBypass => "secret_bypass",
    }
}

impl EdgeKind {
    pub fn as_str(self) -> (r: &'static str)
        ensures
            r == edge_kind_text(self),
    {
        match self {
            EdgeKind::CriticalPath => "critical_path",
            EdgeKind::KeyBranch => "key_branch",
            EdgeKind::OptionalBranch => "optional_branch",
            EdgeKind::Shortcut => "shortcut",
            EdgeKind::SecretBypass => "secret_bypass",
        }
    }
}

#[derive(Clone, Copy, Debug, PartialEq, Eq, Structural, Hash)]
pub enum TraversalKind {
    Open,
    Locked,
    OneWayReturn,
    Hidden,
}

pub open spec fn traversal_text(k: TraversalKind) -> &'static str {
    match k {
        TraversalKind::Open => "open",
        TraversalKind::Locked => "locked",
        TraversalKind::OneWayReturn => "one_way_return",
        TraversalKind::Hidden => "hidden",
    }
}

impl TraversalKind {
    pub fn as_str(self) -> (r: &'static str)
        ensures
            r == traversal_text(self),
    {
        match self {
            TraversalKind::Open => "open",
            TraversalKind::Locked => "locked",
            TraversalKind::OneWayReturn => "one_way_return",
            TraversalKind::Hidden => "hidden",
        }
    }
}

#[derive(Clone, Copy, Debug, PartialEq, Eq, Structural, Hash)]
pub enum Severity {
    Info,
    Warning,
    Fatal,
}

pub open spec fn severity_text(s: Severity) -> &'static str {
    match s {
        Severity::Info => "info",
        Severity::Warning => "warning",
        Severity::Fatal => "fatal",
    }
}

#[derive(Clone, Copy, Debug, PartialEq, Eq, Structural, Hash)]
pub enum SceneFacing {
    North,
    East,
    South,
    West,
}

pub open spec fn facing_text(f: SceneFacing) -> &'static str {
    match f {
        SceneFacing::North => "north",
        SceneFacing::East => "east",
        SceneFacing::South => "south",
        SceneFacing::West => "west",
    }
}

impl SceneFacing {
    pub fn as_str(self) -> (r: &'static str)
        ensures
            r == facing_text(self),
    {
        match self {
            SceneFacing::North => "north",
            SceneFacing::East => "east",
            SceneFacing::South => "south",
            SceneFacing::West => "west",
        }
    }
}

#[derive(Clone, Debug)]
pub struct SeedIntent {
    pub kind: String,
    pub id: String,
    pub title: String,
    pub target_dimension: String,
    pub desired_patterns: Vec<String>,
    pub notes: Vec<String>,
}

#[derive(Clone, Debug)]
pub struct ProvenanceStep {
    pub step: u32,
    pub command: String,
    pub seed: Option<u64>,
    pub summary: String,
}

#[derive(Clone, Debug)]
pub struct Node {
    pub id: String,
    pub kind: NodeKind,
    pub label: String,
    pub tags: Vec<String>,
    pub grants_item: Option<String>,
}

#[derive(Clone, Debug)]
pub struct Edge {
    pub id: String,
    pub from: String,
    pub to: String,
    pub kind: EdgeKind,
    pub traversal: TraversalKind,
    pub required_item: Option<String>,
    pub tags: Vec<String>,
}

#[derive(Clone, Debug)]
pub struct IntentGraph {
    pub nodes: Vec<Node>,
    pub edges: Vec<Edge>,
}

#[derive(Clone, Debug)]
pub struct Candidate {
    pub kind: String,
    pub schema_version: u32,
    pub candidate_id: String,
    pub seed: u64,
    pub dimension_model: String,
    pub source_intent: Option<String>,
    pub provenance: Vec<ProvenanceStep>,
    pub graph: IntentGraph,
}

/// A node as text and tags.
#[verifier::ext_equal]
pub struct NodeView {
    pub id: Seq<char>,
    pub kind: NodeKind,
    pub label: Seq<char>,
    pub tags: Seq<Seq<char>>,
    pub grants_item: Option<Seq<char>>,
}

/// An edge as text and tags.
#[verifier::ext_equal]
pub struct EdgeView {
    pub id: Seq<char>,
    pub from: Seq<char>,
    pub to: Seq<char>,
    pub kind: EdgeKind,
    pub traversal: TraversalKind,
    pub required_item: Option<Seq<char>>,
    pub tags: Seq<Seq<char>>,
}

/// A provenance step as text.
#[verifier::ext_equal]
pub struct ProvenanceView {
    pub step: u32,
    pub command: Seq<char>,
    pub seed: Option<u64>,
    pub summary: Seq<char>,
}

impl View for Node {
    type V = NodeView;

    open spec fn view(&self) -> NodeView {
        NodeView {
            id: self.id@,
            kind: self.kind,
            label: self.label@,
            tags: texts(self.tags@),
            grants_item: opt_text(self.grants_item),
        }
    }
}

impl View for Edge {
    type V = EdgeView;

    open spec fn view(&self) -> EdgeView {
        EdgeView {
            id: self.id@,
            from: self.from@,
            to: self.to@,
            kind: self.kind,
            traversal: self.traversal,
            required_item: opt_text(self.required_item),
            tags: texts(self.tags@),
        }
    }
}

impl View for ProvenanceStep {
    type V = ProvenanceView;

    open spec fn view(&self) -> ProvenanceView {
        ProvenanceView {
            step: self.step,
            command: self.command@,
            seed: self.seed,
            summary: self.summary@,
        }
    }
}

pub open spec fn node_views(v: Seq<Node>) -> Seq<NodeView> {
    v.map_values(|n: Node| n@)
}

pub open spec fn edge_views(v: Seq<Edge>) -> Seq<EdgeView> {
    v.map_values(|e: Edge| e@)
}

pub open spec fn provenance_views(v: Seq<ProvenanceStep>) -> Seq<ProvenanceView> {
    v.map_values(|p: ProvenanceStep| p@)
}

/// A node built from literal text.
pub open spec fn node_lit(
    id: &'static str,
    kind: NodeKind,
    label: &'static str,
    tags: Seq<&'static str>,
    grants_item: Option<&'static str>,
) -> NodeView {
    NodeView {
        id: id@,
        kind,
        label: label@,
        tags: tags.map_values(|t: &'static str| t@),
        grants_item: match grants_item {
            Some(g) => Some(g@),
            None => None,
        },
    }
}

} // verus!

verus! {

#[derive(Clone, Copy, Debug, PartialEq, Eq, Structural, Hash)]
pub enum GraphRule {
    LockKeyLoop,
    OptionalTreasureDetour,
    OneWayShortcut,
    SecretBypass,
    HubSpokeCluster,
    NestedLockKeyChain,
    HazardResourceTradeoff,
    BossPreparationLoop,
    GatedTreasureBranch,
    BranchMergeShortcut,
}

pub open spec fn graph_rule_text(r: GraphRule) -> &'static str {
    match r {
        GraphRule::LockKeyLoop => "lock_key_loop",
        GraphRule::OptionalTreasureDetour => "optional_treasure_detour",
        GraphRule::OneWayShortcut => "one_way_shortcut",
        GraphRule::SecretBypass => "secret_bypass",
        GraphRule::HubSpokeCluster => "hub_spoke_cluster",
        GraphRule::NestedLockKeyChain => "nested_lock_key_chain",
        GraphRule::HazardResourceTradeoff => "hazard_resource_tradeoff",
        GraphRule::BossPreparationLoop => "boss_preparation_loop",
        GraphRule::GatedTreasureBranch => "gated_treasure_branch",
        GraphRule::BranchMergeShortcut => "branch_merge_shortcut",
    }
}

impl GraphRule {
    pub fn as_str(self) -> (r: &'static str)
        ensures
            r == graph_rule_text(self),
    {
        match self {
            GraphRule::LockKeyLoop => "lock_key_loop",
            GraphRule::OptionalTreasureDetour => "optional_treasure_detour",
            GraphRule::OneWayShortcut => "one_way_shortcut",
            GraphRule::SecretBypass => "secret_bypass",
            GraphRule::HubSpokeCluster => "hub_spoke_cluster",
            GraphRule::NestedLockKeyChain => "nested_lock_key_chain",
            GraphRule::HazardResourceTradeoff => "hazard_resource_tradeoff",
            GraphRule::BossPreparationLoop => "boss_preparation_loop",
            GraphRule::GatedTreasureBranch => "gated_treasure_branch",
            GraphRule::BranchMergeShortcut => "branch_merge_shortcut",
        }
    }
}

#[derive(Clone, Copy, Debug, PartialEq, Eq, Structural, Hash)]
pub enum RepairAction {
    AddRejoinEdge,
    RemoveOrphanNode,
}

pub open spec fn repair_action_text(a: RepairAction) -> &'static str {
    match a {
        RepairAction::AddRejoinEdge => "add_rejoin_edge",
        RepairAction::RemoveOrphanNode => "remove_orphan_node",
    }
}

impl RepairAction {
    pub fn as_str(self) -> (r: &'static str)
        ensures
            r == repair_action_text(self),
    {
        match self {
            RepairAction::AddRejoinEdge => "add_rejoin_edge",
            RepairAction::RemoveOrphanNode => "remove_orphan_node",
        }
    }
}

#[derive(Clone, Copy, Debug, PartialEq, Eq, Structural, Hash)]
pub enum CorridorRealization {
    Catalog,
    Hybrid,
    Procedural,
}

pub open spec fn corridor_realization_text(c: CorridorRealization) -> &'static str {
    match c {
        CorridorRealization::Catalog => "catalog",
        CorridorRealization::Hybrid => "hybrid",
        CorridorRealization::Procedural => "procedural",
    }
}

impl CorridorRealization {
    pub fn as_str(self) -> (r: &'static str)
        ensures
            r == corridor_realization_text(self),
    {
        match self {
            CorridorRealization::Catalog => "catalog",
            CorridorRealization::Hybrid => "hybrid",
            CorridorRealization::Procedural => "procedural",
        }
    }

    /// Whether corridors are realized, wholly or in part, from catalog pieces.
    pub fn uses_catalog_pieces(self) -> (r: bool)
        ensures
            r == (self == CorridorRealization::Catalog || self == CorridorRealization::Hybrid),
    {
        match self {
            CorridorRealization::Catalog | CorridorRealization::Hybrid => true,
            CorridorRealization::Procedural => false,
        }
    }
}

impl Default for CorridorRealization {
    fn default() -> (r: Self)
        ensures
            r == CorridorRealization::Hybrid,
    {
        CorridorRealization::Hybrid
    }
}

#[derive(Clone, Copy, Debug, PartialEq, Eq, Structural, Hash)]
pub enum GridConnectivity {
    FourWay,
    EightWay,
}

/// Per-candidate limits that a batch profile may impose.
#[derive(Clone, Debug, Default)]
pub struct IntentBudget {
    pub max_locked_edges: Option<usize>,
    pub min_optional_branches: Option<usize>,
    pub require_hub: Option<bool>,
    pub require_boss: Option<bool>,
    pub max_dead_ends: Option<usize>,
}

} // verus!
