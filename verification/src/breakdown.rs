//! The intermediate breakdown of a candidate: a region per node, a
//! connector per edge and a constraint per preserved intent, each carrying
//! the geometry preparation that its role and intents call for.

use vstd::prelude::*;
use vstd::string::*;

use crate::candidate::{slugify_label, slugify_spec};
use crate::intermediate::{
    connector_views, constraint_views, region_views, ConnectorView, ConstraintView,
    IntermediateBreakdown, IntermediateConnector, IntermediateConstraint, IntermediateRegion,
    RegionView,
};
use crate::json::{candidate_json, hash_candidate, hash_of};
use crate::model::{
    edge_views, node_views, opt_text, owned, texts, Candidate, Edge, EdgeKind, EdgeView, Node,
    NodeKind, NodeView, TraversalKind,
};
use crate::spatial::{
    annotation_views, edge_has_tag, has_tag, node_has_tag, text_when, AnnotationView,
    SpatialIntentAnnotation, SpatialIntentReport,
};
use crate::text::str_eq;
use crate::text_set::{dedupe_strings, sorted_texts};

verus! {

/// The region identity of a node.
pub open spec fn region_id_spec(node_id: Seq<char>) -> Seq<char> {
    "region."@ + slugify_spec(node_id)
}

/// The region identity of a node.
pub fn region_id(node_id: &str) -> (r: String)
    ensures
        r@ == region_id_spec(node_id@),
{
    let mut r = owned("region.");
    let slug = slugify_label(node_id);
    r.append(slug.as_str());
    r
}

/// The intents of the annotations of `target`, in annotation order.
pub open spec fn target_intents(anns: Seq<AnnotationView>, target: Seq<char>) -> Seq<Seq<char>>
    decreases anns.len(),
{
    if anns.len() == 0 {
        Seq::empty()
    } else {
        target_intents(anns.drop_last(), target) + if anns.last().target_id == target {
            anns.last().intents
        } else {
            Seq::empty()
        }
    }
}

/// The distinct intents of `target`, in order.
pub open spec fn intent_set(anns: Seq<AnnotationView>, target: Seq<char>) -> Seq<Seq<char>> {
    sorted_texts(target_intents(anns, target).to_set())
}

fn collect_target_intents(anns: &Vec<SpatialIntentAnnotation>, target: &str) -> (r: Vec<String>)
    ensures
        texts(r@) == intent_set(annotation_views(anns@), target@),
{
    let ghost av = annotation_views(anns@);
    let mut raw: Vec<String> = Vec::new();
    assert(texts(raw@) =~= Seq::<Seq<char>>::empty());
    let mut i: usize = 0;
    while i < anns.len()
        invariant
            i <= anns@.len(),
            av == annotation_views(anns@),
            texts(raw@) == target_intents(av.take(i as int), target@),
        decreases anns@.len() - i,
    {
        let a = &anns[i];
        let ghost before = texts(raw@);
        if str_eq(a.target_id.as_str(), target) {
            let mut j: usize = 0;
            while j < a.intents.len()
                invariant
                    j <= a.intents@.len(),
                    raw@.len() == before.len() + j,
                    texts(raw@) == before + texts(a.intents@).take(j as int),
                decreases a.intents@.len() - j,
            {
                let ghost prev = raw@;
                let t = a.intents[j].clone();
                raw.push(t);
                proof {
                    assert forall|m: int| 0 <= m < raw@.len() implies #[trigger] texts(raw@)[m] == (
                    before + texts(a.intents@).take(j + 1))[m] by {
                        if m < prev.len() {
                            assert(raw@[m] == prev[m]);
                            assert(texts(prev)[m] == (before + texts(a.intents@).take(j as int))[m]);
                        }
                    }
                }
                j = j + 1;
                assert(texts(raw@) =~= before + texts(a.intents@).take(j as int));
            }
            assert(texts(a.intents@).take(a.intents@.len() as int) =~= texts(a.intents@));
        }
        proof {
            assert(av.take(i + 1).drop_last() =~= av.take(i as int));
            assert(av[i as int] == anns@[i as int]@);
        }
        i = i + 1;
        assert(texts(raw@) =~= target_intents(av.take(i as int), target@));
    }
    assert(av.take(av.len() as int) =~= av);
    dedupe_strings(raw)
}

fn has_intent(intents: &Vec<String>, intent: &str) -> (r: bool)
    ensures
        r == texts(intents@).contains(intent@),
{
    let mut i: usize = 0;
    while i < intents.len()
        invariant
            i <= intents@.len(),
            forall|j: int| 0 <= j < i ==> #[trigger] texts(intents@)[j] != intent@,
        decreases intents@.len() - i,
    {
        if str_eq(intents[i].as_str(), intent) {
            assert(texts(intents@)[i as int] == intent@);
            return true;
        }
        i = i + 1;
    }
    false
}

/// The role of a node's region.
pub open spec fn role_of(n: NodeView, ints: Seq<Seq<char>>) -> Seq<char> {
    if n.kind == NodeKind::Start {
        "start"@
    } else if n.kind == NodeKind::Goal {
        "goal"@
    } else if ints.contains("landmark_hub"@) {
        "landmark_hub"@
    } else if has_tag(n.tags, "boss") {
        "boss_gate"@
    } else if has_tag(n.tags, "hazard") || ints.contains("pressure_path"@) {
        "pressure"@
    } else if has_tag(n.tags, "reward") {
        "reward"@
    } else if n.kind == NodeKind::Gate {
        "gate"@
    } else {
        "standard"@
    }
}

fn region_role(node: &Node, intents: &Vec<String>) -> (r: String)
    ensures
        r@ == role_of(node@, texts(intents@)),
{
    if node.kind == NodeKind::Start {
        owned("start")
    } else if node.kind == NodeKind::Goal {
        owned("goal")
    } else if has_intent(intents, "landmark_hub") {
        owned("landmark_hub")
    } else if node_has_tag(node, "boss") {
        owned("boss_gate")
    } else if node_has_tag(node, "hazard") || has_intent(intents, "pressure_path") {
        owned("pressure")
    } else if node_has_tag(node, "reward") {
        owned("reward")
    } else if node.kind == NodeKind::Gate {
        owned("gate")
    } else {
        owned("standard")
    }
}

/// The geometric role of a region.
pub open spec fn geometry_role_of(n: NodeView, role: Seq<char>, ints: Seq<Seq<char>>) -> Seq<char> {
    if role == "start"@ {
        "entry"@
    } else if role == "goal"@ {
        "destination"@
    } else if role == "landmark_hub"@ {
        "landmark_junction"@
    } else if role == "boss_gate"@ {
        "boss_threshold"@
    } else if role == "pressure"@ {
        "hazard_route"@
    } else if role == "reward"@ {
        "reward_pocket"@
    } else if role == "gate"@ {
        "threshold"@
    } else if n.kind == NodeKind::Key {
        "key_pocket"@
    } else if n.kind == NodeKind::Shortcut {
        "shortcut_marker"@
    } else if n.kind == NodeKind::Secret {
        "secret_pocket"@
    } else if ints.contains("gated_reveal"@) {
        "threshold"@
    } else {
        "chamber"@
    }
}

fn geometry_role(node: &Node, role: &str, intents: &Vec<String>) -> (r: String)
    ensures
        r@ == geometry_role_of(node@, role@, texts(intents@)),
{
    if str_eq(role, "start") {
        owned("entry")
    } else if str_eq(role, "goal") {
        owned("destination")
    } else if str_eq(role, "landmark_hub") {
        owned("landmark_junction")
    } else if str_eq(role, "boss_gate") {
        owned("boss_threshold")
    } else if str_eq(role, "pressure") {
        owned("hazard_route")
    } else if str_eq(role, "reward") {
        owned("reward_pocket")
    } else if str_eq(role, "gate") {
        owned("threshold")
    } else if node.kind == NodeKind::Key {
        owned("key_pocket")
    } else if node.kind == NodeKind::Shortcut {
        owned("shortcut_marker")
    } else if node.kind == NodeKind::Secret {
        owned("secret_pocket")
    } else if has_intent(intents, "gated_reveal") {
        owned("threshold")
    } else {
        owned("chamber")
    }
}

/// The footprint class of a region.
pub open spec fn footprint_of(n: NodeView, role: Seq<char>, ints: Seq<Seq<char>>) -> Seq<char> {
    if role == "landmark_hub"@ {
        "hub"@
    } else if role == "boss_gate"@ {
        "threshold_large"@
    } else if role == "pressure"@ {
        "pressure_lane"@
    } else if role == "reward"@ {
        "pocket"@
    } else if role == "gate"@ {
        "threshold"@
    } else if role == "start"@ || role == "goal"@ {
        "marker_room"@
    } else if n.kind == NodeKind::Key || n.kind == NodeKind::Resource {
        "small_pocket"@
    } else if n.kind == NodeKind::Shortcut || n.kind == NodeKind::Secret {
        "small_marker"@
    } else if ints.contains("landmark_hub"@) {
        "hub"@
    } else {
        "standard_room"@
    }
}

fn footprint_class(node: &Node, role: &str, intents: &Vec<String>) -> (r: String)
    ensures
        r@ == footprint_of(node@, role@, texts(intents@)),
{
    if str_eq(role, "landmark_hub") {
        owned("hub")
    } else if str_eq(role, "boss_gate") {
        owned("threshold_large")
    } else if str_eq(role, "pressure") {
        owned("pressure_lane")
    } else if str_eq(role, "reward") {
        owned("pocket")
    } else if str_eq(role, "gate") {
        owned("threshold")
    } else if str_eq(role, "start") || str_eq(role, "goal") {
        owned("marker_room")
    } else if node.kind == NodeKind::Key || node.kind == NodeKind::Resource {
        owned("small_pocket")
    } else if node.kind == NodeKind::Shortcut || node.kind == NodeKind::Secret {
        owned("small_marker")
    } else if has_intent(intents, "landmark_hub") {
        owned("hub")
    } else {
        owned("standard_room")
    }
}

/// The scale band of a region.
pub open spec fn scale_of(n: NodeView, role: Seq<char>, ints: Seq<Seq<char>>) -> Seq<char> {
    if role == "landmark_hub"@ || role == "boss_gate"@ {
        "large"@
    } else if role == "pressure"@ || role == "start"@ || role == "goal"@ || role == "gate"@ {
        "medium"@
    } else if role == "reward"@ {
        "small"@
    } else if n.kind == NodeKind::Key || n.kind == NodeKind::Resource || n.kind
        == NodeKind::Shortcut || n.kind == NodeKind::Secret {
        "small"@
    } else if ints.contains("landmark_hub"@) {
        "large"@
    } else {
        "medium"@
    }
}

fn scale_band(node: &Node, role: &str, intents: &Vec<String>) -> (r: String)
    ensures
        r@ == scale_of(node@, role@, texts(intents@)),
{
    if str_eq(role, "landmark_hub") || str_eq(role, "boss_gate") {
        owned("large")
    } else if str_eq(role, "pressure") || str_eq(role, "start") || str_eq(role, "goal") || str_eq(
        role,
        "gate",
    ) {
        owned("medium")
    } else if str_eq(role, "reward") {
        owned("small")
    } else if node.kind == NodeKind::Key || node.kind == NodeKind::Resource || node.kind
        == NodeKind::Shortcut || node.kind == NodeKind::Secret {
        owned("small")
    } else if has_intent(intents, "landmark_hub") {
        owned("large")
    } else {
        owned("medium")
    }
}

/// Roles whose region is anchored at its node.
pub open spec fn anchored_role(role: Seq<char>) -> bool {
    role == "start"@ || role == "goal"@ || role == "landmark_hub"@ || role == "boss_gate"@
}

fn is_anchored_role(role: &str) -> (r: bool)
    ensures
        r == anchored_role(role@),
{
    str_eq(role, "start") || str_eq(role, "goal") || str_eq(role, "landmark_hub") || str_eq(
        role,
        "boss_gate",
    )
}

/// How a region's anchor was found.
pub open spec fn anchor_quality_of(role: Seq<char>, anchor: Option<Seq<char>>) -> Seq<char> {
    if anchor is None {
        "derived"@
    } else if anchored_role(role) {
        "explicit"@
    } else {
        "derived_anchor"@
    }
}

fn anchor_quality(role: &str, anchor_node: &Option<String>) -> (r: String)
    ensures
        r@ == anchor_quality_of(role@, opt_text(*anchor_node)),
{
    if anchor_node.is_none() {
        owned("derived")
    } else if is_anchored_role(role) {
        owned("explicit")
    } else {
        owned("derived_anchor")
    }
}

/// The number of edges whose endpoint (`to` when `incoming`) is `id`.
pub open spec fn degree(edges: Seq<EdgeView>, id: Seq<char>, incoming: bool) -> nat
    decreases edges.len(),
{
    if edges.len() == 0 {
        0
    } else {
        degree(edges.drop_last(), id, incoming) + if (if incoming {
            edges.last().to
        } else {
            edges.last().from
        }) == id {
            1nat
        } else {
            0nat
        }
    }
}

fn count_degree(candidate: &Candidate, id: &str, incoming: bool) -> (r: usize)
    ensures
        r == degree(edge_views(candidate.graph.edges@), id@, incoming),
{
    let ghost ev = edge_views(candidate.graph.edges@);
    let edges = &candidate.graph.edges;
    let mut n: usize = 0;
    let mut i: usize = 0;
    while i < edges.len()
        invariant
            i <= edges@.len(),
            edges@ == candidate.graph.edges@,
            ev == edge_views(edges@),
            n == degree(ev.take(i as int), id@, incoming),
            n <= i,
        decreases edges@.len() - i,
    {
        let end = if incoming {
            edges[i].to.as_str()
        } else {
            edges[i].from.as_str()
        };
        proof {
            assert(ev.take(i + 1).drop_last() =~= ev.take(i as int));
            assert(ev[i as int] == edges@[i as int]@);
        }
        if str_eq(end, id) {
            n = n + 1;
        }
        i = i + 1;
    }
    assert(ev.take(ev.len() as int) =~= ev);
    n
}

/// The expectation that a region's role alone calls for.
pub open spec fn role_expectation(role: Seq<char>) -> Seq<Seq<char>> {
    if role == "start"@ {
        seq!["entry_spawn"@]
    } else if role == "goal"@ {
        seq!["destination_arrival"@]
    } else if role == "landmark_hub"@ {
        seq!["multi_spoke_orientation"@]
    } else if role == "boss_gate"@ {
        seq!["approach_then_reveal"@]
    } else if role == "pressure"@ {
        seq!["readable_hazard_approach"@]
    } else if role == "reward"@ {
        seq!["optional_reward_access"@]
    } else if role == "gate"@ {
        seq!["locked_threshold_preview"@]
    } else {
        Seq::empty()
    }
}

fn push_role_expectation(e: &mut Vec<String>, role: &str)
    ensures
        texts(final(e)@) == texts(old(e)@) + role_expectation(role@),
{
    if str_eq(role, "start") {
        e.push(owned("entry_spawn"));
    } else if str_eq(role, "goal") {
        e.push(owned("destination_arrival"));
    } else if str_eq(role, "landmark_hub") {
        e.push(owned("multi_spoke_orientation"));
    } else if str_eq(role, "boss_gate") {
        e.push(owned("approach_then_reveal"));
    } else if str_eq(role, "pressure") {
        e.push(owned("readable_hazard_approach"));
    } else if str_eq(role, "reward") {
        e.push(owned("optional_reward_access"));
    } else if str_eq(role, "gate") {
        e.push(owned("locked_threshold_preview"));
    }
    assert(texts(e@) =~= texts(old(e)@) + role_expectation(role@));
}

/// The entrance expectations of a region, before removing repeats.
pub open spec fn expectation_list(
    n: NodeView,
    role: Seq<char>,
    ints: Seq<Seq<char>>,
    incoming: nat,
    outgoing: nat,
) -> Seq<Seq<char>> {
    let by_role = role_expectation(role);
    let l = by_role + text_when(n.kind == NodeKind::Key || n.kind == NodeKind::Resource, "pickup_pocket")
        + text_when(ints.contains("gated_reveal"@), "reveal_line") + text_when(
        incoming > 1,
        "merge_readability",
    ) + text_when(outgoing > 1, "choice_readability");
    if l.len() == 0 {
        seq!["standard_passage"@]
    } else {
        l
    }
}

fn push_text_when(v: &mut Vec<String>, c: bool, t: &str)
    ensures
        texts(final(v)@) == texts(old(v)@) + text_when(c, t),
{
    if c {
        v.push(owned(t));
    }
    assert(texts(v@) =~= texts(old(v)@) + text_when(c, t));
}

fn entrance_expectations(
    node: &Node,
    role: &str,
    intents: &Vec<String>,
    incoming_count: usize,
    outgoing_count: usize,
) -> (r: Vec<String>)
    ensures
        texts(r@) == sorted_texts(
            expectation_list(
                node@,
                role@,
                texts(intents@),
                incoming_count as nat,
                outgoing_count as nat,
            ).to_set(),
        ),
{
    let mut e: Vec<String> = Vec::new();
    assert(texts(e@) =~= Seq::<Seq<char>>::empty());
    push_role_expectation(&mut e, role);
    let ghost by_role = texts(e@);
    push_text_when(&mut e, node.kind == NodeKind::Key || node.kind == NodeKind::Resource, "pickup_pocket");
    push_text_when(&mut e, has_intent(intents, "gated_reveal"), "reveal_line");
    push_text_when(&mut e, incoming_count > 1, "merge_readability");
    push_text_when(&mut e, outgoing_count > 1, "choice_readability");
    assert(texts(e@) =~= role_expectation(role@) + text_when(
        node.kind == NodeKind::Key || node.kind == NodeKind::Resource,
        "pickup_pocket",
    ) + text_when(texts(intents@).contains("gated_reveal"@), "reveal_line") + text_when(
        incoming_count > 1,
        "merge_readability",
    ) + text_when(outgoing_count > 1, "choice_readability"));
    if e.len() == 0 {
        e.push(owned("standard_passage"));
    }
    assert(texts(e@) =~= expectation_list(
        node@,
        role@,
        texts(intents@),
        incoming_count as nat,
        outgoing_count as nat,
    ));
    dedupe_strings(e)
}

/// The region of a node.
pub open spec fn region_of(n: NodeView, anns: Seq<AnnotationView>, edges: Seq<EdgeView>) -> RegionView {
    let ints = intent_set(anns, n.id);
    let role = role_of(n, ints);
    let anchor = if anchored_role(role) {
        Some(n.id)
    } else {
        None
    };
    RegionView {
        id: region_id_spec(n.id),
        node_ids: seq![n.id],
        role,
        anchor_node: anchor,
        geometry_role: geometry_role_of(n, role, ints),
        footprint_class: footprint_of(n, role, ints),
        scale_band: scale_of(n, role, ints),
        anchor_quality: anchor_quality_of(role, anchor),
        entrance_expectations: sorted_texts(
            expectation_list(n, role, ints, degree(edges, n.id, true), degree(edges, n.id, false)).to_set(),
        ),
    }
}

fn build_region(candidate: &Candidate, anns: &Vec<SpatialIntentAnnotation>, node: &Node) -> (r:
    IntermediateRegion)
    ensures
        r@ == region_of(node@, annotation_views(anns@), edge_views(candidate.graph.edges@)),
{
    let intents = collect_target_intents(anns, node.id.as_str());
    let role = region_role(node, &intents);
    let anchor_node: Option<String> = if is_anchored_role(role.as_str()) {
        Some(node.id.clone())
    } else {
        None
    };
    let incoming = count_degree(candidate, node.id.as_str(), true);
    let outgoing = count_degree(candidate, node.id.as_str(), false);
    let mut node_ids: Vec<String> = Vec::new();
    node_ids.push(node.id.clone());
    assert(texts(node_ids@) =~= seq![node.id@]);
    let r = IntermediateRegion {
        id: region_id(node.id.as_str()),
        node_ids,
        geometry_role: geometry_role(node, role.as_str(), &intents),
        footprint_class: footprint_class(node, role.as_str(), &intents),
        scale_band: scale_band(node, role.as_str(), &intents),
        anchor_quality: anchor_quality(role.as_str(), &anchor_node),
        entrance_expectations: entrance_expectations(
            node,
            role.as_str(),
            &intents,
            incoming,
            outgoing,
        ),
        role,
        anchor_node,
    };
    assert(r@ =~~= region_of(node@, annotation_views(anns@), edge_views(candidate.graph.edges@)));
    r
}

/// The constraint that preserves an intent, if the intent calls for one.
pub open spec fn constraint_code(intent: Seq<char>) -> Option<&'static str> {
    if intent == "visible_before_reachable"@ {
        Some("preserve_lock_preview")
    } else if intent == "gated_connector"@ {
        Some("preserve_gated_connector")
    } else if intent == "gated_reveal"@ {
        Some("preserve_reveal_sequence")
    } else if intent == "landmark_hub"@ {
        Some("preserve_wayfinding_anchor")
    } else if intent == "pressure_path"@ {
        Some("preserve_pressure_read")
    } else if intent == "shortcut_connector"@ {
        Some("preserve_shortcut_connector")
    } else if intent == "one_way_drop"@ {
        Some("preserve_one_way_return")
    } else if intent == "hidden_route"@ {
        Some("preserve_hidden_route")
    } else if intent == "merge_rejoin_clarity"@ {
        Some("preserve_rejoin_clarity")
    } else if intent == "reward_pocket"@ {
        Some("preserve_reward_pocket")
    } else if intent == "entry_orientation"@ {
        Some("preserve_entry_orientation")
    } else if intent == "destination_readability"@ {
        Some("preserve_destination_readability")
    } else {
        None
    }
}

pub fn constraint_code_for_intent(intent: &str) -> (r: Option<&'static str>)
    ensures
        r == constraint_code(intent@),
{
    if str_eq(intent, "visible_before_reachable") {
        Some("preserve_lock_preview")
    } else if str_eq(intent, "gated_connector") {
        Some("preserve_gated_connector")
    } else if str_eq(intent, "gated_reveal") {
        Some("preserve_reveal_sequence")
    } else if str_eq(intent, "landmark_hub") {
        Some("preserve_wayfinding_anchor")
    } else if str_eq(intent, "pressure_path") {
        Some("preserve_pressure_read")
    } else if str_eq(intent, "shortcut_connector") {
        Some("preserve_shortcut_connector")
    } else if str_eq(intent, "one_way_drop") {
        Some("preserve_one_way_return")
    } else if str_eq(intent, "hidden_route") {
        Some("preserve_hidden_route")
    } else if str_eq(intent, "merge_rejoin_clarity") {
        Some("preserve_rejoin_clarity")
    } else if str_eq(intent, "reward_pocket") {
        Some("preserve_reward_pocket")
    } else if str_eq(intent, "entry_orientation") {
        Some("preserve_entry_orientation")
    } else if str_eq(intent, "destination_readability") {
        Some("preserve_destination_readability")
    } else {
        None
    }
}

/// The constraint preserving `intent` of an annotation's target.
pub open spec fn constraint_of(a: AnnotationView, code: &str, intent: Seq<char>) -> ConstraintView {
    ConstraintView {
        code: code@,
        target: a.target_id,
        target_type: a.target_type,
        source_intents: seq![intent],
        graph_refs: seq![a.target_id],
        detail: "Preserve "@ + intent + " for "@ + a.target_id + "."@,
    }
}

/// The constraints of the first intents of an annotation.
pub open spec fn intent_constraints(a: AnnotationView, ints: Seq<Seq<char>>) -> Seq<ConstraintView>
    decreases ints.len(),
{
    if ints.len() == 0 {
        Seq::empty()
    } else {
        intent_constraints(a, ints.drop_last()) + match constraint_code(ints.last()) {
            Some(code) => seq![constraint_of(a, code, ints.last())],
            None => Seq::empty(),
        }
    }
}

/// The constraints of all annotations, in annotation and intent order.
pub open spec fn all_constraints(anns: Seq<AnnotationView>) -> Seq<ConstraintView>
    decreases anns.len(),
{
    if anns.len() == 0 {
        Seq::empty()
    } else {
        all_constraints(anns.drop_last()) + intent_constraints(anns.last(), anns.last().intents)
    }
}

fn push_constraint(v: &mut Vec<IntermediateConstraint>, c: IntermediateConstraint)
    ensures
        constraint_views(final(v)@) == constraint_views(old(v)@).push(c@),
{
    let ghost cv = c@;
    v.push(c);
    assert(constraint_views(v@) =~= constraint_views(old(v)@).push(cv));
}

fn annotation_constraints(out: &mut Vec<IntermediateConstraint>, a: &SpatialIntentAnnotation)
    ensures
        constraint_views(final(out)@) == constraint_views(old(out)@) + intent_constraints(
            a@,
            a@.intents,
        ),
{
    let ghost start = constraint_views(out@);
    let ghost ints = a@.intents;
    let mut j: usize = 0;
    while j < a.intents.len()
        invariant
            j <= a.intents@.len(),
            ints == texts(a.intents@),
            constraint_views(out@) == start + intent_constraints(a@, ints.take(j as int)),
        decreases a.intents@.len() - j,
    {
        let intent = a.intents[j].as_str();
        proof {
            assert(ints.take(j + 1).drop_last() =~= ints.take(j as int));
            assert(ints.take(j + 1).last() == intent@);
        }
        match constraint_code_for_intent(intent) {
            Some(code) => {
                let mut detail = owned("Preserve ");
                detail.append(intent);
                detail.append(" for ");
                detail.append(a.target_id.as_str());
                detail.append(".");
                let mut source_intents: Vec<String> = Vec::new();
                source_intents.push(owned(intent));
                let mut graph_refs: Vec<String> = Vec::new();
                graph_refs.push(a.target_id.clone());
                assert(texts(source_intents@) =~= seq![intent@]);
                assert(texts(graph_refs@) =~= seq![a.target_id@]);
                let c = IntermediateConstraint {
                    code: owned(code),
                    target: a.target_id.clone(),
                    target_type: a.target_type.clone(),
                    source_intents,
                    graph_refs,
                    detail,
                };
                assert(c@ =~~= constraint_of(a@, code, intent@));
                push_constraint(out, c);
            },
            None => {},
        }
        j = j + 1;
        assert(constraint_views(out@) =~= start + intent_constraints(a@, ints.take(j as int)));
    }
    assert(ints.take(ints.len() as int) =~= ints);
}

/// The references `code:target` of the constraints on `target`, in order.
pub open spec fn constraint_ref_list(cs: Seq<ConstraintView>, target: Seq<char>) -> Seq<Seq<char>>
    decreases cs.len(),
{
    if cs.len() == 0 {
        Seq::empty()
    } else {
        constraint_ref_list(cs.drop_last(), target) + if cs.last().target == target {
            seq![cs.last().code + ":"@ + cs.last().target]
        } else {
            Seq::empty()
        }
    }
}

fn constraint_refs_for(cs: &Vec<IntermediateConstraint>, target: &str) -> (r: Vec<String>)
    ensures
        texts(r@) == sorted_texts(constraint_ref_list(constraint_views(cs@), target@).to_set()),
{
    let ghost cv = constraint_views(cs@);
    let mut refs: Vec<String> = Vec::new();
    assert(texts(refs@) =~= Seq::<Seq<char>>::empty());
    let mut i: usize = 0;
    while i < cs.len()
        invariant
            i <= cs@.len(),
            cv == constraint_views(cs@),
            texts(refs@) == constraint_ref_list(cv.take(i as int), target@),
        decreases cs@.len() - i,
    {
        let c = &cs[i];
        proof {
            assert(cv.take(i + 1).drop_last() =~= cv.take(i as int));
            assert(cv[i as int] == cs@[i as int]@);
        }
        if str_eq(c.target.as_str(), target) {
            let mut r = c.code.clone();
            r.append(":");
            r.append(c.target.as_str());
            refs.push(r);
        }
        i = i + 1;
        assert(texts(refs@) =~= constraint_ref_list(cv.take(i as int), target@));
    }
    assert(cv.take(cv.len() as int) =~= cv);
    dedupe_strings(refs)
}

/// A connector's affordances, before removing repeats.
pub open spec fn affordance_list(e: EdgeView, ints: Seq<Seq<char>>) -> Seq<Seq<char>> {
    let l = (if e.traversal == TraversalKind::Locked || e.required_item is Some {
        seq!["locked_threshold"@, "preview_line"@]
    } else {
        Seq::empty()
    }) + text_when(e.traversal == TraversalKind::Hidden || ints.contains("hidden_route"@), "hidden_passage")
        + text_when(
        e.traversal == TraversalKind::OneWayReturn || ints.contains("one_way_drop"@),
        "one_way_return",
    ) + text_when(e.kind == EdgeKind::Shortcut || ints.contains("shortcut_connector"@), "shortcut_link")
        + text_when(ints.contains("pressure_path"@), "pressure_route") + text_when(
        ints.contains("merge_rejoin_clarity"@),
        "rejoin_corridor",
    );
    if l.len() == 0 {
        seq!["corridor"@]
    } else {
        l
    }
}

fn connector_affordances(edge: &Edge, intents: &Vec<String>) -> (r: Vec<String>)
    ensures
        texts(r@) == sorted_texts(affordance_list(edge@, texts(intents@)).to_set()),
{
    let mut a: Vec<String> = Vec::new();
    if edge.traversal == TraversalKind::Locked || edge.required_item.is_some() {
        a.push(owned("locked_threshold"));
        a.push(owned("preview_line"));
    }
    let ghost head = texts(a@);
    assert(head =~= (if edge.traversal == TraversalKind::Locked || edge.required_item is Some {
        seq!["locked_threshold"@, "preview_line"@]
    } else {
        Seq::empty()
    }));
    push_text_when(
        &mut a,
        edge.traversal == TraversalKind::Hidden || has_intent(intents, "hidden_route"),
        "hidden_passage",
    );
    push_text_when(
        &mut a,
        edge.traversal == TraversalKind::OneWayReturn || has_intent(intents, "one_way_drop"),
        "one_way_return",
    );
    push_text_when(
        &mut a,
        edge.kind == EdgeKind::Shortcut || has_intent(intents, "shortcut_connector"),
        "shortcut_link",
    );
    push_text_when(&mut a, has_intent(intents, "pressure_path"), "pressure_route");
    push_text_when(&mut a, has_intent(intents, "merge_rejoin_clarity"), "rejoin_corridor");
    let ghost ints = texts(intents@);
    assert(texts(a@) =~= head + text_when(
        edge.traversal == TraversalKind::Hidden || ints.contains("hidden_route"@),
        "hidden_passage",
    ) + text_when(
        edge.traversal == TraversalKind::OneWayReturn || ints.contains("one_way_drop"@),
        "one_way_return",
    ) + text_when(edge.kind == EdgeKind::Shortcut || ints.contains("shortcut_connector"@), "shortcut_link")
        + text_when(ints.contains("pressure_path"@), "pressure_route") + text_when(
        ints.contains("merge_rejoin_clarity"@),
        "rejoin_corridor",
    ));
    if a.len() == 0 {
        a.push(owned("corridor"));
    }
    assert(texts(a@) =~= affordance_list(edge@, texts(intents@)));
    dedupe_strings(a)
}

/// How a connector is traversed.
pub open spec fn traversal_hint_of(e: EdgeView) -> Seq<char> {
    match e.traversal {
        TraversalKind::Open => if e.required_item is Some {
            "open_requires_context"@
        } else {
            "open"@
        },
        TraversalKind::Locked => "locked"@,
        TraversalKind::OneWayReturn => "one_way_return"@,
        TraversalKind::Hidden => "hidden"@,
    }
}

pub fn traversal_hint(edge: &Edge) -> (r: String)
    ensures
        r@ == traversal_hint_of(edge@),
{
    match edge.traversal {
        TraversalKind::Open => if edge.required_item.is_some() {
            owned("open_requires_context")
        } else {
            owned("open")
        },
        TraversalKind::Locked => owned("locked"),
        TraversalKind::OneWayReturn => owned("one_way_return"),
        TraversalKind::Hidden => owned("hidden"),
    }
}

/// The connector of an edge.
pub open spec fn connector_of(
    e: EdgeView,
    anns: Seq<AnnotationView>,
    cs: Seq<ConstraintView>,
) -> ConnectorView {
    let ints = intent_set(anns, e.id);
    ConnectorView {
        id: "connector."@ + slugify_spec(e.id),
        edge_id: e.id,
        from_region: region_id_spec(e.from),
        to_region: region_id_spec(e.to),
        intents: ints,
        affordances: sorted_texts(affordance_list(e, ints).to_set()),
        traversal_hint: traversal_hint_of(e),
        constraint_refs: sorted_texts(constraint_ref_list(cs, e.id).to_set()),
    }
}

fn build_connector(
    anns: &Vec<SpatialIntentAnnotation>,
    constraints: &Vec<IntermediateConstraint>,
    edge: &Edge,
) -> (r: IntermediateConnector)
    ensures
        r@ == connector_of(edge@, annotation_views(anns@), constraint_views(constraints@)),
{
    let intents = collect_target_intents(anns, edge.id.as_str());
    let mut id = owned("connector.");
    let slug = slugify_label(edge.id.as_str());
    id.append(slug.as_str());
    let r = IntermediateConnector {
        id,
        edge_id: edge.id.clone(),
        from_region: region_id(edge.from.as_str()),
        to_region: region_id(edge.to.as_str()),
        affordances: connector_affordances(edge, &intents),
        traversal_hint: traversal_hint(edge),
        constraint_refs: constraint_refs_for(constraints, edge.id.as_str()),
        intents,
    };
    assert(r@ =~~= connector_of(edge@, annotation_views(anns@), constraint_views(constraints@)));
    r
}

fn build_regions(candidate: &Candidate, anns: &Vec<SpatialIntentAnnotation>) -> (r: Vec<
    IntermediateRegion,
>)
    ensures
        region_views(r@) == node_views(candidate.graph.nodes@).map_values(
            |n: NodeView| region_of(n, annotation_views(anns@), edge_views(candidate.graph.edges@)),
        ),
{
    let ghost av = annotation_views(anns@);
    let ghost nv = node_views(candidate.graph.nodes@);
    let ghost ev = edge_views(candidate.graph.edges@);
    let mut regions: Vec<IntermediateRegion> = Vec::new();
    let mut i: usize = 0;
    while i < candidate.graph.nodes.len()
        invariant
            i <= candidate.graph.nodes@.len(),
            av == annotation_views(anns@),
            nv == node_views(candidate.graph.nodes@),
            ev == edge_views(candidate.graph.edges@),
            regions@.len() == i,
            forall|k: int| 0 <= k < i ==> #[trigger] regions@[k]@ == region_of(nv[k], av, ev),
        decreases candidate.graph.nodes@.len() - i,
    {
        let region = build_region(candidate, anns, &candidate.graph.nodes[i]);
        assert(nv[i as int] == candidate.graph.nodes@[i as int]@);
        regions.push(region);
        i = i + 1;
    }
    assert(region_views(regions@) =~= nv.map_values(|n: NodeView| region_of(n, av, ev)));
    regions
}

fn build_constraints(anns: &Vec<SpatialIntentAnnotation>) -> (r: Vec<IntermediateConstraint>)
    ensures
        constraint_views(r@) == all_constraints(annotation_views(anns@)),
{
    let ghost av = annotation_views(anns@);
    let mut constraints: Vec<IntermediateConstraint> = Vec::new();
    assert(constraint_views(constraints@) =~= Seq::<ConstraintView>::empty());
    let mut a: usize = 0;
    while a < anns.len()
        invariant
            a <= anns@.len(),
            av == annotation_views(anns@),
            constraint_views(constraints@) == all_constraints(av.take(a as int)),
        decreases anns@.len() - a,
    {
        annotation_constraints(&mut constraints, &anns[a]);
        proof {
            assert(av.take(a + 1).drop_last() =~= av.take(a as int));
            assert(av[a as int] == anns@[a as int]@);
        }
        a = a + 1;
    }
    assert(av.take(av.len() as int) =~= av);
    constraints
}

fn build_connectors(
    candidate: &Candidate,
    anns: &Vec<SpatialIntentAnnotation>,
    constraints: &Vec<IntermediateConstraint>,
) -> (r: Vec<IntermediateConnector>)
    ensures
        connector_views(r@) == edge_views(candidate.graph.edges@).map_values(
            |e: EdgeView| connector_of(e, annotation_views(anns@), constraint_views(constraints@)),
        ),
{
    let ghost av = annotation_views(anns@);
    let ghost ev = edge_views(candidate.graph.edges@);
    let ghost cs = constraint_views(constraints@);
    let mut connectors: Vec<IntermediateConnector> = Vec::new();
    let mut k: usize = 0;
    while k < candidate.graph.edges.len()
        invariant
            k <= candidate.graph.edges@.len(),
            av == annotation_views(anns@),
            ev == edge_views(candidate.graph.edges@),
            cs == constraint_views(constraints@),
            connectors@.len() == k,
            forall|m: int| 0 <= m < k ==> #[trigger] connectors@[m]@ == connector_of(ev[m], av, cs),
        decreases candidate.graph.edges@.len() - k,
    {
        let connector = build_connector(anns, constraints, &candidate.graph.edges[k]);
        assert(ev[k as int] == candidate.graph.edges@[k as int]@);
        connectors.push(connector);
        k = k + 1;
    }
    assert(connector_views(connectors@) =~= ev.map_values(|e: EdgeView| connector_of(e, av, cs)));
    connectors
}

/// The breakdown of a candidate under its spatial intent annotations.
pub fn intermediate_breakdown(
    candidate: &Candidate,
    annotations: &SpatialIntentReport,
    annotation_ref: &str,
) -> (r: Result<IntermediateBreakdown, String>)
    ensures
        r matches Ok(b) && breakdown_spec(*candidate, annotations.annotations@, annotation_ref@, b),
{
    let regions = build_regions(candidate, &annotations.annotations);
    let constraints = build_constraints(&annotations.annotations);
    let connectors = build_connectors(candidate, &annotations.annotations, &constraints);
    Ok(
        IntermediateBreakdown {
            kind: owned("rusty_procgen.intermediate_breakdown.v1"),
            schema_version: 2,
            candidate_id: candidate.candidate_id.clone(),
            state_hash: hash_candidate(candidate),
            annotation_ref: owned(annotation_ref),
            regions,
            connectors,
            constraints,
        },
    )
}

/// `b` is the breakdown of `candidate` under annotations `anns` read from
/// `annotation_ref`: a region per node and a connector per edge in order,
/// and the constraints of every annotation's intents.
pub open spec fn breakdown_spec(
    candidate: Candidate,
    anns: Seq<SpatialIntentAnnotation>,
    annotation_ref: Seq<char>,
    b: IntermediateBreakdown,
) -> bool {
    let av = annotation_views(anns);
    let cs = all_constraints(av);
    &&& b.kind@ == "rusty_procgen.intermediate_breakdown.v1"@
    &&& b.schema_version == 2
    &&& b.candidate_id == candidate.candidate_id
    &&& b.state_hash@ == hash_of(candidate_json(candidate))
    &&& b.annotation_ref@ == annotation_ref
    &&& region_views(b.regions@) == node_views(candidate.graph.nodes@).map_values(
        |n: NodeView| region_of(n, av, edge_views(candidate.graph.edges@)),
    )
    &&& constraint_views(b.constraints@) == cs
    &&& connector_views(b.connectors@) == edge_views(candidate.graph.edges@).map_values(
        |e: EdgeView| connector_of(e, av, cs),
    )
}

/// The region role of a node, by priority: start, goal, landmark hub,
/// boss gate, pressure, then the role named by the node's treasure tag,
/// then gate, then standard; that treasure role has the pocket shape.
pub proof fn lemma_region_roles(n: NodeView, ints: Seq<Seq<char>>)
    ensures
        n.kind == NodeKind::Start ==> role_of(n, ints) == "start"@,
        n.kind == NodeKind::Goal ==> role_of(n, ints) == "goal"@,
        ({
            let plain = n.kind != NodeKind::Start && n.kind != NodeKind::Goal && !ints.contains("landmark_hub"@)
                && !n.tags.contains("boss"@) && !n.tags.contains("hazard"@) && !ints.contains("pressure_path"@);
            &&& plain && n.tags.contains("reward"@) ==> {
                &&& role_of(n, ints) == "reward"@
                &&& geometry_role_of(n, role_of(n, ints), ints) == "reward_pocket"@
                &&& footprint_of(n, role_of(n, ints), ints) == "pocket"@
                &&& scale_of(n, role_of(n, ints), ints) == "small"@
            }
            &&& plain && !n.tags.contains("reward"@) && n.kind == NodeKind::Gate ==> role_of(n, ints)
                == "gate"@
            &&& plain && !n.tags.contains("reward"@) && n.kind != NodeKind::Gate ==> role_of(n, ints)
                == "standard"@
        }),
        n.kind != NodeKind::Start && n.kind != NodeKind::Goal && ints.contains("landmark_hub"@) ==> role_of(
            n,
            ints,
        ) == "landmark_hub"@,
        n.kind != NodeKind::Start && n.kind != NodeKind::Goal && !ints.contains("landmark_hub"@)
            && n.tags.contains("boss"@) ==> role_of(n, ints) == "boss_gate"@,
        n.kind != NodeKind::Start && n.kind != NodeKind::Goal && !ints.contains("landmark_hub"@)
            && !n.tags.contains("boss"@) && (n.tags.contains("hazard"@) || ints.contains("pressure_path"@))
            ==> role_of(n, ints) == "pressure"@,
{
    reveal_strlit("start");
    reveal_strlit("goal");
    reveal_strlit("landmark_hub");
    reveal_strlit("boss_gate");
    reveal_strlit("pressure");
    reveal_strlit("reward");
    reveal_strlit("gate");
    reveal_strlit("boss");
    reveal_strlit("hazard");
    assert(has_tag(n.tags, "boss") == n.tags.contains("boss"@));
    assert(has_tag(n.tags, "hazard") == n.tags.contains("hazard"@));
    assert(has_tag(n.tags, "reward") == n.tags.contains("reward"@));
    assert("reward"@[0] != "start"@[0]);
    assert("reward"@[0] != "goal"@[0]);
    assert("reward"@ != "landmark_hub"@);
    assert("reward"@ != "boss_gate"@);
    assert("reward"@ != "pressure"@);
}

} // verus!
