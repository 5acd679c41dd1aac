//! Spatial intent: what each node and edge of a candidate asks of the space
//! that will realize it, read from its kind, traversal and tags.

use vstd::prelude::*;
use vstd::string::*;

use crate::json::{candidate_json, hash_candidate, hash_of};
use crate::model::{
    edge_views, node_views, opt_text, owned, texts, Candidate, Edge, EdgeKind, EdgeView, Node,
    NodeKind, NodeView, TraversalKind,
};
use crate::text::str_eq;
use crate::text_set::{dedupe_strings, sorted_texts};

verus! {

#[derive(Clone, Debug)]
pub struct SpatialIntentAnnotation {
    pub target_type: String,
    pub target_id: String,
    pub intents: Vec<String>,
    pub rationale: String,
}

#[derive(Clone, Debug)]
pub struct SpatialIntentReport {
    pub kind: String,
    pub schema_version: u32,
    pub candidate_id: String,
    pub state_hash: String,
    pub analysis_ref: Option<String>,
    pub annotations: Vec<SpatialIntentAnnotation>,
}

#[verifier::ext_equal]
pub struct AnnotationView {
    pub target_type: Seq<char>,
    pub target_id: Seq<char>,
    pub intents: Seq<Seq<char>>,
    pub rationale: Seq<char>,
}

impl View for SpatialIntentAnnotation {
    type V = AnnotationView;

    open spec fn view(&self) -> AnnotationView {
        AnnotationView {
            target_type: self.target_type@,
            target_id: self.target_id@,
            intents: texts(self.intents@),
            rationale: self.rationale@,
        }
    }
}

pub open spec fn annotation_views(v: Seq<SpatialIntentAnnotation>) -> Seq<AnnotationView> {
    v.map_values(|a: SpatialIntentAnnotation| a@)
}

/// Whether a tag list holds `tag`.
pub open spec fn has_tag(tags: Seq<Seq<char>>, tag: &str) -> bool {
    exists|i: int| 0 <= i < tags.len() && #[trigger] tags[i] == tag@
}

/// Whether a node carries `tag`.
pub fn node_has_tag(node: &Node, tag: &str) -> (r: bool)
    ensures
        r == has_tag(texts(node.tags@), tag),
{
    tags_hold(&node.tags, tag)
}

/// Whether an edge carries `tag`.
pub fn edge_has_tag(edge: &Edge, tag: &str) -> (r: bool)
    ensures
        r == has_tag(texts(edge.tags@), tag),
{
    tags_hold(&edge.tags, tag)
}

fn tags_hold(tags: &Vec<String>, tag: &str) -> (r: bool)
    ensures
        r == has_tag(texts(tags@), tag),
{
    let mut i: usize = 0;
    while i < tags.len()
        invariant
            i <= tags@.len(),
            forall|j: int| 0 <= j < i ==> #[trigger] texts(tags@)[j] != tag@,
        decreases tags@.len() - i,
    {
        if str_eq(tags[i].as_str(), tag) {
            assert(texts(tags@)[i as int] == tag@);
            return true;
        }
        i = i + 1;
    }
    false
}

/// `[t]` if `c` holds, else nothing.
pub open spec fn text_when(c: bool, t: &str) -> Seq<Seq<char>> {
    if c {
        seq![t@]
    } else {
        Seq::empty()
    }
}

/// The intents a node's kind and tags call for, in check order.
pub open spec fn node_intent_list(n: NodeView) -> Seq<Seq<char>> {
    text_when(n.kind == NodeKind::Start, "entry_orientation") + text_when(
        n.kind == NodeKind::Goal,
        "destination_readability",
    ) + text_when(has_tag(n.tags, "hub") || has_tag(n.tags, "wayfinding_anchor"), "landmark_hub")
        + text_when(has_tag(n.tags, "boss"), "gated_reveal") + text_when(
        has_tag(n.tags, "hazard"),
        "pressure_path",
    ) + text_when(has_tag(n.tags, "lock") || n.kind == NodeKind::Gate, "gated_reveal")
        + text_when(has_tag(n.tags, "reward"), "reward_pocket")
}

/// The intents an edge's traversal, kind and tags call for, in check order.
pub open spec fn edge_intent_list(e: EdgeView) -> Seq<Seq<char>> {
    (if e.traversal == TraversalKind::Locked || e.required_item is Some {
        seq!["visible_before_reachable"@, "gated_connector"@]
    } else {
        Seq::empty()
    }) + text_when(has_tag(e.tags, "pressure"), "pressure_path") + text_when(
        e.kind == EdgeKind::Shortcut || has_tag(e.tags, "shortcut"),
        "shortcut_connector",
    ) + text_when(e.traversal == TraversalKind::OneWayReturn, "one_way_drop") + text_when(
        e.traversal == TraversalKind::Hidden || has_tag(e.tags, "hidden"),
        "hidden_route",
    ) + text_when(has_tag(e.tags, "return") || has_tag(e.tags, "rejoin"), "merge_rejoin_clarity")
        + text_when(e.kind == EdgeKind::SecretBypass, "hidden_route")
}

/// A node's annotation: its distinct intents in order, if it has any.
pub open spec fn node_annotation(n: NodeView) -> Seq<AnnotationView> {
    let intents = sorted_texts(node_intent_list(n).to_set());
    if intents.len() == 0 {
        Seq::empty()
    } else {
        seq![
            AnnotationView {
                target_type: "node"@,
                target_id: n.id,
                intents,
                rationale: "Node "@ + n.id + " carries spatial role tags."@,
            },
        ]
    }
}

/// An edge's annotation: its distinct intents in order, if it has any.
pub open spec fn edge_annotation(e: EdgeView) -> Seq<AnnotationView> {
    let intents = sorted_texts(edge_intent_list(e).to_set());
    if intents.len() == 0 {
        Seq::empty()
    } else {
        seq![
            AnnotationView {
                target_type: "edge"@,
                target_id: e.id,
                intents,
                rationale: "Edge "@ + e.id + " has traversal or topology intent."@,
            },
        ]
    }
}

pub open spec fn node_annotations(ns: Seq<NodeView>) -> Seq<AnnotationView>
    decreases ns.len(),
{
    if ns.len() == 0 {
        Seq::empty()
    } else {
        node_annotations(ns.drop_last()) + node_annotation(ns.last())
    }
}

pub open spec fn edge_annotations(es: Seq<EdgeView>) -> Seq<AnnotationView>
    decreases es.len(),
{
    if es.len() == 0 {
        Seq::empty()
    } else {
        edge_annotations(es.drop_last()) + edge_annotation(es.last())
    }
}

fn push_when(v: &mut Vec<String>, c: bool, t: &str)
    ensures
        texts(final(v)@) == texts(old(v)@) + text_when(c, t),
{
    if c {
        v.push(owned(t));
    }
    assert(texts(v@) =~= texts(old(v)@) + text_when(c, t));
}

fn push_annotation(v: &mut Vec<SpatialIntentAnnotation>, a: SpatialIntentAnnotation)
    ensures
        annotation_views(final(v)@) == annotation_views(old(v)@).push(a@),
{
    let ghost av = a@;
    v.push(a);
    assert(annotation_views(v@) =~= annotation_views(old(v)@).push(av));
}

fn annotate_node(out: &mut Vec<SpatialIntentAnnotation>, node: &Node)
    ensures
        annotation_views(final(out)@) == annotation_views(old(out)@) + node_annotation(node@),
{
    let mut raw: Vec<String> = Vec::new();
    assert(texts(raw@) =~= Seq::<Seq<char>>::empty());
    push_when(&mut raw, node.kind == NodeKind::Start, "entry_orientation");
    push_when(&mut raw, node.kind == NodeKind::Goal, "destination_readability");
    push_when(
        &mut raw,
        node_has_tag(node, "hub") || node_has_tag(node, "wayfinding_anchor"),
        "landmark_hub",
    );
    push_when(&mut raw, node_has_tag(node, "boss"), "gated_reveal");
    push_when(&mut raw, node_has_tag(node, "hazard"), "pressure_path");
    push_when(&mut raw, node_has_tag(node, "lock") || node.kind == NodeKind::Gate, "gated_reveal");
    push_when(&mut raw, node_has_tag(node, "reward"), "reward_pocket");
    assert(texts(raw@) =~= node_intent_list(node@));
    let intents = dedupe_strings(raw);
    if intents.len() > 0 {
        let mut rationale = owned("Node ");
        rationale.append(node.id.as_str());
        rationale.append(" carries spatial role tags.");
        push_annotation(
            out,
            SpatialIntentAnnotation {
                target_type: owned("node"),
                target_id: node.id.clone(),
                intents,
                rationale,
            },
        );
    }
    assert(annotation_views(out@) =~= annotation_views(old(out)@) + node_annotation(node@));
}

fn annotate_edge(out: &mut Vec<SpatialIntentAnnotation>, edge: &Edge)
    ensures
        annotation_views(final(out)@) == annotation_views(old(out)@) + edge_annotation(edge@),
{
    let mut raw: Vec<String> = Vec::new();
    assert(texts(raw@) =~= Seq::<Seq<char>>::empty());
    if edge.traversal == TraversalKind::Locked || edge.required_item.is_some() {
        raw.push(owned("visible_before_reachable"));
        raw.push(owned("gated_connector"));
    }
    let ghost head = texts(raw@);
    assert(head =~= (if edge.traversal == TraversalKind::Locked || edge.required_item is Some {
        seq!["visible_before_reachable"@, "gated_connector"@]
    } else {
        Seq::empty()
    }));
    push_when(&mut raw, edge_has_tag(edge, "pressure"), "pressure_path");
    push_when(
        &mut raw,
        edge.kind == EdgeKind::Shortcut || edge_has_tag(edge, "shortcut"),
        "shortcut_connector",
    );
    push_when(&mut raw, edge.traversal == TraversalKind::OneWayReturn, "one_way_drop");
    push_when(
        &mut raw,
        edge.traversal == TraversalKind::Hidden || edge_has_tag(edge, "hidden"),
        "hidden_route",
    );
    push_when(
        &mut raw,
        edge_has_tag(edge, "return") || edge_has_tag(edge, "rejoin"),
        "merge_rejoin_clarity",
    );
    push_when(&mut raw, edge.kind == EdgeKind::SecretBypass, "hidden_route");
    assert(texts(raw@) =~= edge_intent_list(edge@));
    let intents = dedupe_strings(raw);
    if intents.len() > 0 {
        let mut rationale = owned("Edge ");
        rationale.append(edge.id.as_str());
        rationale.append(" has traversal or topology intent.");
        push_annotation(
            out,
            SpatialIntentAnnotation {
                target_type: owned("edge"),
                target_id: edge.id.clone(),
                intents,
                rationale,
            },
        );
    }
    assert(annotation_views(out@) =~= annotation_views(old(out)@) + edge_annotation(edge@));
}

/// The spatial intent of a candidate: an annotation per node, then per
/// edge, for those that call for any intent, with the candidate's identity
/// and state hash.
pub fn spatial_intent_report(candidate: &Candidate, analysis_ref: Option<&str>) -> (r: Result<
    SpatialIntentReport,
    String,
>)
    ensures
        r matches Ok(report) && {
            &&& report.kind@ == "rusty_procgen.spatial_intent.v1"@
            &&& report.schema_version == 1
            &&& report.candidate_id == candidate.candidate_id
            &&& report.state_hash@ == hash_of(candidate_json(*candidate))
            &&& opt_text(report.analysis_ref) == (match analysis_ref {
                Some(a) => Some(a@),
                None => None::<Seq<char>>,
            })
            &&& annotation_views(report.annotations@) == node_annotations(
                node_views(candidate.graph.nodes@),
            ) + edge_annotations(edge_views(candidate.graph.edges@))
        },
{
    let ghost nv = node_views(candidate.graph.nodes@);
    let ghost ev = edge_views(candidate.graph.edges@);
    let mut annotations: Vec<SpatialIntentAnnotation> = Vec::new();
    assert(annotation_views(annotations@) =~= Seq::<AnnotationView>::empty());
    let mut i: usize = 0;
    while i < candidate.graph.nodes.len()
        invariant
            i <= candidate.graph.nodes@.len(),
            nv == node_views(candidate.graph.nodes@),
            annotation_views(annotations@) == node_annotations(nv.take(i as int)),
        decreases candidate.graph.nodes@.len() - i,
    {
        annotate_node(&mut annotations, &candidate.graph.nodes[i]);
        proof {
            assert(nv.take(i + 1).drop_last() =~= nv.take(i as int));
            assert(nv[i as int] == candidate.graph.nodes@[i as int]@);
        }
        i = i + 1;
    }
    assert(nv.take(nv.len() as int) =~= nv);
    let ghost head = annotation_views(annotations@);
    let mut k: usize = 0;
    while k < candidate.graph.edges.len()
        invariant
            k <= candidate.graph.edges@.len(),
            ev == edge_views(candidate.graph.edges@),
            annotation_views(annotations@) == head + edge_annotations(ev.take(k as int)),
        decreases candidate.graph.edges@.len() - k,
    {
        annotate_edge(&mut annotations, &candidate.graph.edges[k]);
        proof {
            assert(ev.take(k + 1).drop_last() =~= ev.take(k as int));
            assert(ev[k as int] == candidate.graph.edges@[k as int]@);
        }
        k = k + 1;
        assert(annotation_views(annotations@) =~= head + edge_annotations(ev.take(k as int)));
    }
    assert(ev.take(ev.len() as int) =~= ev);
    let analysis: Option<String> = match analysis_ref {
        Some(a) => Some(owned(a)),
        None => None,
    };
    Ok(
        SpatialIntentReport {
            kind: owned("rusty_procgen.spatial_intent.v1"),
            schema_version: 1,
            candidate_id: candidate.candidate_id.clone(),
            state_hash: hash_candidate(candidate),
            analysis_ref: analysis,
            annotations,
        },
    )
}

} // verus!
