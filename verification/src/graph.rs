//! Building blocks for candidate graphs: literal nodes and edges, the lookups
//! the graph rules test, edge removal by identity, and diagnostics.

use vstd::prelude::*;
use vstd::string::*;

use crate::model::{
    edge_views, node_views, opt_text, owned, owned_opt, texts, Candidate, Edge, EdgeKind,
    EdgeView, Node, NodeKind, NodeView, Severity, TraversalKind,
};
use crate::text::str_eq;

verus! {

/// The text of each literal of a sequence.
pub open spec fn lit_texts(tags: Seq<&str>) -> Seq<Seq<char>> {
    tags.map_values(|t: &str| t@)
}

/// A node built from literal text.
pub open spec fn node_lit(
    id: Seq<char>,
    kind: NodeKind,
    label: &str,
    tags: Seq<&str>,
    grants_item: Option<&str>,
) -> NodeView {
    NodeView {
        id,
        kind,
        label: label@,
        tags: lit_texts(tags),
        grants_item: match grants_item {
            Some(g) => Some(g@),
            None => None,
        },
    }
}

/// An edge built from literal text.
pub open spec fn edge_lit(
    id: Seq<char>,
    from: Seq<char>,
    to: Seq<char>,
    kind: EdgeKind,
    traversal: TraversalKind,
    required_item: Option<&str>,
    tags: Seq<&str>,
) -> EdgeView {
    EdgeView {
        id,
        from,
        to,
        kind,
        traversal,
        required_item: match required_item {
            Some(r) => Some(r@),
            None => None,
        },
        tags: lit_texts(tags),
    }
}

/// Fresh strings holding the given literals, in order.
pub fn owned_all(tags: &[&str]) -> (r: Vec<String>)
    ensures
        texts(r@) == lit_texts(tags@),
{
    let mut r: Vec<String> = Vec::new();
    let mut i: usize = 0;
    while i < tags.len()
        invariant
            i <= tags@.len(),
            r@.len() == i,
            texts(r@) =~= lit_texts(tags@.take(i as int)),
        decreases tags@.len() - i,
    {
        let ghost before = r@;
        let t = owned(tags[i]);
        r.push(t);
        proof {
            assert forall|j: int| 0 <= j < i + 1 implies #[trigger] texts(r@)[j] == lit_texts(
                tags@.take(i + 1),
            )[j] by {
                if j < i {
                    assert(r@[j] == before[j]);
                    assert(texts(before)[j] == lit_texts(tags@.take(i as int))[j]);
                }
            }
        }
        i = i + 1;
        assert(texts(r@) =~= lit_texts(tags@.take(i as int)));
    }
    assert(tags@.take(tags@.len() as int) =~= tags@);
    r
}

pub fn make_node(
    id: &str,
    kind: NodeKind,
    label: &str,
    tags: &[&str],
    grants_item: Option<&str>,
) -> (n: Node)
    ensures
        n@ == node_lit(id@, kind, label, tags@, grants_item),
{
    Node {
        id: owned(id),
        kind,
        label: owned(label),
        tags: owned_all(tags),
        grants_item: owned_opt(grants_item),
    }
}

pub fn make_edge(
    id: &str,
    from: &str,
    to: &str,
    kind: EdgeKind,
    traversal: TraversalKind,
    required_item: Option<&str>,
    tags: &[&str],
) -> (e: Edge)
    ensures
        e@ == edge_lit(id@, from@, to@, kind, traversal, required_item, tags@),
{
    Edge {
        id: owned(id),
        from: owned(from),
        to: owned(to),
        kind,
        traversal,
        required_item: owned_opt(required_item),
        tags: owned_all(tags),
    }
}

pub fn push_node(nodes: &mut Vec<Node>, n: Node)
    ensures
        node_views(final(nodes)@) == node_views(old(nodes)@).push(n@),
{
    let ghost v = n@;
    nodes.push(n);
    assert(node_views(nodes@) =~= node_views(old(nodes)@).push(v));
}

pub fn push_edge(edges: &mut Vec<Edge>, e: Edge)
    ensures
        edge_views(final(edges)@) == edge_views(old(edges)@).push(e@),
{
    let ghost v = e@;
    edges.push(e);
    assert(edge_views(edges@) =~= edge_views(old(edges)@).push(v));
}

/// Whether a node with identity `id` is present.
pub open spec fn has_node_spec(nodes: Seq<NodeView>, id: Seq<char>) -> bool {
    exists|i: int| 0 <= i < nodes.len() && #[trigger] nodes[i].id == id
}

/// Whether an edge with identity `id` is present.
pub open spec fn has_edge_spec(edges: Seq<EdgeView>, id: Seq<char>) -> bool {
    exists|i: int| 0 <= i < edges.len() && #[trigger] edges[i].id == id
}

/// The edges without those whose identity is `id`, in order.
pub open spec fn drop_edge(edges: Seq<EdgeView>, id: Seq<char>) -> Seq<EdgeView>
    decreases edges.len(),
{
    if edges.len() == 0 {
        edges
    } else {
        let rest = drop_edge(edges.drop_last(), id);
        if edges.last().id == id {
            rest
        } else {
            rest.push(edges.last())
        }
    }
}

pub fn has_node(candidate: &Candidate, node_id: &str) -> (r: bool)
    ensures
        r == has_node_spec(node_views(candidate.graph.nodes@), node_id@),
{
    let nodes = &candidate.graph.nodes;
    let mut i: usize = 0;
    while i < nodes.len()
        invariant
            i <= nodes@.len(),
            nodes@ == candidate.graph.nodes@,
            forall|j: int| 0 <= j < i ==> nodes@[j].id@ != node_id@,
        decreases nodes@.len() - i,
    {
        if str_eq(nodes[i].id.as_str(), node_id) {
            proof {
                assert(node_views(nodes@)[i as int] == nodes@[i as int]@);
                assert(node_views(nodes@)[i as int].id == node_id@);
            }
            return true;
        }
        i = i + 1;
    }
    proof {
        assert forall|j: int| 0 <= j < nodes@.len() implies #[trigger] node_views(nodes@)[j].id
            != node_id@ by {
            assert(node_views(nodes@)[j] == nodes@[j]@);
        }
    }
    false
}

pub fn has_edge(candidate: &Candidate, edge_id: &str) -> (r: bool)
    ensures
        r == has_edge_spec(edge_views(candidate.graph.edges@), edge_id@),
{
    let edges = &candidate.graph.edges;
    let mut i: usize = 0;
    while i < edges.len()
        invariant
            i <= edges@.len(),
            edges@ == candidate.graph.edges@,
            forall|j: int| 0 <= j < i ==> edges@[j].id@ != edge_id@,
        decreases edges@.len() - i,
    {
        if str_eq(edges[i].id.as_str(), edge_id) {
            proof {
                assert(edge_views(edges@)[i as int] == edges@[i as int]@);
                assert(edge_views(edges@)[i as int].id == edge_id@);
            }
            return true;
        }
        i = i + 1;
    }
    proof {
        assert forall|j: int| 0 <= j < edges@.len() implies #[trigger] edge_views(edges@)[j].id
            != edge_id@ by {
            assert(edge_views(edges@)[j] == edges@[j]@);
        }
    }
    false
}

/// Removes every edge whose identity is `id`, keeping the others in order.
pub fn remove_edges_with_id(edges: &mut Vec<Edge>, id: &str)
    ensures
        edge_views(final(edges)@) == drop_edge(edge_views(old(edges)@), id@),
{
    let ghost orig = edge_views(old(edges)@);
    let ghost mut k: int = 0;
    let mut i: usize = 0;
    while i < edges.len()
        invariant
            0 <= i <= k <= orig.len(),
            i <= edges@.len(),
            edge_views(edges@).take(i as int) == drop_edge(orig.take(k), id@),
            edge_views(edges@).skip(i as int) == orig.skip(k),
        decreases edges@.len() - i,
    {
        let ghost before = edge_views(edges@);
        proof {
            assert(before.skip(i as int).len() == orig.skip(k).len());
            assert(k < orig.len());
            assert(before.skip(i as int)[0] == orig.skip(k)[0]);
            assert(orig.take(k + 1).drop_last() =~= orig.take(k));
            assert(orig.take(k + 1).last() == orig[k]);
            assert(before[i as int] == orig[k]);
        }
        if str_eq(edges[i].id.as_str(), id) {
            edges.remove(i);
            proof {
                let after = edge_views(edges@);
                assert(after.take(i as int) =~= before.take(i as int));
                assert(after.skip(i as int) =~= before.skip(i + 1));
                assert(before.skip(i + 1) =~= before.skip(i as int).skip(1));
                assert(orig.skip(k + 1) =~= orig.skip(k).skip(1));
                k = k + 1;
            }
        } else {
            proof {
                let after = edge_views(edges@);
                assert(after.take(i + 1) =~= before.take(i as int).push(before[i as int]));
                assert(after.skip(i + 1) =~= before.skip(i as int).skip(1));
                assert(orig.skip(k + 1) =~= orig.skip(k).skip(1));
                k = k + 1;
            }
            i = i + 1;
        }
    }
    proof {
        assert(edge_views(edges@).skip(i as int).len() == 0);
        assert(orig.skip(k).len() == 0);
        assert(orig.take(k) =~= orig);
        assert(edge_views(edges@).take(i as int) =~= edge_views(edges@));
    }
}

/// A diagnostic as text.
#[verifier::ext_equal]
pub struct DiagnosticView {
    pub code: Seq<char>,
    pub severity: Severity,
    pub node: Option<Seq<char>>,
    pub edge: Option<Seq<char>>,
    pub detail: Seq<char>,
    pub repair_hint: Option<Seq<char>>,
}

#[derive(Clone, Debug)]
pub struct Diagnostic {
    pub code: String,
    pub severity: Severity,
    pub node: Option<String>,
    pub edge: Option<String>,
    pub detail: String,
    pub repair_hint: Option<String>,
}

impl View for Diagnostic {
    type V = DiagnosticView;

    open spec fn view(&self) -> DiagnosticView {
        DiagnosticView {
            code: self.code@,
            severity: self.severity,
            node: opt_text(self.node),
            edge: opt_text(self.edge),
            detail: self.detail@,
            repair_hint: opt_text(self.repair_hint),
        }
    }
}

pub open spec fn diagnostic_views(v: Seq<Diagnostic>) -> Seq<DiagnosticView> {
    v.map_values(|d: Diagnostic| d@)
}

pub open spec fn opt_lit(o: Option<&str>) -> Option<Seq<char>> {
    match o {
        Some(s) => Some(s@),
        None => None,
    }
}

/// A diagnostic of the given severity built from literal text.
pub open spec fn diagnostic_lit(
    code: &str,
    severity: Severity,
    node: Option<&str>,
    edge: Option<&str>,
    detail: &str,
    repair_hint: Option<&str>,
) -> DiagnosticView {
    DiagnosticView {
        code: code@,
        severity,
        node: opt_lit(node),
        edge: opt_lit(edge),
        detail: detail@,
        repair_hint: opt_lit(repair_hint),
    }
}

/// A fatal diagnostic without a repair hint.
pub fn fatal(code: &str, node: Option<&str>, edge: Option<&str>, detail: &str) -> (d: Diagnostic)
    ensures
        d@ == diagnostic_lit(code, Severity::Fatal, node, edge, detail, None),
{
    Diagnostic {
        code: owned(code),
        severity: Severity::Fatal,
        node: owned_opt(node),
        edge: owned_opt(edge),
        detail: owned(detail),
        repair_hint: None,
    }
}

/// A fatal diagnostic with a repair hint.
pub fn fatal_with_hint(
    code: &str,
    node: Option<&str>,
    edge: Option<&str>,
    detail: &str,
    repair_hint: &str,
) -> (d: Diagnostic)
    ensures
        d@ == diagnostic_lit(code, Severity::Fatal, node, edge, detail, Some(repair_hint)),
{
    Diagnostic {
        code: owned(code),
        severity: Severity::Fatal,
        node: owned_opt(node),
        edge: owned_opt(edge),
        detail: owned(detail),
        repair_hint: Some(owned(repair_hint)),
    }
}

/// A warning with a repair hint.
pub fn warning_with_hint(
    code: &str,
    node: Option<&str>,
    edge: Option<&str>,
    detail: &str,
    repair_hint: &str,
) -> (d: Diagnostic)
    ensures
        d@ == diagnostic_lit(code, Severity::Warning, node, edge, detail, Some(repair_hint)),
{
    Diagnostic {
        code: owned(code),
        severity: Severity::Warning,
        node: owned_opt(node),
        edge: owned_opt(edge),
        detail: owned(detail),
        repair_hint: Some(owned(repair_hint)),
    }
}

} // verus!
