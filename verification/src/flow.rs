//! Item-aware flow over an intent graph: which nodes a player can reach from
//! the start nodes holding a given set of items.

use vstd::prelude::*;

use crate::geometry_validation::contains_text;
use crate::model::{edge_views, node_views, texts, Candidate, Edge, EdgeView, NodeKind, NodeView};
use crate::text_set::{insert_text, lemma_sorted_texts, sorted_texts, texts_sorted};

verus! {

/// An edge can be crossed with `items`: it needs no item, or one in `items`.
pub open spec fn edge_open(e: EdgeView, items: Seq<Seq<char>>) -> bool {
    match e.required_item {
        None => true,
        Some(item) => items.contains(item),
    }
}

/// `s` holds every start node and is closed under crossing the edges that
/// `items` open.
pub open spec fn flow_closed(
    nodes: Seq<NodeView>,
    edges: Seq<EdgeView>,
    items: Seq<Seq<char>>,
    s: Set<Seq<char>>,
) -> bool {
    &&& forall|i: int|
        0 <= i < nodes.len() && #[trigger] nodes[i].kind == NodeKind::Start ==> s.contains(
            nodes[i].id,
        )
    &&& forall|j: int|
        0 <= j < edges.len() && s.contains(#[trigger] edges[j].from) && edge_open(edges[j], items)
            ==> s.contains(edges[j].to)
}

/// The node ids reachable from the start nodes over open edges: the least
/// set that `flow_closed` admits.
pub open spec fn reachable_set(
    nodes: Seq<NodeView>,
    edges: Seq<EdgeView>,
    items: Seq<Seq<char>>,
) -> Set<Seq<char>> {
    Set::new(
        |x: Seq<char>|
            forall|s: Set<Seq<char>>| #[trigger] flow_closed(nodes, edges, items, s) ==> s.contains(x),
    )
}

/// Whether an edge can be crossed holding `items`.
pub fn edge_open_for_items(edge: &Edge, items: &Vec<String>) -> (r: bool)
    ensures
        r == edge_open(edge@, texts(items@)),
{
    match &edge.required_item {
        None => true,
        Some(item) => contains_text(items, item.as_str()),
    }
}

/// How many edges lead to an id outside `s`.
pub open spec fn edges_left_out(edges: Seq<EdgeView>, s: Seq<Seq<char>>) -> nat
    decreases edges.len(),
{
    if edges.len() == 0 {
        0
    } else {
        edges_left_out(edges.drop_last(), s) + if s.contains(edges.last().to) {
            0nat
        } else {
            1nat
        }
    }
}

proof fn lemma_unreached_shrinks(edges: Seq<EdgeView>, a: Seq<Seq<char>>, b: Seq<Seq<char>>)
    requires
        forall|x: Seq<char>| a.contains(x) ==> b.contains(x),
    ensures
        edges_left_out(edges, b) <= edges_left_out(edges, a),
        (exists|j: int|
            0 <= j < edges.len() && !a.contains(#[trigger] edges[j].to) && b.contains(edges[j].to))
            ==> edges_left_out(edges, b) < edges_left_out(edges, a),
    decreases edges.len(),
{
    if edges.len() > 0 {
        let d = edges.drop_last();
        lemma_unreached_shrinks(d, a, b);
        if exists|j: int|
            0 <= j < edges.len() && !a.contains(#[trigger] edges[j].to) && b.contains(edges[j].to) {
            let j = choose|j: int|
                0 <= j < edges.len() && !a.contains(#[trigger] edges[j].to) && b.contains(
                    edges[j].to,
                );
            if j < edges.len() - 1 {
                assert(d[j] == edges[j]);
            }
        }
    }
}

/// Every set that `flow_closed` admits holds all of `out`.
pub open spec fn below_every_closed(
    nodes: Seq<NodeView>,
    edges: Seq<EdgeView>,
    items: Seq<Seq<char>>,
    out: Seq<Seq<char>>,
) -> bool {
    forall|s: Set<Seq<char>>| #[trigger]
        flow_closed(nodes, edges, items, s) ==> forall|x: Seq<char>|
            out.contains(x) ==> s.contains(x)
}

/// The node ids reachable from the start nodes over the edges that `items`
/// open, in increasing order.
pub fn source_reachable_nodes(candidate: &Candidate, items: &Vec<String>) -> (r: Vec<String>)
    ensures
        texts(r@) == sorted_texts(
            reachable_set(
                node_views(candidate.graph.nodes@),
                edge_views(candidate.graph.edges@),
                texts(items@),
            ),
        ),
{
    let nodes = &candidate.graph.nodes;
    let edges = &candidate.graph.edges;
    let ghost nv = node_views(nodes@);
    let ghost ev = edge_views(edges@);
    let ghost iv = texts(items@);
    let mut out: Vec<String> = Vec::new();
    assert(texts(out@) =~= Seq::<Seq<char>>::empty());
    let mut i: usize = 0;
    while i < nodes.len()
        invariant
            i <= nodes@.len(),
            nv == node_views(nodes@),
            texts_sorted(texts(out@)),
            below_every_closed(nv, ev, iv, texts(out@)),
            forall|m: int|
                0 <= m < i && #[trigger] nv[m].kind == NodeKind::Start ==> texts(out@).contains(
                    nv[m].id,
                ),
        decreases nodes@.len() - i,
    {
        if nodes[i].kind == NodeKind::Start {
            let ghost prev = texts(out@);
            insert_text(&mut out, nodes[i].id.clone());
            proof {
                assert(nv[i as int].id == nodes@[i as int].id@);
                assert forall|s: Set<Seq<char>>| #[trigger]
                    flow_closed(nv, ev, iv, s) implies forall|x: Seq<char>|
                    texts(out@).contains(x) ==> s.contains(x) by {
                    assert(nv[i as int].kind == NodeKind::Start);
                }
            }
        }
        i = i + 1;
    }
    loop
        invariant
            nv == node_views(nodes@),
            ev == edge_views(edges@),
            iv == texts(items@),
            texts_sorted(texts(out@)),
            below_every_closed(nv, ev, iv, texts(out@)),
            forall|m: int|
                0 <= m < nv.len() && #[trigger] nv[m].kind == NodeKind::Start ==> texts(
                    out@,
                ).contains(nv[m].id),
        ensures
            texts_sorted(texts(out@)),
            below_every_closed(nv, ev, iv, texts(out@)),
            flow_closed(nv, ev, iv, texts(out@).to_set()),
        decreases edges_left_out(ev, texts(out@)),
    {
        let ghost pass_start = texts(out@);
        let mut changed = false;
        let mut j: usize = 0;
        while j < edges.len()
            invariant
                j <= edges@.len(),
                nv == node_views(nodes@),
                ev == edge_views(edges@),
                iv == texts(items@),
                texts_sorted(texts(out@)),
                below_every_closed(nv, ev, iv, texts(out@)),
                forall|m: int|
                    0 <= m < nv.len() && #[trigger] nv[m].kind == NodeKind::Start ==> texts(
                        out@,
                    ).contains(nv[m].id),
                forall|x: Seq<char>| pass_start.contains(x) ==> texts(out@).contains(x),
                !changed ==> texts(out@) == pass_start,
                !changed ==> forall|k: int|
                    0 <= k < j && texts(out@).contains(#[trigger] ev[k].from) && edge_open(
                        ev[k],
                        iv,
                    ) ==> texts(out@).contains(ev[k].to),
                changed ==> exists|k: int|
                    0 <= k < ev.len() && !pass_start.contains(#[trigger] ev[k].to) && texts(
                        out@,
                    ).contains(ev[k].to),
            decreases edges@.len() - j,
        {
            let edge = &edges[j];
            assert(ev[j as int] == edge@);
            if contains_text(&out, edge.from.as_str()) && edge_open_for_items(edge, items) {
                let ghost prev = texts(out@);
                let inserted = insert_text(&mut out, edge.to.clone());
                proof {
                    assert forall|s: Set<Seq<char>>| #[trigger]
                        flow_closed(nv, ev, iv, s) implies forall|x: Seq<char>|
                        texts(out@).contains(x) ==> s.contains(x) by {
                        assert(prev.contains(ev[j as int].from));
                        assert(s.contains(ev[j as int].from));
                    }
                    if inserted {
                        if !changed {
                            assert(!pass_start.contains(ev[j as int].to));
                        }
                        assert(texts(out@).contains(ev[j as int].to));
                    } else {
                        assert(texts(out@) =~= prev) by {
                            assert forall|x: Seq<char>| #[trigger]
                                texts(out@).contains(x) == prev.contains(x) by {}
                            crate::text_set::lemma_sorted_texts_eq(texts(out@), prev);
                        }
                    }
                }
                if inserted {
                    changed = true;
                }
            }
            j = j + 1;
        }
        if !changed {
            proof {
                let s = texts(out@).to_set();
                assert forall|k: int|
                    0 <= k < ev.len() && s.contains(#[trigger] ev[k].from) && edge_open(ev[k], iv)
                        implies s.contains(ev[k].to) by {
                    assert(texts(out@).contains(ev[k].from));
                }
                assert forall|m: int|
                    0 <= m < nv.len() && #[trigger] nv[m].kind == NodeKind::Start implies s.contains(
                    nv[m].id,
                ) by {
                    assert(texts(out@).contains(nv[m].id));
                }
            }
            break;
        }
        proof {
            lemma_unreached_shrinks(ev, pass_start, texts(out@));
        }
    }
    proof {
        let g = reachable_set(nv, ev, iv);
        let own = texts(out@).to_set();
        assert forall|x: Seq<char>| #[trigger] texts(out@).contains(x) <==> g.contains(x) by {
            if texts(out@).contains(x) {
                assert forall|s: Set<Seq<char>>| #[trigger]
                    flow_closed(nv, ev, iv, s) implies s.contains(x) by {}
            }
            if g.contains(x) {
                assert(flow_closed(nv, ev, iv, own));
                assert(own.contains(x));
            }
        }
        lemma_sorted_texts(g, texts(out@));
    }
    out
}

/// Holding more items never makes a node unreachable: the reachable set
/// grows with the item set.
pub proof fn lemma_reachable_grows_with_items(
    nodes: Seq<NodeView>,
    edges: Seq<EdgeView>,
    items: Seq<Seq<char>>,
    more: Seq<Seq<char>>,
)
    requires
        forall|x: Seq<char>| items.contains(x) ==> more.contains(x),
    ensures
        reachable_set(nodes, edges, items).subset_of(reachable_set(nodes, edges, more)),
{
    assert forall|x: Seq<char>| #[trigger]
        reachable_set(nodes, edges, items).contains(x) implies reachable_set(
        nodes,
        edges,
        more,
    ).contains(x) by {
        assert forall|s: Set<Seq<char>>| #[trigger] flow_closed(nodes, edges, more, s) implies s.contains(
            x,
        ) by {
            assert forall|j: int|
                0 <= j < edges.len() && s.contains(#[trigger] edges[j].from) && edge_open(
                    edges[j],
                    items,
                ) implies s.contains(edges[j].to) by {
                if let Some(item) = edges[j].required_item {
                    assert(items.contains(item));
                }
            }
            assert(flow_closed(nodes, edges, items, s));
        }
    }
}

} // verus!
