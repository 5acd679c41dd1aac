//! Structural fingerprints of intent graphs, which tell batch members with
//! the same topology apart from those that merely share a seed, and the set
//! of tags a graph uses.

use vstd::prelude::*;
use vstd::utf8::encode_utf8;

use crate::catalog::copy_texts;
use crate::model::{
    edge_views, node_kind_text, node_views, texts, Candidate, Edge, EdgeKind, EdgeView, Node,
    NodeView, TraversalKind,
};
use crate::sorting::{sort_by_key, sorted_by_key, views};
use crate::text_set::{insert_text, sorted_texts, texts_sorted, lemma_sorted_texts};
use crate::text::{dec_text, fnv1a64, fnv1a64_spec, hex_digits, push_dec_text, push_hex_digits, push_raw};

verus! {

/// The name that `{:?}` prints for an edge kind.
pub open spec fn edge_kind_name(k: EdgeKind) -> &'static str {
    match k {
        EdgeKind::CriticalPath => "CriticalPath",
        EdgeKind::KeyBranch => "KeyBranch",
        EdgeKind::OptionalBranch => "OptionalBranch",
        EdgeKind::Shortcut => "Shortcut",
        EdgeKind::SecretBypass => "SecretBypass",
    }
}

/// The name that `{:?}` prints for a traversal kind.
pub open spec fn traversal_name(k: TraversalKind) -> &'static str {
    match k {
        TraversalKind::Open => "Open",
        TraversalKind::Locked => "Locked",
        TraversalKind::OneWayReturn => "OneWayReturn",
        TraversalKind::Hidden => "Hidden",
    }
}

fn edge_kind_debug(k: EdgeKind) -> (r: &'static str)
    ensures
        r == edge_kind_name(k),
{
    match k {
        EdgeKind::CriticalPath => "CriticalPath",
        EdgeKind::KeyBranch => "KeyBranch",
        EdgeKind::OptionalBranch => "OptionalBranch",
        EdgeKind::Shortcut => "Shortcut",
        EdgeKind::SecretBypass => "SecretBypass",
    }
}

fn traversal_debug(k: TraversalKind) -> (r: &'static str)
    ensures
        r == traversal_name(k),
{
    match k {
        TraversalKind::Open => "Open",
        TraversalKind::Locked => "Locked",
        TraversalKind::OneWayReturn => "OneWayReturn",
        TraversalKind::Hidden => "Hidden",
    }
}

/// How many edges end at `id`.
pub open spec fn count_into(edges: Seq<EdgeView>, id: Seq<char>) -> nat
    decreases edges.len(),
{
    if edges.len() == 0 {
        0
    } else {
        count_into(edges.drop_last(), id) + if edges.last().to == id {
            1nat
        } else {
            0nat
        }
    }
}

/// How many edges start at `id`.
pub open spec fn count_out_of(edges: Seq<EdgeView>, id: Seq<char>) -> nat
    decreases edges.len(),
{
    if edges.len() == 0 {
        0
    } else {
        count_out_of(edges.drop_last(), id) + if edges.last().from == id {
            1nat
        } else {
            0nat
        }
    }
}

/// The texts joined by commas.
pub open spec fn join_commas(s: Seq<Seq<char>>) -> Seq<char>
    decreases s.len(),
{
    if s.len() == 0 {
        Seq::empty()
    } else if s.len() == 1 {
        s[0]
    } else {
        join_commas(s.drop_last()) + ","@ + s.last()
    }
}

/// The tags of a node or edge, sorted and joined by commas.
pub open spec fn tags_text(tags: Seq<Seq<char>>) -> Seq<char> {
    join_commas(sorted_by_key::<String>(tags))
}

/// `node:<kind>:<incoming>:<outgoing>:<sorted tags>`.
pub open spec fn node_line(n: NodeView, edges: Seq<EdgeView>) -> Seq<char> {
    "node:"@ + node_kind_text(n.kind)@ + ":"@ + dec_text(count_into(edges, n.id)) + ":"@
        + dec_text(count_out_of(edges, n.id)) + ":"@ + tags_text(n.tags)
}

/// `edge:<kind>:<traversal>:required=<bool>:<sorted tags>`, the kinds as
/// `{:?}` prints them.
pub open spec fn edge_line(e: EdgeView) -> Seq<char> {
    "edge:"@ + edge_kind_name(e.kind)@ + ":"@ + traversal_name(e.traversal)@ + ":required="@
        + (if e.required_item is Some {
        "true"@
    } else {
        "false"@
    }) + ":"@ + tags_text(e.tags)
}

/// One line per node, then one per edge, in graph order.
pub open spec fn fingerprint_lines(nodes: Seq<NodeView>, edges: Seq<EdgeView>) -> Seq<Seq<char>> {
    nodes.map_values(|n: NodeView| node_line(n, edges)) + edges.map_values(
        |e: EdgeView| edge_line(e),
    )
}

/// The UTF-8 bytes of the lines joined by newlines.
pub open spec fn join_lines_bytes(s: Seq<Seq<char>>) -> Seq<u8>
    decreases s.len(),
{
    if s.len() == 0 {
        Seq::empty()
    } else if s.len() == 1 {
        encode_utf8(s[0])
    } else {
        join_lines_bytes(s.drop_last()) + seq![10u8] + encode_utf8(s.last())
    }
}

/// `topology:` and the 16 hexadecimal digits of the FNV-1a hash of the
/// sorted lines joined by newlines.
pub open spec fn topology_fingerprint_spec(c: Candidate) -> Seq<char> {
    let lines = fingerprint_lines(node_views(c.graph.nodes@), edge_views(c.graph.edges@));
    "topology:"@ + hex_digits(fnv1a64_spec(join_lines_bytes(sorted_by_key::<String>(lines))) as nat, 16)
}

fn count_edges(edges: &Vec<Edge>, id: &str) -> (r: (u64, u64))
    ensures
        r.0 == count_into(edge_views(edges@), id@),
        r.1 == count_out_of(edge_views(edges@), id@),
{
    let ghost ev = edge_views(edges@);
    let mut into: usize = 0;
    let mut out_of: usize = 0;
    let mut i: usize = 0;
    while i < edges.len()
        invariant
            i <= edges@.len(),
            ev == edge_views(edges@),
            into == count_into(ev.take(i as int), id@),
            out_of == count_out_of(ev.take(i as int), id@),
            into <= i,
            out_of <= i,
        decreases edges@.len() - i,
    {
        proof {
            assert(ev.take(i + 1).drop_last() =~= ev.take(i as int));
            assert(ev.take(i + 1).last() == edges@[i as int]@);
        }
        if crate::text::str_eq(edges[i].to.as_str(), id) {
            into = into + 1;
        }
        if crate::text::str_eq(edges[i].from.as_str(), id) {
            out_of = out_of + 1;
        }
        i = i + 1;
    }
    assert(ev.take(edges@.len() as int) =~= ev);
    (into as u64, out_of as u64)
}

proof fn lemma_join_commas_push(s: Seq<Seq<char>>, i: int)
    requires
        0 <= i < s.len(),
    ensures
        join_commas(s.take(i + 1)) == (if i == 0 {
            s[0]
        } else {
            join_commas(s.take(i)) + ","@ + s[i]
        }),
{
    let next = s.take(i + 1);
    assert(next.drop_last() =~= s.take(i));
    assert(next.last() == s[i]);
    if i == 0 {
        assert(next[0] == s[0]);
    }
}

/// Appends the texts joined by commas.
fn push_joined(s: &mut String, items: &Vec<String>)
    ensures
        final(s)@ == old(s)@ + join_commas(views(items@)),
{
    let ghost iv = views(items@);
    let ghost start = s@;
    let mut i: usize = 0;
    assert(iv.take(0) =~= Seq::<Seq<char>>::empty());
    while i < items.len()
        invariant
            i <= items@.len(),
            iv == views(items@),
            s@ == start + join_commas(iv.take(i as int)),
        decreases items@.len() - i,
    {
        proof {
            lemma_join_commas_push(iv, i as int);
        }
        if i > 0 {
            s.append(",");
        }
        s.append(items[i].as_str());
        i = i + 1;
    }
    assert(iv.take(items@.len() as int) =~= iv);
}

fn sorted_tags_text(s: &mut String, tags: &Vec<String>)
    ensures
        final(s)@ == old(s)@ + tags_text(texts(tags@)),
{
    let copy = copy_texts(tags);
    assert(views(copy@) =~= texts(copy@));
    assert(texts(tags@) =~= views(copy@));
    let sorted = sort_by_key(copy);
    push_joined(s, &sorted);
}

fn node_fingerprint_line(node: &Node, edges: &Vec<Edge>) -> (r: String)
    ensures
        r@ == node_line(node@, edge_views(edges@)),
{
    let mut s = String::from_str("node:");
    s.append(node.kind.as_str());
    s.append(":");
    let (into, out_of) = count_edges(edges, node.id.as_str());
    push_dec_text(&mut s, into);
    s.append(":");
    push_dec_text(&mut s, out_of);
    s.append(":");
    sorted_tags_text(&mut s, &node.tags);
    s
}

fn edge_fingerprint_line(edge: &Edge) -> (r: String)
    ensures
        r@ == edge_line(edge@),
{
    let mut s = String::from_str("edge:");
    s.append(edge_kind_debug(edge.kind));
    s.append(":");
    s.append(traversal_debug(edge.traversal));
    s.append(":required=");
    if edge.required_item.is_some() {
        s.append("true");
    } else {
        s.append("false");
    }
    s.append(":");
    sorted_tags_text(&mut s, &edge.tags);
    s
}

/// The structural fingerprint of a candidate's graph: for each node its
/// kind, in- and out-degree and sorted tags, for each edge its kinds,
/// whether it needs an item and its sorted tags; the lines sorted, joined
/// by newlines and hashed.
pub fn topology_fingerprint(candidate: &Candidate) -> (r: String)
    ensures
        r@ == topology_fingerprint_spec(*candidate),
{
    let nodes = &candidate.graph.nodes;
    let edges = &candidate.graph.edges;
    let ghost nv = node_views(nodes@);
    let ghost ev = edge_views(edges@);
    let ghost want = fingerprint_lines(nv, ev);
    let mut lines: Vec<String> = Vec::new();
    let mut i: usize = 0;
    while i < nodes.len()
        invariant
            i <= nodes@.len(),
            nv == node_views(nodes@),
            ev == edge_views(edges@),
            want == fingerprint_lines(nv, ev),
            views(lines@) == want.take(i as int),
        decreases nodes@.len() - i,
    {
        let line = node_fingerprint_line(&nodes[i], edges);
        let ghost prev = lines@;
        lines.push(line);
        proof {
            assert(want[i as int] == node_line(nodes@[i as int]@, ev));
            assert(views(lines@) =~= views(prev).push(line@));
            assert(want.take(i + 1) =~= want.take(i as int).push(want[i as int]));
        }
        i = i + 1;
    }
    let mut j: usize = 0;
    while j < edges.len()
        invariant
            j <= edges@.len(),
            nv == node_views(nodes@),
            ev == edge_views(edges@),
            want == fingerprint_lines(nv, ev),
            want.len() == nv.len() + ev.len(),
            views(lines@) == want.take(nv.len() + j),
        decreases edges@.len() - j,
    {
        let line = edge_fingerprint_line(&edges[j]);
        let ghost prev = lines@;
        lines.push(line);
        proof {
            assert(want[nv.len() + j] == edge_line(edges@[j as int]@));
            assert(views(lines@) =~= views(prev).push(line@));
            assert(want.take(nv.len() + j + 1) =~= want.take(nv.len() + j).push(
                want[nv.len() + j],
            ));
        }
        j = j + 1;
    }
    assert(want.take((nv.len() + ev.len()) as int) =~= want);
    let sorted = sort_by_key(lines);
    let ghost sv = views(sorted@);
    let mut bytes: Vec<u8> = Vec::new();
    let mut k: usize = 0;
    assert(sv.take(0) =~= Seq::<Seq<char>>::empty());
    while k < sorted.len()
        invariant
            k <= sorted@.len(),
            sv == views(sorted@),
            bytes@ == join_lines_bytes(sv.take(k as int)),
        decreases sorted@.len() - k,
    {
        proof {
            let next = sv.take(k + 1);
            assert(next.drop_last() =~= sv.take(k as int));
            assert(next.last() == sv[k as int]);
            if k == 0 {
                assert(next[0] == sv[0]);
            }
        }
        if k > 0 {
            bytes.push(10u8);
        }
        push_raw(&mut bytes, sorted[k].as_str());
        assert(bytes@ =~= join_lines_bytes(sv.take(k + 1)));
        k = k + 1;
    }
    assert(sv.take(sorted@.len() as int) =~= sv);
    let hash = fnv1a64(bytes.as_slice());
    let mut out = String::from_str("topology:");
    push_hex_digits(&mut out, hash, 16);
    out
}

/// Every tag that some node or edge of the graph carries.
pub open spec fn graph_tags(nodes: Seq<NodeView>, edges: Seq<EdgeView>) -> Set<Seq<char>> {
    Set::new(
        |t: Seq<char>|
            (exists|i: int| 0 <= i < nodes.len() && #[trigger] nodes[i].tags.contains(t)) || (
            exists|j: int| 0 <= j < edges.len() && #[trigger] edges[j].tags.contains(t)),
    )
}

fn insert_all(out: &mut Vec<String>, tags: &Vec<String>)
    requires
        texts_sorted(texts(old(out)@)),
    ensures
        texts_sorted(texts(final(out)@)),
        forall|x: Seq<char>| #[trigger]
            texts(final(out)@).contains(x) <==> (texts(old(out)@).contains(x) || texts(
                tags@,
            ).contains(x)),
{
    let ghost start = texts(out@);
    let ghost tv = texts(tags@);
    let mut k: usize = 0;
    while k < tags.len()
        invariant
            k <= tags@.len(),
            tv == texts(tags@),
            texts_sorted(texts(out@)),
            forall|x: Seq<char>| #[trigger]
                texts(out@).contains(x) <==> (start.contains(x) || tv.take(k as int).contains(x)),
        decreases tags@.len() - k,
    {
        let ghost prev = texts(out@);
        let t = tags[k].clone();
        insert_text(out, t);
        proof {
            assert(tv[k as int] == t@);
            assert forall|x: Seq<char>| #[trigger] texts(out@).contains(x) <==> (start.contains(x)
                || tv.take(k + 1).contains(x)) by {
                let t1 = tv.take(k + 1);
                let t0 = tv.take(k as int);
                if t1.contains(x) {
                    let m = choose|m: int| 0 <= m < t1.len() && #[trigger] t1[m] == x;
                    if m < k {
                        assert(t0[m] == x);
                    }
                }
                if t0.contains(x) {
                    let m = choose|m: int| 0 <= m < t0.len() && #[trigger] t0[m] == x;
                    assert(t1[m] == x);
                }
                if x == t@ {
                    assert(t1[k as int] == x);
                }
            }
        }
        k = k + 1;
    }
    assert(tv.take(tags@.len() as int) =~= tv);
}

/// Every tag of the graph's nodes and edges, once each, in increasing order.
pub fn collect_tags(candidate: &Candidate) -> (r: Vec<String>)
    ensures
        texts(r@) == sorted_texts(
            graph_tags(node_views(candidate.graph.nodes@), edge_views(candidate.graph.edges@)),
        ),
{
    let nodes = &candidate.graph.nodes;
    let edges = &candidate.graph.edges;
    let ghost nv = node_views(nodes@);
    let ghost ev = edge_views(edges@);
    let mut out: Vec<String> = Vec::new();
    assert(texts(out@) =~= Seq::<Seq<char>>::empty());
    let mut i: usize = 0;
    while i < nodes.len()
        invariant
            i <= nodes@.len(),
            nv == node_views(nodes@),
            texts_sorted(texts(out@)),
            forall|x: Seq<char>| #[trigger]
                texts(out@).contains(x) <==> exists|m: int|
                    0 <= m < i && #[trigger] nv[m].tags.contains(x),
        decreases nodes@.len() - i,
    {
        let ghost prev = texts(out@);
        insert_all(&mut out, &nodes[i].tags);
        proof {
            assert(nv[i as int].tags == texts(nodes@[i as int].tags@));
            assert forall|x: Seq<char>| #[trigger] texts(out@).contains(x) <==> exists|m: int|
                0 <= m < i + 1 && #[trigger] nv[m].tags.contains(x) by {
                if nv[i as int].tags.contains(x) {
                    assert(0 <= i < i + 1);
                }
                if prev.contains(x) {
                    let m = choose|m: int| 0 <= m < i && #[trigger] nv[m].tags.contains(x);
                    assert(0 <= m < i + 1);
                }
            }
        }
        i = i + 1;
    }
    let mut j: usize = 0;
    while j < edges.len()
        invariant
            j <= edges@.len(),
            nv == node_views(nodes@),
            ev == edge_views(edges@),
            texts_sorted(texts(out@)),
            forall|x: Seq<char>| #[trigger]
                texts(out@).contains(x) <==> ((exists|m: int|
                    0 <= m < nv.len() && #[trigger] nv[m].tags.contains(x)) || (exists|m: int|
                    0 <= m < j && #[trigger] ev[m].tags.contains(x))),
        decreases edges@.len() - j,
    {
        let ghost prev = texts(out@);
        insert_all(&mut out, &edges[j].tags);
        proof {
            assert(ev[j as int].tags == texts(edges@[j as int].tags@));
            assert forall|x: Seq<char>| #[trigger] texts(out@).contains(x) <==> ((exists|m: int|
                0 <= m < nv.len() && #[trigger] nv[m].tags.contains(x)) || (exists|m: int|
                0 <= m < j + 1 && #[trigger] ev[m].tags.contains(x))) by {
                if ev[j as int].tags.contains(x) {
                    assert(0 <= j < j + 1);
                }
                if exists|m: int| 0 <= m < j && #[trigger] ev[m].tags.contains(x) {
                    let m = choose|m: int| 0 <= m < j && #[trigger] ev[m].tags.contains(x);
                    assert(0 <= m < j + 1);
                }
            }
        }
        j = j + 1;
    }
    proof {
        let g = graph_tags(nv, ev);
        assert forall|x: Seq<char>| #[trigger] texts(out@).contains(x) <==> g.contains(x) by {}
        lemma_sorted_texts(g, texts(out@));
    }
    out
}

} // verus!
