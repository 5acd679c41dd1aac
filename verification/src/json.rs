//! The canonical compact JSON of artifacts, whose FNV-1a hashes are their
//! state hashes: object fields in declaration order with camelCase names,
//! enum variants as snake_case strings, absent options as `null`, no
//! whitespace.

use vstd::prelude::*;
use vstd::string::*;
use vstd::utf8::encode_utf8;

use crate::model::{
    edge_kind_text, edge_views, node_kind_text, node_views, opt_text, provenance_views, texts,
    traversal_text, Candidate, Edge, EdgeView, Node, NodeView, ProvenanceStep, ProvenanceView,
};
use crate::text::{
    dec_bytes, fnv1a64, fnv1a64_spec, format_hash, hash_text, json_string, push_dec,
    push_json_str, push_raw,
};

verus! {

pub open spec fn lit(s: &str) -> Seq<u8> {
    s.spec_bytes()
}

/// A JSON string holding the text `s`.
pub open spec fn text_json(s: Seq<char>) -> Seq<u8> {
    json_string(encode_utf8(s))
}

/// The hash text of a byte string.
pub open spec fn hash_of(bytes: Seq<u8>) -> Seq<char> {
    hash_text(fnv1a64_spec(bytes))
}

/// The encodings of the items of `s`, separated by commas.
pub open spec fn join_items<T>(s: Seq<T>, f: spec_fn(T) -> Seq<u8>) -> Seq<u8>
    decreases s.len(),
{
    if s.len() == 0 {
        Seq::empty()
    } else if s.len() == 1 {
        f(s[0])
    } else {
        join_items(s.drop_last(), f) + lit(",") + f(s.last())
    }
}

pub proof fn lemma_join_push<T>(s: Seq<T>, i: int, f: spec_fn(T) -> Seq<u8>)
    requires
        0 <= i < s.len(),
    ensures
        join_items(s.take(i + 1), f) == (if i == 0 {
            f(s[0])
        } else {
            join_items(s.take(i), f) + lit(",") + f(s[i])
        }),
{
    let next = s.take(i + 1);
    assert(next.drop_last() =~= s.take(i));
    assert(next.last() == s[i]);
    if i == 0 {
        assert(next[0] == s[0]);
    }
}

pub open spec fn text_item(s: Seq<char>) -> Seq<u8> {
    text_json(s)
}

/// A JSON array of strings.
pub open spec fn texts_json(s: Seq<Seq<char>>) -> Seq<u8> {
    lit("[") + join_items(s, |t: Seq<char>| text_item(t)) + lit("]")
}

/// `null`, or a JSON string.
pub open spec fn opt_text_json(o: Option<Seq<char>>) -> Seq<u8> {
    match o {
        None => lit("null"),
        Some(t) => text_json(t),
    }
}

pub open spec fn opt_u64_json(o: Option<u64>) -> Seq<u8> {
    match o {
        None => lit("null"),
        Some(n) => dec_bytes(n as nat),
    }
}

pub fn push_text(out: &mut Vec<u8>, s: &String)
    ensures
        final(out)@ == old(out)@ + text_json(s@),
{
    push_json_str(out, s.as_str());
}

pub fn push_opt_text(out: &mut Vec<u8>, o: &Option<String>)
    ensures
        final(out)@ == old(out)@ + opt_text_json(opt_text(*o)),
{
    match o {
        None => push_raw(out, "null"),
        Some(s) => push_text(out, s),
    }
}

pub fn push_opt_u64(out: &mut Vec<u8>, o: Option<u64>)
    ensures
        final(out)@ == old(out)@ + opt_u64_json(o),
{
    match o {
        None => push_raw(out, "null"),
        Some(n) => push_dec(out, n),
    }
}

pub fn push_texts(out: &mut Vec<u8>, v: &Vec<String>)
    ensures
        final(out)@ == old(out)@ + texts_json(texts(v@)),
{
    let ghost tv = texts(v@);
    push_raw(out, "[");
    let ghost start = out@;
    let mut i: usize = 0;
    while i < v.len()
        invariant
            i <= v@.len(),
            tv == texts(v@),
            out@ == start + join_items(tv.take(i as int), |t: Seq<char>| text_item(t)),
        decreases v@.len() - i,
    {
        proof {
            lemma_join_push(tv, i as int, |t: Seq<char>| text_item(t));
        }
        if i > 0 {
            push_raw(out, ",");
        }
        push_text(out, &v[i]);
        i = i + 1;
        assert(out@ =~= start + join_items(tv.take(i as int), |t: Seq<char>| text_item(t)));
    }
    assert(tv.take(v@.len() as int) =~= tv);
    push_raw(out, "]");
    assert(final(out)@ =~= old(out)@ + texts_json(tv));
}

pub open spec fn node_json(n: NodeView) -> Seq<u8> {
    lit("{\"id\":") + text_json(n.id) + lit(",\"kind\":") + text_json(node_kind_text(n.kind)@)
        + lit(",\"label\":") + text_json(n.label) + lit(",\"tags\":") + texts_json(n.tags) + lit(
        ",\"grantsItem\":",
    ) + opt_text_json(n.grants_item) + lit("}")
}

pub open spec fn edge_json(e: EdgeView) -> Seq<u8> {
    lit("{\"id\":") + text_json(e.id) + lit(",\"from\":") + text_json(e.from) + lit(",\"to\":")
        + text_json(e.to) + lit(",\"kind\":") + text_json(edge_kind_text(e.kind)@) + lit(
        ",\"traversal\":",
    ) + text_json(traversal_text(e.traversal)@) + lit(",\"requiredItem\":") + opt_text_json(
        e.required_item,
    ) + lit(",\"tags\":") + texts_json(e.tags) + lit("}")
}

pub open spec fn provenance_json(p: ProvenanceView) -> Seq<u8> {
    lit("{\"step\":") + dec_bytes(p.step as nat) + lit(",\"command\":") + text_json(p.command)
        + lit(",\"seed\":") + opt_u64_json(p.seed) + lit(",\"summary\":") + text_json(p.summary)
        + lit("}")
}

pub open spec fn nodes_json(s: Seq<NodeView>) -> Seq<u8> {
    lit("[") + join_items(s, |n: NodeView| node_json(n)) + lit("]")
}

pub open spec fn edges_json(s: Seq<EdgeView>) -> Seq<u8> {
    lit("[") + join_items(s, |e: EdgeView| edge_json(e)) + lit("]")
}

pub open spec fn provenance_list_json(s: Seq<ProvenanceView>) -> Seq<u8> {
    lit("[") + join_items(s, |p: ProvenanceView| provenance_json(p)) + lit("]")
}

/// The canonical JSON of a candidate.
pub open spec fn candidate_json(c: Candidate) -> Seq<u8> {
    lit("{\"kind\":") + text_json(c.kind@) + lit(",\"schemaVersion\":") + dec_bytes(
        c.schema_version as nat,
    ) + lit(",\"candidateId\":") + text_json(c.candidate_id@) + lit(",\"seed\":") + dec_bytes(
        c.seed as nat,
    ) + lit(",\"dimensionModel\":") + text_json(c.dimension_model@) + lit(",\"sourceIntent\":")
        + opt_text_json(opt_text(c.source_intent)) + lit(",\"provenance\":")
        + provenance_list_json(provenance_views(c.provenance@)) + lit(
        ",\"graph\":{\"nodes\":",
    ) + nodes_json(node_views(c.graph.nodes@)) + lit(",\"edges\":") + edges_json(
        edge_views(c.graph.edges@),
    ) + lit("}}")
}

fn push_name(out: &mut Vec<u8>, name: &str)
    ensures
        final(out)@ == old(out)@ + text_json(name@),
{
    push_json_str(out, name);
}

fn push_node(out: &mut Vec<u8>, n: &Node)
    ensures
        final(out)@ == old(out)@ + node_json(n@),
{
    push_raw(out, "{\"id\":");
    push_text(out, &n.id);
    push_raw(out, ",\"kind\":");
    push_name(out, n.kind.as_str());
    push_raw(out, ",\"label\":");
    push_text(out, &n.label);
    push_raw(out, ",\"tags\":");
    push_texts(out, &n.tags);
    push_raw(out, ",\"grantsItem\":");
    push_opt_text(out, &n.grants_item);
    push_raw(out, "}");
    assert(final(out)@ =~= old(out)@ + node_json(n@));
}

fn push_edge(out: &mut Vec<u8>, e: &Edge)
    ensures
        final(out)@ == old(out)@ + edge_json(e@),
{
    push_raw(out, "{\"id\":");
    push_text(out, &e.id);
    push_raw(out, ",\"from\":");
    push_text(out, &e.from);
    push_raw(out, ",\"to\":");
    push_text(out, &e.to);
    push_raw(out, ",\"kind\":");
    push_name(out, e.kind.as_str());
    push_raw(out, ",\"traversal\":");
    push_name(out, e.traversal.as_str());
    push_raw(out, ",\"requiredItem\":");
    push_opt_text(out, &e.required_item);
    push_raw(out, ",\"tags\":");
    push_texts(out, &e.tags);
    push_raw(out, "}");
    assert(final(out)@ =~= old(out)@ + edge_json(e@));
}

fn push_provenance_step(out: &mut Vec<u8>, p: &ProvenanceStep)
    ensures
        final(out)@ == old(out)@ + provenance_json(p@),
{
    push_raw(out, "{\"step\":");
    push_dec(out, p.step as u64);
    push_raw(out, ",\"command\":");
    push_text(out, &p.command);
    push_raw(out, ",\"seed\":");
    push_opt_u64(out, p.seed);
    push_raw(out, ",\"summary\":");
    push_text(out, &p.summary);
    push_raw(out, "}");
    assert(final(out)@ =~= old(out)@ + provenance_json(p@));
}

fn push_nodes(out: &mut Vec<u8>, v: &Vec<Node>)
    ensures
        final(out)@ == old(out)@ + nodes_json(node_views(v@)),
{
    let ghost nv = node_views(v@);
    push_raw(out, "[");
    let ghost start = out@;
    let mut i: usize = 0;
    while i < v.len()
        invariant
            i <= v@.len(),
            nv == node_views(v@),
            out@ == start + join_items(nv.take(i as int), |n: NodeView| node_json(n)),
        decreases v@.len() - i,
    {
        proof {
            lemma_join_push(nv, i as int, |n: NodeView| node_json(n));
        }
        if i > 0 {
            push_raw(out, ",");
        }
        push_node(out, &v[i]);
        i = i + 1;
        assert(out@ =~= start + join_items(nv.take(i as int), |n: NodeView| node_json(n)));
    }
    assert(nv.take(v@.len() as int) =~= nv);
    push_raw(out, "]");
    assert(final(out)@ =~= old(out)@ + nodes_json(nv));
}

fn push_edges(out: &mut Vec<u8>, v: &Vec<Edge>)
    ensures
        final(out)@ == old(out)@ + edges_json(edge_views(v@)),
{
    let ghost ev = edge_views(v@);
    push_raw(out, "[");
    let ghost start = out@;
    let mut i: usize = 0;
    while i < v.len()
        invariant
            i <= v@.len(),
            ev == edge_views(v@),
            out@ == start + join_items(ev.take(i as int), |e: EdgeView| edge_json(e)),
        decreases v@.len() - i,
    {
        proof {
            lemma_join_push(ev, i as int, |e: EdgeView| edge_json(e));
        }
        if i > 0 {
            push_raw(out, ",");
        }
        push_edge(out, &v[i]);
        i = i + 1;
        assert(out@ =~= start + join_items(ev.take(i as int), |e: EdgeView| edge_json(e)));
    }
    assert(ev.take(v@.len() as int) =~= ev);
    push_raw(out, "]");
    assert(final(out)@ =~= old(out)@ + edges_json(ev));
}

fn push_provenance(out: &mut Vec<u8>, v: &Vec<ProvenanceStep>)
    ensures
        final(out)@ == old(out)@ + provenance_list_json(provenance_views(v@)),
{
    let ghost pv = provenance_views(v@);
    push_raw(out, "[");
    let ghost start = out@;
    let mut i: usize = 0;
    while i < v.len()
        invariant
            i <= v@.len(),
            pv == provenance_views(v@),
            out@ == start + join_items(pv.take(i as int), |p: ProvenanceView| provenance_json(p)),
        decreases v@.len() - i,
    {
        proof {
            lemma_join_push(pv, i as int, |p: ProvenanceView| provenance_json(p));
        }
        if i > 0 {
            push_raw(out, ",");
        }
        push_provenance_step(out, &v[i]);
        i = i + 1;
        assert(out@ =~= start + join_items(
            pv.take(i as int),
            |p: ProvenanceView| provenance_json(p),
        ));
    }
    assert(pv.take(v@.len() as int) =~= pv);
    push_raw(out, "]");
    assert(final(out)@ =~= old(out)@ + provenance_list_json(pv));
}

/// The canonical JSON bytes of a candidate.
pub fn candidate_bytes(c: &Candidate) -> (r: Vec<u8>)
    ensures
        r@ == candidate_json(*c),
{
    let mut out: Vec<u8> = Vec::new();
    push_raw(&mut out, "{\"kind\":");
    push_text(&mut out, &c.kind);
    push_raw(&mut out, ",\"schemaVersion\":");
    push_dec(&mut out, c.schema_version as u64);
    push_raw(&mut out, ",\"candidateId\":");
    push_text(&mut out, &c.candidate_id);
    push_raw(&mut out, ",\"seed\":");
    push_dec(&mut out, c.seed);
    push_raw(&mut out, ",\"dimensionModel\":");
    push_text(&mut out, &c.dimension_model);
    push_raw(&mut out, ",\"sourceIntent\":");
    push_opt_text(&mut out, &c.source_intent);
    push_raw(&mut out, ",\"provenance\":");
    push_provenance(&mut out, &c.provenance);
    push_raw(&mut out, ",\"graph\":{\"nodes\":");
    push_nodes(&mut out, &c.graph.nodes);
    push_raw(&mut out, ",\"edges\":");
    push_edges(&mut out, &c.graph.edges);
    push_raw(&mut out, "}}");
    assert(out@ =~= candidate_json(*c));
    out
}

/// The state hash of a candidate: the hash text of its canonical JSON.
pub fn hash_candidate(c: &Candidate) -> (h: String)
    ensures
        h@ == hash_of(candidate_json(*c)),
{
    let bytes = candidate_bytes(c);
    format_hash(fnv1a64(bytes.as_slice()))
}

} // verus!
