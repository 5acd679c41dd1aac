//! Candidates: the initial two-node graph of a seed intent, forks under a
//! new label and seed, and the label slugs that fork identities carry.

use vstd::prelude::*;
use vstd::string::*;

use crate::graph::{edge_lit, make_edge, make_node, node_lit, push_edge, push_node};
use crate::model::{
    edge_views, node_views, opt_text, owned, provenance_views, Candidate, Edge, EdgeKind,
    IntentGraph, Node, NodeKind, ProvenanceStep, ProvenanceView, SeedIntent, TraversalKind,
};
use crate::text::{dec_text, push_dec_text};

verus! {

/// The lower-case mapping of a character (one or more characters), as
/// `char::to_lowercase` yields it.
pub uninterp spec fn char_lowercase(c: char) -> Seq<char>;

/// The lower-case mapping of a character: for ASCII the letters `A`-`Z`
/// become `a`-`z` and every other ASCII character maps to itself (the
/// Unicode Character Database's mapping, which `char::to_lowercase`
/// follows); beyond ASCII, the named result of `char::to_lowercase`.
pub open spec fn lower_char(c: char) -> Seq<char> {
    if 65 <= c as u32 <= 90 {
        seq![((c as u32) + 32) as char]
    } else if (c as u32) < 128 {
        seq![c]
    } else {
        char_lowercase(c)
    }
}

/// Calls `char::to_lowercase` and collects what it yields. The contract
/// states the ASCII case, which the documented one-to-one Unicode mapping
/// fixes, and names the result of the Unicode case tables beyond it.
#[verifier::external_body]
fn lowercase_chars(c: char) -> (r: Vec<char>)
    ensures
        r@ == char_lowercase(c),
        r@ == lower_char(c),
{
    c.to_lowercase().collect()
}

/// Calls `char::to_string`, whose documented result is the one-character
/// string holding `c`.
#[verifier::external_body]
pub(crate) fn char_string(c: char) -> (r: String)
    ensures
        r@ == seq![c],
{
    c.to_string()
}

/// An ASCII letter or digit.
pub open spec fn ascii_alnum(c: char) -> bool {
    (97 <= c as u32 <= 122) || (65 <= c as u32 <= 90) || (48 <= c as u32 <= 57)
}

fn is_ascii_alnum(c: char) -> (r: bool)
    ensures
        r == ascii_alnum(c),
{
    let v = c as u32;
    (97 <= v && v <= 122) || (65 <= v && v <= 90) || (48 <= v && v <= 57)
}

/// The lower-case mapping of every character of `cs`, in order.
pub open spec fn lowered(cs: Seq<char>) -> Seq<char>
    decreases cs.len(),
{
    if cs.len() == 0 {
        Seq::empty()
    } else {
        lowered(cs.drop_last()) + lower_char(cs.last())
    }
}

/// One step of the slug scan: letters and digits are kept, and a run of
/// anything else after a kept character becomes one `_`.
pub open spec fn slug_step(state: (Seq<char>, bool), c: char) -> (Seq<char>, bool) {
    if ascii_alnum(c) {
        (state.0.push(c), false)
    } else if !state.1 && state.0.len() > 0 {
        (state.0.push('_'), true)
    } else {
        state
    }
}

/// The slug text built from `cs`, and whether it ends in a separator.
pub open spec fn slug_scan(cs: Seq<char>) -> (Seq<char>, bool)
    decreases cs.len(),
{
    if cs.len() == 0 {
        (Seq::empty(), false)
    } else {
        slug_step(slug_scan(cs.drop_last()), cs.last())
    }
}

/// `s` without its trailing `_` characters.
pub open spec fn trim_separators(s: Seq<char>) -> Seq<char>
    decreases s.len(),
{
    if s.len() > 0 && s.last() == '_' {
        trim_separators(s.drop_last())
    } else {
        s
    }
}

/// The slug of a label: its lower-cased ASCII letters and digits, each run
/// of other characters between them as one `_`; `fork` if nothing is left.
pub open spec fn slugify_spec(label: Seq<char>) -> Seq<char> {
    let t = trim_separators(slug_scan(lowered(label)).0);
    if t.len() == 0 {
        "fork"@
    } else {
        t
    }
}

/// The slug of a label (see `slugify_spec`).
pub fn slugify_label(label: &str) -> (r: String)
    ensures
        r@ == slugify_spec(label@),
{
    let n = label.unicode_len();
    let mut slug: Vec<char> = Vec::new();
    let mut last_was_separator = false;
    let mut i: usize = 0;
    while i < n
        invariant
            n == label@.len(),
            i <= n,
            (slug@, last_was_separator) == slug_scan(lowered(label@.take(i as int))),
        decreases n - i,
    {
        let c = label.get_char(i);
        let low = lowercase_chars(c);
        let ghost base = lowered(label@.take(i as int));
        proof {
            assert(label@.take(i + 1).drop_last() =~= label@.take(i as int));
            assert(label@.take(i + 1).last() == c);
            assert(lowered(label@.take(i + 1)) == base + low@);
        }
        let mut j: usize = 0;
        while j < low.len()
            invariant
                j <= low@.len(),
                (slug@, last_was_separator) == slug_scan(base + low@.take(j as int)),
            decreases low@.len() - j,
        {
            let ch = low[j];
            proof {
                assert((base + low@.take(j + 1)).drop_last() =~= base + low@.take(j as int));
                assert((base + low@.take(j + 1)).last() == ch);
            }
            if is_ascii_alnum(ch) {
                slug.push(ch);
                last_was_separator = false;
            } else if !last_was_separator && slug.len() > 0 {
                slug.push('_');
                last_was_separator = true;
            }
            j = j + 1;
        }
        proof {
            assert(low@.take(low@.len() as int) =~= low@);
        }
        i = i + 1;
    }
    proof {
        assert(label@.take(n as int) =~= label@);
    }
    let ghost scanned = slug@;
    while slug.len() > 0 && slug[slug.len() - 1] == '_'
        invariant
            trim_separators(slug@) == trim_separators(scanned),
        decreases slug@.len(),
    {
        proof {
            assert(slug@.drop_last() == slug@.subrange(0, slug@.len() - 1));
        }
        slug.pop();
    }
    assert(trim_separators(slug@) == slug@);
    if slug.len() == 0 {
        return String::from_str("fork");
    }
    let mut out = String::new();
    let mut k: usize = 0;
    while k < slug.len()
        invariant
            k <= slug@.len(),
            out@ == slug@.take(k as int),
        decreases slug@.len() - k,
    {
        let piece = char_string(slug[k]);
        out.append(piece.as_str());
        k = k + 1;
        assert(out@ =~= slug@.take(k as int));
    }
    assert(slug@.take(slug@.len() as int) =~= slug@);
    out
}


/// A character a slug may hold: a lower-case ASCII letter, a digit or `_`.
pub open spec fn slug_char(c: char) -> bool {
    (97 <= c as u32 <= 122) || (48 <= c as u32 <= 57) || c == '_'
}

proof fn lemma_lowered_ascii(cs: Seq<char>)
    requires
        forall|k: int| 0 <= k < cs.len() ==> (#[trigger] cs[k] as u32) < 128,
    ensures
        forall|k: int|
            0 <= k < lowered(cs).len() ==> (#[trigger] lowered(cs)[k] as u32) < 128 && !(65
                <= lowered(cs)[k] as u32 <= 90),
    decreases cs.len(),
{
    if cs.len() > 0 {
        let d = cs.drop_last();
        assert forall|k: int| 0 <= k < d.len() implies (#[trigger] d[k] as u32) < 128 by {
            assert(d[k] == cs[k]);
        }
        lemma_lowered_ascii(d);
        let l = cs.last();
        assert((cs[cs.len() - 1] as u32) < 128);
        let low = lower_char(l);
        assert(low.len() == 1);
        if 65 <= l as u32 <= 90 {
            assert((low[0] as u32) == (l as u32) + 32);
        }
        let all = lowered(cs);
        assert(all == lowered(d) + low);
        assert forall|k: int| 0 <= k < all.len() implies (#[trigger] all[k] as u32) < 128 && !(65
            <= all[k] as u32 <= 90) by {
            if k < lowered(d).len() {
                assert(all[k] == lowered(d)[k]);
            } else {
                assert(all[k] == low[0]);
            }
        }
    }
}

proof fn lemma_scan_alphabet(cs: Seq<char>)
    requires
        forall|k: int| 0 <= k < cs.len() ==> !(65 <= #[trigger] cs[k] as u32 <= 90),
    ensures
        forall|k: int| 0 <= k < slug_scan(cs).0.len() ==> slug_char(#[trigger] slug_scan(cs).0[k]),
    decreases cs.len(),
{
    if cs.len() > 0 {
        let d = cs.drop_last();
        assert forall|k: int| 0 <= k < d.len() implies !(65 <= #[trigger] d[k] as u32 <= 90) by {
            assert(d[k] == cs[k]);
        }
        lemma_scan_alphabet(d);
        let prev = slug_scan(d);
        let c = cs.last();
        assert(!(65 <= cs[cs.len() - 1] as u32 <= 90));
        let out = slug_scan(cs).0;
        assert forall|k: int| 0 <= k < out.len() implies slug_char(#[trigger] out[k]) by {
            if k < prev.0.len() {
                assert(out[k] == prev.0[k]);
            }
        }
    }
}

proof fn lemma_trim_prefix(s: Seq<char>)
    ensures
        trim_separators(s).len() <= s.len(),
        forall|k: int| 0 <= k < trim_separators(s).len() ==> #[trigger] trim_separators(s)[k] == s[k],
    decreases s.len(),
{
    if s.len() > 0 && s.last() == '_' {
        lemma_trim_prefix(s.drop_last());
        assert forall|k: int| 0 <= k < trim_separators(s).len() implies #[trigger] trim_separators(s)[k] == s[k] by {
            assert(s.drop_last()[k] == s[k]);
        }
    }
}

/// The slug of an ASCII label holds only lower-case letters, digits and
/// `_`.
pub proof fn lemma_slug_alphabet(label: Seq<char>)
    requires
        forall|k: int| 0 <= k < label.len() ==> (#[trigger] label[k] as u32) < 128,
    ensures
        forall|k: int| 0 <= k < slugify_spec(label).len() ==> slug_char(#[trigger] slugify_spec(label)[k]),
{
    lemma_lowered_ascii(label);
    let low = lowered(label);
    assert forall|k: int| 0 <= k < low.len() implies !(65 <= #[trigger] low[k] as u32 <= 90) by {}
    lemma_scan_alphabet(low);
    let scanned = slug_scan(low).0;
    lemma_trim_prefix(scanned);
    let t = trim_separators(scanned);
    if t.len() == 0 {
        reveal_strlit("fork");
        assert(slugify_spec(label) == "fork"@);
    } else {
        assert forall|k: int| 0 <= k < t.len() implies slug_char(#[trigger] t[k]) by {
            assert(t[k] == scanned[k]);
        }
    }
}


/// The identity of the initial candidate of `intent_id` under `seed`.
pub open spec fn initial_candidate_id(intent_id: Seq<char>, seed: u64) -> Seq<char> {
    "candidate."@ + intent_id + "."@ + dec_text(seed as nat)
}

/// The two nodes of an initial candidate.
pub open spec fn initial_nodes() -> Seq<crate::model::NodeView> {
    seq![
        node_lit("start"@, NodeKind::Start, "Start", seq!["critical"], None),
        node_lit("goal"@, NodeKind::Goal, "Goal", seq!["critical"], None),
    ]
}

/// The one edge of an initial candidate.
pub open spec fn initial_edges() -> Seq<crate::model::EdgeView> {
    seq![
        edge_lit(
            "edge.start.goal"@,
            "start"@,
            "goal"@,
            EdgeKind::CriticalPath,
            TraversalKind::Open,
            None,
            seq!["initial"],
        ),
    ]
}

/// The candidate that a seed intent starts from: a start node and a goal
/// node joined by one open critical-path edge.
pub fn create_initial_candidate(intent: &SeedIntent, seed: u64) -> (c: Candidate)
    ensures
        c.kind@ == "rusty_procgen.candidate.v1"@,
        c.schema_version == 1,
        c.candidate_id@ == initial_candidate_id(intent.id@, seed),
        c.seed == seed,
        c.dimension_model@ == "topology_graph"@,
        opt_text(c.source_intent) == Some(intent.id@),
        c.provenance@.len() == 0,
        node_views(c.graph.nodes@) == initial_nodes(),
        edge_views(c.graph.edges@) == initial_edges(),
{
    let mut candidate_id = String::from_str("candidate.");
    candidate_id.append(intent.id.as_str());
    candidate_id.append(".");
    push_dec_text(&mut candidate_id, seed);
    let mut nodes: Vec<Node> = Vec::new();
    push_node(&mut nodes, make_node("start", NodeKind::Start, "Start", &["critical"], None));
    push_node(&mut nodes, make_node("goal", NodeKind::Goal, "Goal", &["critical"], None));
    let mut edges: Vec<Edge> = Vec::new();
    push_edge(
        &mut edges,
        make_edge(
            "edge.start.goal",
            "start",
            "goal",
            EdgeKind::CriticalPath,
            TraversalKind::Open,
            None,
            &["initial"],
        ),
    );
    proof {
        assert(node_views(nodes@) =~~= initial_nodes());
        assert(edge_views(edges@) =~~= initial_edges());
    }
    Candidate {
        kind: String::from_str("rusty_procgen.candidate.v1"),
        schema_version: 1,
        candidate_id,
        seed,
        dimension_model: String::from_str("topology_graph"),
        source_intent: Some(intent.id.clone()),
        provenance: Vec::new(),
        graph: IntentGraph { nodes, edges },
    }
}

/// The identity of a fork of `source_id` under `label` and `seed`.
pub open spec fn fork_id(source_id: Seq<char>, label: Seq<char>, seed: u64) -> Seq<char> {
    source_id + ".fork."@ + slugify_spec(label) + "."@ + dec_text(seed as nat)
}

/// The provenance step that records a fork.
pub open spec fn fork_step(
    step: u32,
    source_id: Seq<char>,
    label: Seq<char>,
    seed: u64,
) -> ProvenanceView {
    ProvenanceView {
        step,
        command: "graph fork"@,
        seed: Some(seed),
        summary: "Forked "@ + source_id + " as "@ + fork_id(source_id, label, seed) + " with label "@
            + slugify_spec(label),
    }
}

/// Forks a candidate: a new identity derived from the old one, the label's
/// slug and the seed, the new seed, and a provenance step recording it.
pub fn fork_candidate(candidate: Candidate, label: &str, seed: u64) -> (c: Candidate)
    requires
        candidate.provenance@.len() < u32::MAX,
    ensures
        c.candidate_id@ == fork_id(candidate.candidate_id@, label@, seed),
        c.seed == seed,
        provenance_views(c.provenance@) == provenance_views(candidate.provenance@).push(
            fork_step(
                (candidate.provenance@.len() + 1) as u32,
                candidate.candidate_id@,
                label@,
                seed,
            ),
        ),
        c.kind == candidate.kind,
        c.schema_version == candidate.schema_version,
        c.dimension_model == candidate.dimension_model,
        c.source_intent == candidate.source_intent,
        c.graph == candidate.graph,
{
    let mut candidate = candidate;
    let source_id = candidate.candidate_id.clone();
    let label_slug = slugify_label(label);
    let mut new_id = source_id.clone();
    new_id.append(".fork.");
    new_id.append(label_slug.as_str());
    new_id.append(".");
    push_dec_text(&mut new_id, seed);
    let mut summary = String::from_str("Forked ");
    summary.append(source_id.as_str());
    summary.append(" as ");
    summary.append(new_id.as_str());
    summary.append(" with label ");
    summary.append(label_slug.as_str());
    candidate.candidate_id = new_id;
    candidate.seed = seed;
    let step = candidate.provenance.len() as u32 + 1;
    let ghost before = candidate.provenance@;
    let entry = ProvenanceStep {
        step,
        command: String::from_str("graph fork"),
        seed: Some(seed),
        summary,
    };
    let ghost ev = entry@;
    candidate.provenance.push(entry);
    proof {
        assert(provenance_views(candidate.provenance@) =~~= provenance_views(before).push(ev));
    }
    candidate
}

} // verus!
