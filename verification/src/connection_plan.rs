//! The physical connection plan: the connectors of an intermediate breakdown
//! grouped into physical corridor sections between two terminal regions.
//! Open, item-free connectors between the same two regions share one
//! section; every other connector gets a section of its own.

use vstd::prelude::*;
use vstd::string::*;

use crate::candidate::{slugify_label, slugify_spec};
use crate::catalog::{append_texts, copy_texts};
use crate::intermediate::{
    connector_views, ConnectorView, IntermediateBreakdown, IntermediateConnector,
};
use crate::intermediate_validation::{any_text, has_text};
use crate::model::{
    edge_views, opt_text, owned, texts, traversal_text, Candidate, Edge, EdgeView, TraversalKind,
};
use crate::sorting::{sort_by_key, sorted_by_key, views, TextKeyed};
use crate::text::{dec_text, push_dec_text, str_eq};
use crate::text_set::{dedupe_strings, lemma_sorted_texts, sorted_texts, text_less, text_lt};

verus! {

#[derive(Clone, Debug)]
pub struct PhysicalTraversalRef {
    pub connector_id: String,
    pub edge_id: String,
    pub from_region: String,
    pub to_region: String,
    pub traversal: String,
    pub required_item: Option<String>,
}

#[derive(Clone, Debug)]
pub struct PhysicalEdgeMapping {
    pub edge_id: String,
    pub connector_id: String,
    pub section_id: String,
    pub from_region: String,
    pub to_region: String,
}

#[derive(Clone, Debug)]
pub struct PhysicalConnectionSection {
    pub id: String,
    pub topology: String,
    pub terminal_regions: Vec<String>,
    pub source_connectors: Vec<String>,
    pub source_edges: Vec<String>,
    pub traversal_refs: Vec<PhysicalTraversalRef>,
    pub width: i32,
    pub semantic_tags: Vec<String>,
}

#[derive(Clone, Debug)]
pub struct PhysicalConnectionPlan {
    pub kind: String,
    pub schema_version: u32,
    pub plan_id: String,
    pub candidate_id: String,
    pub source_candidate_ref: String,
    pub source_intermediate_ref: String,
    pub sections: Vec<PhysicalConnectionSection>,
    pub edge_mappings: Vec<PhysicalEdgeMapping>,
}

#[verifier::ext_equal]
pub struct TraversalRefView {
    pub connector_id: Seq<char>,
    pub edge_id: Seq<char>,
    pub from_region: Seq<char>,
    pub to_region: Seq<char>,
    pub traversal: Seq<char>,
    pub required_item: Option<Seq<char>>,
}

#[verifier::ext_equal]
pub struct EdgeMappingView {
    pub edge_id: Seq<char>,
    pub connector_id: Seq<char>,
    pub section_id: Seq<char>,
    pub from_region: Seq<char>,
    pub to_region: Seq<char>,
}

#[verifier::ext_equal]
pub struct SectionView {
    pub id: Seq<char>,
    pub topology: Seq<char>,
    pub terminal_regions: Seq<Seq<char>>,
    pub source_connectors: Seq<Seq<char>>,
    pub source_edges: Seq<Seq<char>>,
    pub traversal_refs: Seq<TraversalRefView>,
    pub width: i32,
    pub semantic_tags: Seq<Seq<char>>,
}

#[verifier::ext_equal]
pub struct PlanView {
    pub kind: Seq<char>,
    pub schema_version: u32,
    pub plan_id: Seq<char>,
    pub candidate_id: Seq<char>,
    pub source_candidate_ref: Seq<char>,
    pub source_intermediate_ref: Seq<char>,
    pub sections: Seq<SectionView>,
    pub edge_mappings: Seq<EdgeMappingView>,
}

impl View for PhysicalTraversalRef {
    type V = TraversalRefView;

    open spec fn view(&self) -> TraversalRefView {
        TraversalRefView {
            connector_id: self.connector_id@,
            edge_id: self.edge_id@,
            from_region: self.from_region@,
            to_region: self.to_region@,
            traversal: self.traversal@,
            required_item: opt_text(self.required_item),
        }
    }
}

impl View for PhysicalEdgeMapping {
    type V = EdgeMappingView;

    open spec fn view(&self) -> EdgeMappingView {
        EdgeMappingView {
            edge_id: self.edge_id@,
            connector_id: self.connector_id@,
            section_id: self.section_id@,
            from_region: self.from_region@,
            to_region: self.to_region@,
        }
    }
}

impl View for PhysicalConnectionSection {
    type V = SectionView;

    open spec fn view(&self) -> SectionView {
        SectionView {
            id: self.id@,
            topology: self.topology@,
            terminal_regions: texts(self.terminal_regions@),
            source_connectors: texts(self.source_connectors@),
            source_edges: texts(self.source_edges@),
            traversal_refs: views(self.traversal_refs@),
            width: self.width,
            semantic_tags: texts(self.semantic_tags@),
        }
    }
}

impl View for PhysicalConnectionPlan {
    type V = PlanView;

    open spec fn view(&self) -> PlanView {
        PlanView {
            kind: self.kind@,
            schema_version: self.schema_version,
            plan_id: self.plan_id@,
            candidate_id: self.candidate_id@,
            source_candidate_ref: self.source_candidate_ref@,
            source_intermediate_ref: self.source_intermediate_ref@,
            sections: views(self.sections@),
            edge_mappings: views(self.edge_mappings@),
        }
    }
}

impl TextKeyed for PhysicalTraversalRef {
    open spec fn view_key(v: TraversalRefView) -> Seq<char> {
        v.edge_id
    }

    fn key(&self) -> (r: &str) {
        self.edge_id.as_str()
    }
}

impl TextKeyed for PhysicalEdgeMapping {
    open spec fn view_key(v: EdgeMappingView) -> Seq<char> {
        v.edge_id
    }

    fn key(&self) -> (r: &str) {
        self.edge_id.as_str()
    }
}

impl TextKeyed for PhysicalConnectionSection {
    open spec fn view_key(v: SectionView) -> Seq<char> {
        v.id
    }

    fn key(&self) -> (r: &str) {
        self.id.as_str()
    }
}

/// The corridor width a connector asks for, by its strongest affordance.
pub open spec fn corridor_width_spec(c: ConnectorView) -> i32 {
    if has_text(c.affordances, "locked_threshold") {
        18
    } else if has_text(c.affordances, "pressure_route") {
        20
    } else if has_text(c.affordances, "hidden_passage") {
        10
    } else if has_text(c.affordances, "shortcut_link") {
        14
    } else {
        12
    }
}

pub fn corridor_width(connector: &IntermediateConnector) -> (r: i32)
    ensures
        r == corridor_width_spec(connector@),
{
    if any_text(&connector.affordances, "locked_threshold") {
        18
    } else if any_text(&connector.affordances, "pressure_route") {
        20
    } else if any_text(&connector.affordances, "hidden_passage") {
        10
    } else if any_text(&connector.affordances, "shortcut_link") {
        14
    } else {
        12
    }
}

/// The distinct traversal hint, intents and affordances of a connector, in
/// increasing order.
pub open spec fn corridor_tags_spec(c: ConnectorView) -> Seq<Seq<char>> {
    sorted_texts((seq![c.traversal_hint] + c.intents + c.affordances).to_set())
}

pub fn corridor_semantic_tags(connector: &IntermediateConnector) -> (r: Vec<String>)
    ensures
        texts(r@) == corridor_tags_spec(connector@),
{
    let mut tags: Vec<String> = Vec::new();
    tags.push(owned(connector.traversal_hint.as_str()));
    append_texts(&mut tags, &connector.intents);
    append_texts(&mut tags, &connector.affordances);
    assert(texts(tags@) =~= seq![connector@.traversal_hint] + connector@.intents
        + connector@.affordances);
    dedupe_strings(tags)
}

/// The last edge with the given id (the one a map keyed by id keeps).
pub open spec fn edge_by_id(edges: Seq<EdgeView>, id: Seq<char>) -> Option<EdgeView>
    decreases edges.len(),
{
    if edges.len() == 0 {
        None
    } else if edges.last().id == id {
        Some(edges.last())
    } else {
        edge_by_id(edges.drop_last(), id)
    }
}

fn find_edge(edges: &Vec<Edge>, id: &str) -> (r: Option<usize>)
    ensures
        match r {
            Some(i) => i < edges@.len() && edge_by_id(edge_views(edges@), id@) == Some(
                edges@[i as int]@,
            ),
            None => edge_by_id(edge_views(edges@), id@) is None,
        },
{
    let ghost all = edge_views(edges@);
    let mut j: usize = edges.len();
    assert(all.take(j as int) =~= all);
    while j > 0
        invariant
            j <= edges@.len(),
            all == edge_views(edges@),
            edge_by_id(all, id@) == edge_by_id(all.take(j as int), id@),
        decreases j,
    {
        let ghost pre = all.take(j as int);
        proof {
            assert(pre.drop_last() =~= all.take(j - 1));
            assert(pre.last() == edges@[j - 1]@);
        }
        if str_eq(edges[j - 1].id.as_str(), id) {
            return Some(j - 1);
        }
        j = j - 1;
    }
    None
}

/// Two region ids joined by `:`, the smaller first.
pub open spec fn ordered_pair_text(a: Seq<char>, b: Seq<char>) -> Seq<char> {
    if text_lt(b, a) {
        b + ":"@ + a
    } else {
        a + ":"@ + b
    }
}

/// Open connectors without a required item share the group of their two
/// regions; every other connector is a group of its own.
pub open spec fn group_key(c: ConnectorView, e: EdgeView) -> Seq<char> {
    if e.traversal == TraversalKind::Open && e.required_item is None && c.traversal_hint == "open"@ {
        "open:"@ + ordered_pair_text(c.from_region, c.to_region)
    } else {
        "edge:"@ + c.id
    }
}

fn connector_group_key(c: &IntermediateConnector, e: &Edge) -> (k: String)
    ensures
        k@ == group_key(c@, e@),
{
    let open = match e.traversal {
        TraversalKind::Open => true,
        _ => false,
    };
    if open && e.required_item.is_none() && str_eq(c.traversal_hint.as_str(), "open") {
        let mut k = owned("open:");
        if text_less(c.to_region.as_str(), c.from_region.as_str()) {
            k.append(c.to_region.as_str());
            k.append(":");
            k.append(c.from_region.as_str());
        } else {
            k.append(c.from_region.as_str());
            k.append(":");
            k.append(c.to_region.as_str());
        }
        k
    } else {
        let mut k = owned("edge:");
        k.append(c.id.as_str());
        k
    }
}

/// A connector with the edge it is bound to.
pub type Member = (ConnectorView, EdgeView);

/// Every connector with its edge (meaningful when every edge exists).
pub open spec fn members_of(cs: Seq<ConnectorView>, edges: Seq<EdgeView>) -> Seq<Member> {
    cs.map_values(|c: ConnectorView| (c, edge_by_id(edges, c.edge_id)->0))
}

pub open spec fn keys_of(ms: Seq<Member>) -> Seq<Seq<char>> {
    ms.map_values(|m: Member| group_key(m.0, m.1))
}

/// The members of the group `k`, in connector order.
pub open spec fn group_members(ms: Seq<Member>, k: Seq<char>) -> Seq<Member>
    decreases ms.len(),
{
    if ms.len() == 0 {
        ms
    } else if group_key(ms.last().0, ms.last().1) == k {
        group_members(ms.drop_last(), k).push(ms.last())
    } else {
        group_members(ms.drop_last(), k)
    }
}

/// The source and target region of every member, in member order.
pub open spec fn terminal_list(ms: Seq<Member>) -> Seq<Seq<char>>
    decreases ms.len(),
{
    if ms.len() == 0 {
        Seq::empty()
    } else {
        terminal_list(ms.drop_last()) + seq![ms.last().0.from_region, ms.last().0.to_region]
    }
}

/// The semantic tags of every member, in member order.
pub open spec fn tag_list(ms: Seq<Member>) -> Seq<Seq<char>>
    decreases ms.len(),
{
    if ms.len() == 0 {
        Seq::empty()
    } else {
        tag_list(ms.drop_last()) + corridor_tags_spec(ms.last().0)
    }
}

/// The widest corridor any member asks for (0 without members).
pub open spec fn group_width(ms: Seq<Member>) -> i32
    decreases ms.len(),
{
    if ms.len() == 0 {
        0
    } else {
        let w = group_width(ms.drop_last());
        let c = corridor_width_spec(ms.last().0);
        if w < c {
            c
        } else {
            w
        }
    }
}

pub open spec fn ref_of(m: Member) -> TraversalRefView {
    TraversalRefView {
        connector_id: m.0.id,
        edge_id: m.1.id,
        from_region: m.0.from_region,
        to_region: m.0.to_region,
        traversal: traversal_text(m.1.traversal)@,
        required_item: m.1.required_item,
    }
}

pub open spec fn mapping_of(m: Member, section_id: Seq<char>) -> EdgeMappingView {
    EdgeMappingView {
        edge_id: m.1.id,
        connector_id: m.0.id,
        section_id,
        from_region: m.0.from_region,
        to_region: m.0.to_region,
    }
}

/// The suffix of a section id: the slug of the connector of an own-edge
/// group, `open` for a shared group.
pub open spec fn section_suffix(k: Seq<char>) -> Seq<char> {
    if k.len() >= 5 && k.take(5) == "edge:"@ {
        slugify_spec(k.skip(5))
    } else {
        "open"@
    }
}

/// The sorted distinct terminal regions of the group `k`.
pub open spec fn group_terminals(ms: Seq<Member>, k: Seq<char>) -> Seq<Seq<char>> {
    sorted_texts(terminal_list(group_members(ms, k)).to_set())
}

pub open spec fn group_section_id(ms: Seq<Member>, k: Seq<char>) -> Seq<char> {
    let t = group_terminals(ms, k);
    "section."@ + slugify_spec(t[0]) + "."@ + slugify_spec(t[1]) + "."@ + section_suffix(k)
}

/// The section of the group `k`, or the error when it does not join
/// exactly two regions.
pub open spec fn group_section(ms: Seq<Member>, k: Seq<char>) -> Result<SectionView, Seq<char>> {
    let g = group_members(ms, k);
    let t = group_terminals(ms, k);
    if t.len() != 2 {
        Err(
            "physical connection group "@ + k + " requires exactly two terminals; found "@
                + dec_text(t.len()),
        )
    } else {
        Ok(
            SectionView {
                id: group_section_id(ms, k),
                topology: "corridor_2"@,
                terminal_regions: t,
                source_connectors: sorted_by_key::<String>(g.map_values(|m: Member| m.0.id)),
                source_edges: sorted_by_key::<String>(g.map_values(|m: Member| m.1.id)),
                traversal_refs: sorted_by_key::<PhysicalTraversalRef>(
                    g.map_values(|m: Member| ref_of(m)),
                ),
                width: group_width(g),
                semantic_tags: sorted_texts(tag_list(g).to_set()),
            },
        )
    }
}

/// The sections of the groups in `order`, or the first group's error.
pub open spec fn sections_for(ms: Seq<Member>, order: Seq<Seq<char>>) -> Result<
    Seq<SectionView>,
    Seq<char>,
>
    decreases order.len(),
{
    if order.len() == 0 {
        Ok(Seq::empty())
    } else {
        match sections_for(ms, order.drop_last()) {
            Err(e) => Err(e),
            Ok(ss) => match group_section(ms, order.last()) {
                Err(e) => Err(e),
                Ok(s) => Ok(ss.push(s)),
            },
        }
    }
}

/// The edge mappings of the groups in `order`, group by group.
pub open spec fn mappings_for(ms: Seq<Member>, order: Seq<Seq<char>>) -> Seq<EdgeMappingView>
    decreases order.len(),
{
    if order.len() == 0 {
        Seq::empty()
    } else {
        let k = order.last();
        let sid = group_section_id(ms, k);
        mappings_for(ms, order.drop_last()) + group_members(ms, k).map_values(
            |m: Member| mapping_of(m, sid),
        )
    }
}

/// The first connector whose edge does not exist.
pub open spec fn first_missing_edge(cs: Seq<ConnectorView>, edges: Seq<EdgeView>) -> Option<
    ConnectorView,
>
    decreases cs.len(),
{
    if cs.len() == 0 {
        None
    } else {
        match first_missing_edge(cs.drop_last(), edges) {
            Some(c) => Some(c),
            None => if edge_by_id(edges, cs.last().edge_id) is None {
                Some(cs.last())
            } else {
                None
            },
        }
    }
}

/// The physical connection plan of a candidate and its intermediate
/// breakdown, or the reason there is none.
pub open spec fn plan_spec(
    candidate_id: Seq<char>,
    edges: Seq<EdgeView>,
    intermediate_candidate_id: Seq<char>,
    connectors: Seq<ConnectorView>,
    candidate_ref: Seq<char>,
    intermediate_ref: Seq<char>,
) -> Result<PlanView, Seq<char>> {
    if intermediate_candidate_id != candidate_id {
        Err(
            "intermediate candidate "@ + intermediate_candidate_id + " does not match candidate "@
                + candidate_id,
        )
    } else {
        match first_missing_edge(connectors, edges) {
            Some(c) => Err("connector "@ + c.id + " references missing edge "@ + c.edge_id),
            None => {
                let ms = members_of(connectors, edges);
                let order = sorted_texts(keys_of(ms).to_set());
                match sections_for(ms, order) {
                    Err(e) => Err(e),
                    Ok(ss) => Ok(
                        PlanView {
                            kind: "rusty_procgen.physical_connection_plan.v1"@,
                            schema_version: 1,
                            plan_id: "physical_connections."@ + candidate_id,
                            candidate_id,
                            source_candidate_ref: candidate_ref,
                            source_intermediate_ref: intermediate_ref,
                            sections: sorted_by_key::<PhysicalConnectionSection>(ss),
                            edge_mappings: sorted_by_key::<PhysicalEdgeMapping>(
                                mappings_for(ms, order),
                            ),
                        },
                    ),
                }
            },
        }
    }
}

pub open spec fn plan_result_view(r: Result<PhysicalConnectionPlan, String>) -> Result<
    PlanView,
    Seq<char>,
> {
    match r {
        Ok(p) => Ok(p@),
        Err(e) => Err(e@),
    }
}

fn copy_opt(o: &Option<String>) -> (r: Option<String>)
    ensures
        opt_text(r) == opt_text(*o),
{
    match o {
        Some(s) => Some(owned(s.as_str())),
        None => None,
    }
}

proof fn lemma_group_step(ms: Seq<Member>, k: Seq<char>, i: int)
    requires
        0 <= i < ms.len(),
    ensures
        group_members(ms.take(i + 1), k) == if group_key(ms[i].0, ms[i].1) == k {
            group_members(ms.take(i), k).push(ms[i])
        } else {
            group_members(ms.take(i), k)
        },
{
    let t = ms.take(i + 1);
    assert(t.drop_last() =~= ms.take(i));
    assert(t.last() == ms[i]);
}

/// Builds the section of the group `k` and appends its edge mappings.
fn build_section(
    connectors: &Vec<IntermediateConnector>,
    edges: &Vec<Edge>,
    eidx: &Vec<usize>,
    keys: &Vec<String>,
    k: &String,
    mappings: &mut Vec<PhysicalEdgeMapping>,
    Ghost(ms): Ghost<Seq<Member>>,
) -> (r: Result<PhysicalConnectionSection, String>)
    requires
        connectors@.len() == eidx@.len(),
        connectors@.len() == keys@.len(),
        ms.len() == connectors@.len(),
        forall|i: int|
            0 <= i < ms.len() ==> #[trigger] eidx@[i] < edges@.len() && ms[i] == (
                connectors@[i]@,
                edges@[eidx@[i] as int]@,
            ),
        forall|i: int| 0 <= i < ms.len() ==> #[trigger] keys@[i]@ == group_key(ms[i].0, ms[i].1),
    ensures
        match r {
            Ok(s) => group_section(ms, k@) == Ok::<SectionView, Seq<char>>(s@) && views(final(mappings)@) == views(
                old(mappings)@,
            ) + group_members(ms, k@).map_values(
                |m: Member| mapping_of(m, group_section_id(ms, k@)),
            ),
            Err(e) => group_section(ms, k@) == Err::<SectionView, Seq<char>>(e@),
        },
{
    let n = connectors.len();
    let mut idx: Vec<usize> = Vec::new();
    let mut terms: Vec<String> = Vec::new();
    let mut i: usize = 0;
    assert(ms.take(0) =~= Seq::<Member>::empty());
    while i < n
        invariant
            n == connectors@.len(),
            i <= n,
            connectors@.len() == eidx@.len(),
            connectors@.len() == keys@.len(),
            ms.len() == n,
            forall|j: int|
                0 <= j < ms.len() ==> #[trigger] eidx@[j] < edges@.len() && ms[j] == (
                    connectors@[j]@,
                    edges@[eidx@[j] as int]@,
                ),
            forall|j: int| 0 <= j < ms.len() ==> #[trigger] keys@[j]@ == group_key(ms[j].0, ms[j].1),
            forall|t: int| 0 <= t < idx@.len() ==> #[trigger] idx@[t] < i,
            idx@.map_values(|j: usize| ms[j as int]) == group_members(ms.take(i as int), k@),
            texts(terms@) == terminal_list(group_members(ms.take(i as int), k@)),
        decreases n - i,
    {
        proof {
            lemma_group_step(ms, k@, i as int);
        }
        if str_eq(keys[i].as_str(), k.as_str()) {
            let ghost g0 = group_members(ms.take(i as int), k@);
            let ghost t0 = texts(terms@);
            assert(eidx@[i as int] < edges@.len());
            assert(ms[i as int].0 == connectors@[i as int]@);
            idx.push(i);
            terms.push(owned(connectors[i].from_region.as_str()));
            terms.push(owned(connectors[i].to_region.as_str()));
            proof {
                assert(g0.push(ms[i as int]).drop_last() =~= g0);
                assert(idx@.map_values(|j: usize| ms[j as int]) =~= g0.push(ms[i as int]));
                assert(texts(terms@) =~= t0 + seq![
                    ms[i as int].0.from_region,
                    ms[i as int].0.to_region,
                ]);
            }
        }
        i = i + 1;
    }
    proof {
        assert(ms.take(n as int) =~= ms);
    }
    let ghost g = group_members(ms, k@);
    let terminals = dedupe_strings(terms);
    if terminals.len() != 2 {
        let mut e = owned("physical connection group ");
        e.append(k.as_str());
        e.append(" requires exactly two terminals; found ");
        push_dec_text(&mut e, terminals.len() as u64);
        return Err(e);
    }
    let mut sid = owned("section.");
    let s0 = slugify_label(terminals[0].as_str());
    sid.append(s0.as_str());
    sid.append(".");
    let s1 = slugify_label(terminals[1].as_str());
    sid.append(s1.as_str());
    sid.append(".");
    assert(g.len() > 0) by {
        if g.len() == 0 {
            assert(terminal_list(g) =~= Seq::<Seq<char>>::empty());
            assert(terminal_list(g).to_set() =~= Set::<Seq<char>>::empty());
            lemma_sorted_texts(Set::<Seq<char>>::empty(), Seq::<Seq<char>>::empty());
        }
    }
    assert(idx@.len() > 0);
    let first = idx[0];
    assert(g[0] == ms[first as int]);
    proof {
        lemma_group_members_key(ms, k@, 0);
        assert(eidx@[first as int] < edges@.len());
    }
    let own_edge = !(is_open_group(&connectors[first], &edges[eidx[first]]));
    proof {
        reveal_strlit("edge:");
        reveal_strlit("open:");
        let m0 = ms[first as int];
        if own_edge {
            assert(k@ == "edge:"@ + m0.0.id);
            assert(k@.take(5) =~= "edge:"@);
            assert(k@.skip(5) =~= m0.0.id);
        } else {
            assert(k@ == "open:"@ + ordered_pair_text(m0.0.from_region, m0.0.to_region));
            assert(k@[0] == 'o');
            assert("edge:"@[0] == 'e');
            assert(k@.take(5) != "edge:"@);
        }
    }
    if own_edge {
        let suffix = slugify_label(connectors[first].id.as_str());
        sid.append(suffix.as_str());
    } else {
        sid.append("open");
    }
    assert(sid@ == group_section_id(ms, k@));
    let ghost old_maps = views(mappings@);
    let mut ids: Vec<String> = Vec::new();
    let mut eids: Vec<String> = Vec::new();
    let mut refs: Vec<PhysicalTraversalRef> = Vec::new();
    let mut tags: Vec<String> = Vec::new();
    let mut width: i32 = 0;
    let mut t: usize = 0;
    assert(g.take(0) =~= Seq::<Member>::empty());
    while t < idx.len()
        invariant
            t <= idx@.len(),
            idx@.map_values(|j: usize| ms[j as int]) == g,
            forall|q: int| 0 <= q < idx@.len() ==> #[trigger] idx@[q] < n,
            n == connectors@.len(),
            connectors@.len() == eidx@.len(),
            ms.len() == n,
            forall|j: int|
                0 <= j < ms.len() ==> #[trigger] eidx@[j] < edges@.len() && ms[j] == (
                    connectors@[j]@,
                    edges@[eidx@[j] as int]@,
                ),
            sid@ == group_section_id(ms, k@),
            texts(ids@) == g.take(t as int).map_values(|m: Member| m.0.id),
            texts(eids@) == g.take(t as int).map_values(|m: Member| m.1.id),
            views(refs@) == g.take(t as int).map_values(|m: Member| ref_of(m)),
            texts(tags@) == tag_list(g.take(t as int)),
            width == group_width(g.take(t as int)),
            views(mappings@) == old_maps + g.take(t as int).map_values(
                |m: Member| mapping_of(m, sid@),
            ),
        decreases idx@.len() - t,
    {
        let j = idx[t];
        let c = &connectors[j];
        let e = &edges[eidx[j]];
        let ghost m = ms[j as int];
        let ghost pre = g.take(t as int);
        let ghost ids0 = texts(ids@);
        let ghost eids0 = texts(eids@);
        let ghost refs0 = views(refs@);
        let ghost maps0 = views(mappings@);
        proof {
            assert(eidx@[j as int] < edges@.len());
            assert(m.0 == c@ && m.1 == e@);
            assert(g[t as int] == m);
            assert(g.take(t + 1) =~= pre.push(m));
            assert(pre.push(m).drop_last() =~= pre);
        }
        ids.push(owned(c.id.as_str()));
        eids.push(owned(e.id.as_str()));
        refs.push(
            PhysicalTraversalRef {
                connector_id: owned(c.id.as_str()),
                edge_id: owned(e.id.as_str()),
                from_region: owned(c.from_region.as_str()),
                to_region: owned(c.to_region.as_str()),
                traversal: owned(e.traversal.as_str()),
                required_item: copy_opt(&e.required_item),
            },
        );
        let ctags = corridor_semantic_tags(c);
        append_texts(&mut tags, &ctags);
        let cw = corridor_width(c);
        if width < cw {
            width = cw;
        }
        mappings.push(
            PhysicalEdgeMapping {
                edge_id: owned(e.id.as_str()),
                connector_id: owned(c.id.as_str()),
                section_id: owned(sid.as_str()),
                from_region: owned(c.from_region.as_str()),
                to_region: owned(c.to_region.as_str()),
            },
        );
        proof {
            assert(texts(ids@) =~= ids0.push(m.0.id));
            assert(texts(ids@) =~= pre.push(m).map_values(|m: Member| m.0.id));
            assert(texts(eids@) =~= eids0.push(m.1.id));
            assert(texts(eids@) =~= pre.push(m).map_values(|m: Member| m.1.id));
            assert(views(refs@) =~= refs0.push(ref_of(m)));
            assert(views(refs@) =~= pre.push(m).map_values(|m: Member| ref_of(m)));
            assert(views(mappings@) =~= maps0.push(mapping_of(m, sid@)));
            assert(views(mappings@) =~= old_maps + pre.push(m).map_values(
                |m: Member| mapping_of(m, sid@),
            ));
        }
        t = t + 1;
    }
    proof {
        assert(g.take(idx@.len() as int) =~= g);
        assert(views(ids@) =~= texts(ids@));
        assert(views(eids@) =~= texts(eids@));
    }
    let sorted_ids = sort_by_key(ids);
    let sorted_eids = sort_by_key(eids);
    let sorted_refs = sort_by_key(refs);
    let semantic_tags = dedupe_strings(tags);
    proof {
        assert(views(sorted_ids@) =~= texts(sorted_ids@));
        assert(views(sorted_eids@) =~= texts(sorted_eids@));
    }
    Ok(
        PhysicalConnectionSection {
            id: sid,
            topology: owned("corridor_2"),
            terminal_regions: terminals,
            source_connectors: sorted_ids,
            source_edges: sorted_eids,
            traversal_refs: sorted_refs,
            width,
            semantic_tags,
        },
    )
}

fn is_open_group(c: &IntermediateConnector, e: &Edge) -> (r: bool)
    ensures
        r == (e@.traversal == TraversalKind::Open && e@.required_item is None
            && c@.traversal_hint == "open"@),
{
    let open = match e.traversal {
        TraversalKind::Open => true,
        _ => false,
    };
    open && e.required_item.is_none() && str_eq(c.traversal_hint.as_str(), "open")
}

/// Groups the connectors of `intermediate` into physical sections (see
/// `plan_spec`); the two refs name where the candidate and the breakdown
/// were read from.
pub fn plan_physical_connections(
    candidate: &Candidate,
    intermediate: &IntermediateBreakdown,
    candidate_ref: &str,
    intermediate_ref: &str,
) -> (r: Result<PhysicalConnectionPlan, String>)
    ensures
        plan_result_view(r) == plan_spec(
            candidate.candidate_id@,
            edge_views(candidate.graph.edges@),
            intermediate.candidate_id@,
            connector_views(intermediate.connectors@),
            candidate_ref@,
            intermediate_ref@,
        ),
{
    let ghost ev = edge_views(candidate.graph.edges@);
    let ghost cv = connector_views(intermediate.connectors@);
    if !str_eq(intermediate.candidate_id.as_str(), candidate.candidate_id.as_str()) {
        let mut e = owned("intermediate candidate ");
        e.append(intermediate.candidate_id.as_str());
        e.append(" does not match candidate ");
        e.append(candidate.candidate_id.as_str());
        return Err(e);
    }
    let connectors = &intermediate.connectors;
    let edges = &candidate.graph.edges;
    let n = connectors.len();
    let mut eidx: Vec<usize> = Vec::new();
    let mut keys: Vec<String> = Vec::new();
    let mut i: usize = 0;
    assert(cv.take(0) =~= Seq::<ConnectorView>::empty());
    while i < n
        invariant
            n == connectors@.len(),
            cv == connector_views(connectors@),
            ev == edge_views(edges@),
            connectors@ == intermediate.connectors@,
            edges@ == candidate.graph.edges@,
            i <= n,
            eidx@.len() == i,
            keys@.len() == i,
            first_missing_edge(cv.take(i as int), ev) is None,
            intermediate.candidate_id@ == candidate.candidate_id@,
            forall|j: int|
                0 <= j < i ==> #[trigger] eidx@[j] < edges@.len() && edge_by_id(
                    ev,
                    cv[j].edge_id,
                ) == Some(edges@[eidx@[j] as int]@),
            forall|j: int|
                0 <= j < i ==> #[trigger] keys@[j]@ == group_key(cv[j], edges@[eidx@[j] as int]@),
        decreases n - i,
    {
        let c = &connectors[i];
        let ghost t = cv.take(i + 1);
        proof {
            assert(t.drop_last() =~= cv.take(i as int));
            assert(t.last() == c@);
        }
        match find_edge(edges, c.edge_id.as_str()) {
            None => {
                proof {
                    assert(first_missing_edge(t, ev) == Some(c@));
                    lemma_missing_sticks(cv, ev, i + 1);
                }
                let mut e = owned("connector ");
                e.append(c.id.as_str());
                e.append(" references missing edge ");
                e.append(c.edge_id.as_str());
                return Err(e);
            },
            Some(ei) => {
                let key = connector_group_key(c, &edges[ei]);
                eidx.push(ei);
                keys.push(key);
            },
        }
        i = i + 1;
    }
    proof {
        assert(cv.take(n as int) =~= cv);
    }
    let ghost ms = members_of(cv, ev);
    assert forall|j: int|
        0 <= j < ms.len() implies #[trigger] eidx@[j] < edges@.len() && ms[j] == (
        connectors@[j]@,
        edges@[eidx@[j] as int]@,
    ) by {
        assert(cv[j] == connectors@[j]@);
    }
    assert(texts(keys@) =~= keys_of(ms));
    let order = dedupe_strings(copy_texts(&keys));
    let ghost ov = texts(order@);
    let mut sections: Vec<PhysicalConnectionSection> = Vec::new();
    let mut mappings: Vec<PhysicalEdgeMapping> = Vec::new();
    let mut g: usize = 0;
    assert(ov.take(0) =~= Seq::<Seq<char>>::empty());
    assert(views(sections@) =~= Seq::<SectionView>::empty());
    assert(views(mappings@) =~= Seq::<EdgeMappingView>::empty());
    while g < order.len()
        invariant
            g <= order@.len(),
            ov == texts(order@),
            n == connectors@.len(),
            connectors@.len() == eidx@.len(),
            connectors@.len() == keys@.len(),
            ms.len() == n,
            forall|j: int|
                0 <= j < ms.len() ==> #[trigger] eidx@[j] < edges@.len() && ms[j] == (
                    connectors@[j]@,
                    edges@[eidx@[j] as int]@,
                ),
            forall|j: int| 0 <= j < ms.len() ==> #[trigger] keys@[j]@ == group_key(ms[j].0, ms[j].1),
            sections_for(ms, ov.take(g as int)) == Ok::<Seq<SectionView>, Seq<char>>(
                views(sections@),
            ),
            views(mappings@) == mappings_for(ms, ov.take(g as int)),
            intermediate.candidate_id@ == candidate.candidate_id@,
            first_missing_edge(cv, ev) is None,
            ms == members_of(cv, ev),
            cv == connector_views(intermediate.connectors@),
            ev == edge_views(candidate.graph.edges@),
            ov == sorted_texts(keys_of(ms).to_set()),
        decreases order@.len() - g,
    {
        let ghost pre = ov.take(g as int);
        proof {
            assert(ov.take(g + 1).drop_last() =~= pre);
            assert(ov.take(g + 1).last() == order@[g as int]@);
        }
        match build_section(connectors, edges, &eidx, &keys, &order[g], &mut mappings, Ghost(ms)) {
            Err(e) => {
                proof {
                    lemma_section_error_sticks(ms, ov, g + 1);
                }
                return Err(e);
            },
            Ok(s) => {
                let ghost sv = s@;
                let ghost before = views(sections@);
                sections.push(s);
                proof {
                    assert(views(sections@) =~= before.push(sv));
                }
            },
        }
        g = g + 1;
    }
    proof {
        assert(ov.take(order@.len() as int) =~= ov);
    }
    let sorted_sections = sort_by_key(sections);
    let sorted_mappings = sort_by_key(mappings);
    let mut plan_id = owned("physical_connections.");
    plan_id.append(candidate.candidate_id.as_str());
    Ok(
        PhysicalConnectionPlan {
            kind: owned("rusty_procgen.physical_connection_plan.v1"),
            schema_version: 1,
            plan_id,
            candidate_id: owned(candidate.candidate_id.as_str()),
            source_candidate_ref: owned(candidate_ref),
            source_intermediate_ref: owned(intermediate_ref),
            sections: sorted_sections,
            edge_mappings: sorted_mappings,
        },
    )
}

proof fn lemma_group_members_key(ms: Seq<Member>, k: Seq<char>, i: int)
    requires
        0 <= i < group_members(ms, k).len(),
    ensures
        group_key(group_members(ms, k)[i].0, group_members(ms, k)[i].1) == k,
    decreases ms.len(),
{
    if ms.len() > 0 {
        let d = group_members(ms.drop_last(), k);
        if group_key(ms.last().0, ms.last().1) == k {
            if i < d.len() {
                lemma_group_members_key(ms.drop_last(), k, i);
            }
        } else {
            lemma_group_members_key(ms.drop_last(), k, i);
        }
    }
}

proof fn lemma_missing_sticks(cs: Seq<ConnectorView>, edges: Seq<EdgeView>, j: int)
    requires
        0 <= j <= cs.len(),
        first_missing_edge(cs.take(j), edges) is Some,
    ensures
        first_missing_edge(cs, edges) == first_missing_edge(cs.take(j), edges),
    decreases cs.len() - j,
{
    if j < cs.len() {
        let t = cs.take(j + 1);
        assert(t.drop_last() =~= cs.take(j));
        lemma_missing_sticks(cs, edges, j + 1);
    } else {
        assert(cs.take(j) =~= cs);
    }
}

proof fn lemma_section_error_sticks(ms: Seq<Member>, order: Seq<Seq<char>>, j: int)
    requires
        0 <= j <= order.len(),
        sections_for(ms, order.take(j)) is Err,
    ensures
        sections_for(ms, order) == sections_for(ms, order.take(j)),
    decreases order.len() - j,
{
    if j < order.len() {
        let t = order.take(j + 1);
        assert(t.drop_last() =~= order.take(j));
        lemma_section_error_sticks(ms, order, j + 1);
    } else {
        assert(order.take(j) =~= order);
    }
}

} // verus!
