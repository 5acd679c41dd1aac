//! The intermediate breakdown of a candidate into regions, connectors and
//! constraints, its canonical JSON, and the checks it must pass before
//! geometry is laid out.

use vstd::prelude::*;
use vstd::string::*;
use vstd::utf8::encode_utf8;

use crate::graph::{diagnostic_lit, diagnostic_views, fatal, opt_lit, Diagnostic, DiagnosticView};
use crate::json::{
    hash_of, join_items, lemma_join_push, lit, opt_text_json, push_opt_text, push_text, push_texts,
    text_json, texts_json,
};
use crate::model::{opt_text, owned, texts, Severity};
use crate::text::{fnv1a64, format_hash, push_dec, push_raw, str_eq, dec_bytes};

verus! {

#[derive(Clone, Debug)]
pub struct IntermediateRegion {
    pub id: String,
    pub node_ids: Vec<String>,
    pub role: String,
    pub anchor_node: Option<String>,
    pub geometry_role: String,
    pub footprint_class: String,
    pub scale_band: String,
    pub anchor_quality: String,
    pub entrance_expectations: Vec<String>,
}

#[derive(Clone, Debug)]
pub struct IntermediateConnector {
    pub id: String,
    pub edge_id: String,
    pub from_region: String,
    pub to_region: String,
    pub intents: Vec<String>,
    pub affordances: Vec<String>,
    pub traversal_hint: String,
    pub constraint_refs: Vec<String>,
}

#[derive(Clone, Debug)]
pub struct IntermediateConstraint {
    pub code: String,
    pub target: String,
    pub target_type: String,
    pub source_intents: Vec<String>,
    pub graph_refs: Vec<String>,
    pub detail: String,
}

#[derive(Clone, Debug)]
pub struct IntermediateBreakdown {
    pub kind: String,
    pub schema_version: u32,
    pub candidate_id: String,
    pub state_hash: String,
    pub annotation_ref: String,
    pub regions: Vec<IntermediateRegion>,
    pub connectors: Vec<IntermediateConnector>,
    pub constraints: Vec<IntermediateConstraint>,
}

#[derive(Clone, Debug)]
pub struct ValidationReport {
    pub kind: String,
    pub schema_version: u32,
    pub state_hash: String,
    pub ok: bool,
    pub fatal_count: usize,
    pub diagnostics: Vec<Diagnostic>,
}

#[verifier::ext_equal]
pub struct RegionView {
    pub id: Seq<char>,
    pub node_ids: Seq<Seq<char>>,
    pub role: Seq<char>,
    pub anchor_node: Option<Seq<char>>,
    pub geometry_role: Seq<char>,
    pub footprint_class: Seq<char>,
    pub scale_band: Seq<char>,
    pub anchor_quality: Seq<char>,
    pub entrance_expectations: Seq<Seq<char>>,
}

#[verifier::ext_equal]
pub struct ConnectorView {
    pub id: Seq<char>,
    pub edge_id: Seq<char>,
    pub from_region: Seq<char>,
    pub to_region: Seq<char>,
    pub intents: Seq<Seq<char>>,
    pub affordances: Seq<Seq<char>>,
    pub traversal_hint: Seq<char>,
    pub constraint_refs: Seq<Seq<char>>,
}

#[verifier::ext_equal]
pub struct ConstraintView {
    pub code: Seq<char>,
    pub target: Seq<char>,
    pub target_type: Seq<char>,
    pub source_intents: Seq<Seq<char>>,
    pub graph_refs: Seq<Seq<char>>,
    pub detail: Seq<char>,
}

impl View for IntermediateRegion {
    type V = RegionView;

    open spec fn view(&self) -> RegionView {
        RegionView {
            id: self.id@,
            node_ids: texts(self.node_ids@),
            role: self.role@,
            anchor_node: opt_text(self.anchor_node),
            geometry_role: self.geometry_role@,
            footprint_class: self.footprint_class@,
            scale_band: self.scale_band@,
            anchor_quality: self.anchor_quality@,
            entrance_expectations: texts(self.entrance_expectations@),
        }
    }
}

impl View for IntermediateConnector {
    type V = ConnectorView;

    open spec fn view(&self) -> ConnectorView {
        ConnectorView {
            id: self.id@,
            edge_id: self.edge_id@,
            from_region: self.from_region@,
            to_region: self.to_region@,
            intents: texts(self.intents@),
            affordances: texts(self.affordances@),
            traversal_hint: self.traversal_hint@,
            constraint_refs: texts(self.constraint_refs@),
        }
    }
}

impl View for IntermediateConstraint {
    type V = ConstraintView;

    open spec fn view(&self) -> ConstraintView {
        ConstraintView {
            code: self.code@,
            target: self.target@,
            target_type: self.target_type@,
            source_intents: texts(self.source_intents@),
            graph_refs: texts(self.graph_refs@),
            detail: self.detail@,
        }
    }
}

pub open spec fn region_views(v: Seq<IntermediateRegion>) -> Seq<RegionView> {
    v.map_values(|r: IntermediateRegion| r@)
}

pub open spec fn connector_views(v: Seq<IntermediateConnector>) -> Seq<ConnectorView> {
    v.map_values(|c: IntermediateConnector| c@)
}

pub open spec fn constraint_views(v: Seq<IntermediateConstraint>) -> Seq<ConstraintView> {
    v.map_values(|c: IntermediateConstraint| c@)
}

// ---------------------------------------------------------------------------
// Canonical JSON
// ---------------------------------------------------------------------------

/// The identity, nodes, role and anchor of a region object.
pub open spec fn region_head_json(r: RegionView) -> Seq<u8> {
    lit("{\"id\":") + text_json(r.id) + lit(",\"nodeIds\":") + texts_json(r.node_ids) + lit(
        ",\"role\":",
    ) + text_json(r.role) + lit(",\"anchorNode\":") + opt_text_json(r.anchor_node)
}

/// The geometry preparation fields of a region object.
pub open spec fn region_tail_json(r: RegionView) -> Seq<u8> {
    lit(",\"geometryRole\":") + text_json(r.geometry_role) + lit(",\"footprintClass\":")
        + text_json(r.footprint_class) + lit(",\"scaleBand\":") + text_json(r.scale_band) + lit(
        ",\"anchorQuality\":",
    ) + text_json(r.anchor_quality) + lit(",\"entranceExpectations\":") + texts_json(
        r.entrance_expectations,
    ) + lit("}")
}

#[verifier::opaque]
pub open spec fn region_json(r: RegionView) -> Seq<u8> {
    region_head_json(r) + region_tail_json(r)
}

#[verifier::opaque]
pub open spec fn connector_json(c: ConnectorView) -> Seq<u8> {
    lit("{\"id\":") + text_json(c.id) + lit(",\"edgeId\":") + text_json(c.edge_id) + lit(
        ",\"fromRegion\":",
    ) + text_json(c.from_region) + lit(",\"toRegion\":") + text_json(c.to_region) + lit(
        ",\"intents\":",
    ) + texts_json(c.intents) + lit(",\"affordances\":") + texts_json(c.affordances) + lit(
        ",\"traversalHint\":",
    ) + text_json(c.traversal_hint) + lit(",\"constraintRefs\":") + texts_json(c.constraint_refs)
        + lit("}")
}

#[verifier::opaque]
pub open spec fn constraint_json(c: ConstraintView) -> Seq<u8> {
    lit("{\"code\":") + text_json(c.code) + lit(",\"target\":") + text_json(c.target) + lit(
        ",\"targetType\":",
    ) + text_json(c.target_type) + lit(",\"sourceIntents\":") + texts_json(c.source_intents)
        + lit(",\"graphRefs\":") + texts_json(c.graph_refs) + lit(",\"detail\":") + text_json(
        c.detail,
    ) + lit("}")
}

pub open spec fn regions_json(s: Seq<RegionView>) -> Seq<u8> {
    lit("[") + join_items(s, |r: RegionView| region_json(r)) + lit("]")
}

pub open spec fn connectors_json(s: Seq<ConnectorView>) -> Seq<u8> {
    lit("[") + join_items(s, |c: ConnectorView| connector_json(c)) + lit("]")
}

pub open spec fn constraints_json(s: Seq<ConstraintView>) -> Seq<u8> {
    lit("[") + join_items(s, |c: ConstraintView| constraint_json(c)) + lit("]")
}

/// The canonical JSON of a breakdown.
pub open spec fn breakdown_json(b: IntermediateBreakdown) -> Seq<u8> {
    lit("{\"kind\":") + text_json(b.kind@) + lit(",\"schemaVersion\":") + dec_bytes(
        b.schema_version as nat,
    ) + lit(",\"candidateId\":") + text_json(b.candidate_id@) + lit(",\"stateHash\":")
        + text_json(b.state_hash@) + lit(",\"annotationRef\":") + text_json(b.annotation_ref@)
        + lit(",\"regions\":") + regions_json(region_views(b.regions@)) + lit(",\"connectors\":")
        + connectors_json(connector_views(b.connectors@)) + lit(",\"constraints\":")
        + constraints_json(constraint_views(b.constraints@)) + lit("}")
}

fn push_region_head(out: &mut Vec<u8>, r: &IntermediateRegion)
    ensures
        final(out)@ == old(out)@ + region_head_json(r@),
{
    push_raw(out, "{\"id\":");
    push_text(out, &r.id);
    push_raw(out, ",\"nodeIds\":");
    push_texts(out, &r.node_ids);
    push_raw(out, ",\"role\":");
    push_text(out, &r.role);
    push_raw(out, ",\"anchorNode\":");
    push_opt_text(out, &r.anchor_node);
    assert(final(out)@ =~= old(out)@ + region_head_json(r@));
}

fn push_region_tail(out: &mut Vec<u8>, r: &IntermediateRegion)
    ensures
        final(out)@ == old(out)@ + region_tail_json(r@),
{
    push_raw(out, ",\"geometryRole\":");
    push_text(out, &r.geometry_role);
    push_raw(out, ",\"footprintClass\":");
    push_text(out, &r.footprint_class);
    push_raw(out, ",\"scaleBand\":");
    push_text(out, &r.scale_band);
    push_raw(out, ",\"anchorQuality\":");
    push_text(out, &r.anchor_quality);
    push_raw(out, ",\"entranceExpectations\":");
    push_texts(out, &r.entrance_expectations);
    push_raw(out, "}");
    assert(final(out)@ =~= old(out)@ + region_tail_json(r@));
}

fn push_region(out: &mut Vec<u8>, r: &IntermediateRegion)
    ensures
        final(out)@ == old(out)@ + region_json(r@),
{
    push_region_head(out, r);
    push_region_tail(out, r);
    reveal(region_json);
    assert(final(out)@ =~= old(out)@ + region_json(r@));
}

fn push_connector(out: &mut Vec<u8>, c: &IntermediateConnector)
    ensures
        final(out)@ == old(out)@ + connector_json(c@),
{
    push_raw(out, "{\"id\":");
    push_text(out, &c.id);
    push_raw(out, ",\"edgeId\":");
    push_text(out, &c.edge_id);
    push_raw(out, ",\"fromRegion\":");
    push_text(out, &c.from_region);
    push_raw(out, ",\"toRegion\":");
    push_text(out, &c.to_region);
    push_raw(out, ",\"intents\":");
    push_texts(out, &c.intents);
    push_raw(out, ",\"affordances\":");
    push_texts(out, &c.affordances);
    push_raw(out, ",\"traversalHint\":");
    push_text(out, &c.traversal_hint);
    push_raw(out, ",\"constraintRefs\":");
    push_texts(out, &c.constraint_refs);
    push_raw(out, "}");
    reveal(connector_json);
    assert(final(out)@ =~= old(out)@ + connector_json(c@));
}

fn push_constraint(out: &mut Vec<u8>, c: &IntermediateConstraint)
    ensures
        final(out)@ == old(out)@ + constraint_json(c@),
{
    push_raw(out, "{\"code\":");
    push_text(out, &c.code);
    push_raw(out, ",\"target\":");
    push_text(out, &c.target);
    push_raw(out, ",\"targetType\":");
    push_text(out, &c.target_type);
    push_raw(out, ",\"sourceIntents\":");
    push_texts(out, &c.source_intents);
    push_raw(out, ",\"graphRefs\":");
    push_texts(out, &c.graph_refs);
    push_raw(out, ",\"detail\":");
    push_text(out, &c.detail);
    push_raw(out, "}");
    reveal(constraint_json);
    assert(final(out)@ =~= old(out)@ + constraint_json(c@));
}

fn push_regions(out: &mut Vec<u8>, v: &Vec<IntermediateRegion>)
    ensures
        final(out)@ == old(out)@ + regions_json(region_views(v@)),
{
    let ghost rv = region_views(v@);
    push_raw(out, "[");
    let ghost start = out@;
    let mut i: usize = 0;
    while i < v.len()
        invariant
            i <= v@.len(),
            rv == region_views(v@),
            out@ == start + join_items(rv.take(i as int), |r: RegionView| region_json(r)),
        decreases v@.len() - i,
    {
        proof {
            lemma_join_push(rv, i as int, |r: RegionView| region_json(r));
        }
        if i > 0 {
            push_raw(out, ",");
        }
        push_region(out, &v[i]);
        i = i + 1;
        assert(out@ =~= start + join_items(rv.take(i as int), |r: RegionView| region_json(r)));
    }
    assert(rv.take(v@.len() as int) =~= rv);
    push_raw(out, "]");
    assert(final(out)@ =~= old(out)@ + regions_json(rv));
}

fn push_connectors(out: &mut Vec<u8>, v: &Vec<IntermediateConnector>)
    ensures
        final(out)@ == old(out)@ + connectors_json(connector_views(v@)),
{
    let ghost cv = connector_views(v@);
    push_raw(out, "[");
    let ghost start = out@;
    let mut i: usize = 0;
    while i < v.len()
        invariant
            i <= v@.len(),
            cv == connector_views(v@),
            out@ == start + join_items(cv.take(i as int), |c: ConnectorView| connector_json(c)),
        decreases v@.len() - i,
    {
        proof {
            lemma_join_push(cv, i as int, |c: ConnectorView| connector_json(c));
        }
        if i > 0 {
            push_raw(out, ",");
        }
        push_connector(out, &v[i]);
        i = i + 1;
        assert(out@ =~= start + join_items(
            cv.take(i as int),
            |c: ConnectorView| connector_json(c),
        ));
    }
    assert(cv.take(v@.len() as int) =~= cv);
    push_raw(out, "]");
    assert(final(out)@ =~= old(out)@ + connectors_json(cv));
}

fn push_constraints(out: &mut Vec<u8>, v: &Vec<IntermediateConstraint>)
    ensures
        final(out)@ == old(out)@ + constraints_json(constraint_views(v@)),
{
    let ghost cv = constraint_views(v@);
    push_raw(out, "[");
    let ghost start = out@;
    let mut i: usize = 0;
    while i < v.len()
        invariant
            i <= v@.len(),
            cv == constraint_views(v@),
            out@ == start + join_items(cv.take(i as int), |c: ConstraintView| constraint_json(c)),
        decreases v@.len() - i,
    {
        proof {
            lemma_join_push(cv, i as int, |c: ConstraintView| constraint_json(c));
        }
        if i > 0 {
            push_raw(out, ",");
        }
        push_constraint(out, &v[i]);
        i = i + 1;
        assert(out@ =~= start + join_items(
            cv.take(i as int),
            |c: ConstraintView| constraint_json(c),
        ));
    }
    assert(cv.take(v@.len() as int) =~= cv);
    push_raw(out, "]");
    assert(final(out)@ =~= old(out)@ + constraints_json(cv));
}

/// The state hash of a breakdown: the hash text of its canonical JSON.
pub fn hash_breakdown(b: &IntermediateBreakdown) -> (h: String)
    ensures
        h@ == hash_of(breakdown_json(*b)),
{
    let mut out: Vec<u8> = Vec::new();
    push_raw(&mut out, "{\"kind\":");
    push_text(&mut out, &b.kind);
    push_raw(&mut out, ",\"schemaVersion\":");
    push_dec(&mut out, b.schema_version as u64);
    push_raw(&mut out, ",\"candidateId\":");
    push_text(&mut out, &b.candidate_id);
    push_raw(&mut out, ",\"stateHash\":");
    push_text(&mut out, &b.state_hash);
    push_raw(&mut out, ",\"annotationRef\":");
    push_text(&mut out, &b.annotation_ref);
    push_raw(&mut out, ",\"regions\":");
    push_regions(&mut out, &b.regions);
    push_raw(&mut out, ",\"connectors\":");
    push_connectors(&mut out, &b.connectors);
    push_raw(&mut out, ",\"constraints\":");
    push_constraints(&mut out, &b.constraints);
    push_raw(&mut out, "}");
    assert(out@ =~= breakdown_json(*b));
    format_hash(fnv1a64(out.as_slice()))
}

} // verus!
