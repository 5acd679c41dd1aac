//! The 2D geometry artifact: rooms with their doorway ports, corridors along
//! grid-aligned polylines, content anchors and the evidence of the layout
//! search, with its canonical JSON and state hash.

use vstd::prelude::*;
use vstd::string::*;

use crate::connection_plan::{PhysicalTraversalRef, TraversalRefView};
use crate::geometry_policy::{GeometryLayoutPolicy, GeometrySpacing};
use crate::json::{
    hash_of, join_items, lemma_join_push, lit, opt_text_json, push_opt_text, push_text, push_texts,
    text_json, texts_json,
};
use crate::model::{opt_text, texts};
use crate::sorting::views;
use crate::text::{dec_bytes, fnv1a64, format_hash, int_bytes, push_dec, push_i32, push_raw};

verus! {

#[derive(Clone, Copy, Debug, PartialEq, Eq, Structural)]
pub struct GeometryPoint {
    pub x: i32,
    pub y: i32,
}

#[derive(Clone, Copy, Debug, PartialEq, Eq, Structural)]
pub struct GeometryRect {
    pub x: i32,
    pub y: i32,
    pub width: i32,
    pub height: i32,
}

#[derive(Clone, Copy, Debug, PartialEq, Eq, Structural)]
pub struct GeometryBounds {
    pub width: i32,
    pub height: i32,
    pub grid: i32,
}

#[derive(Clone, Debug)]
pub struct GeometryRoomPort {
    pub id: String,
    pub section_id: String,
    pub side: String,
    pub point: GeometryPoint,
    pub width: i32,
}

#[derive(Clone, Debug)]
pub struct GeometryRoom {
    pub id: String,
    pub source_region: String,
    pub source_nodes: Vec<String>,
    pub role: String,
    pub geometry_role: String,
    pub footprint_class: String,
    pub rect: GeometryRect,
    pub ports: Vec<GeometryRoomPort>,
    pub style_tags: Vec<String>,
}

#[derive(Clone, Debug)]
pub struct GeometryCorridor {
    pub id: String,
    pub physical_section: String,
    pub source_connector: String,
    pub source_edge: String,
    pub source_connectors: Vec<String>,
    pub source_edges: Vec<String>,
    pub traversal_refs: Vec<PhysicalTraversalRef>,
    pub from_room: String,
    pub to_room: String,
    pub traversal_hint: String,
    pub semantic_tags: Vec<String>,
    pub width: i32,
    pub from_port: String,
    pub to_port: String,
    pub points: Vec<GeometryPoint>,
}

#[derive(Clone, Debug)]
pub struct GeometryContent {
    pub id: String,
    pub room_id: String,
    pub source_ref: String,
    pub kind: String,
    pub label: String,
    pub tags: Vec<String>,
}

#[derive(Clone, Debug)]
pub struct SkippedConnector {
    pub source_connector: String,
    pub reason: String,
}

#[derive(Clone, Debug)]
pub struct GeometryLayoutSearchEvidence {
    pub spacing_tier: u32,
    pub room_order_attempt: u32,
    pub port_order_attempt: u32,
    pub route_order_attempt: u32,
    pub search_attempts: u32,
    pub effective_spacing: GeometrySpacing,
    pub embedding_kind: String,
    pub embedding_id: String,
    pub embedding_faces: u32,
    pub embedding_target_faces: u32,
    pub embedding_search_steps: u32,
    pub route_decisions: u32,
    pub route_backtracks: u32,
    pub route_path_alternatives: u32,
    pub route_repairs: u32,
    pub route_grid_expansions: u32,
    pub route_path_expansion_exhaustions: u32,
    pub route_last_failed_section: String,
    pub route_blocking_owners: Vec<String>,
    pub valid_layout_candidates: u32,
    pub compactness_portal_capacity_penalty: u32,
    pub compactness_envelope_area: i64,
    pub compactness_corridor_centerline_length: i64,
    pub compactness_routed_shell_cost: i64,
    pub compactness_bend_count: u32,
}

#[derive(Clone, Debug)]
pub struct Geometry2dArtifact {
    pub kind: String,
    pub schema_version: u32,
    pub geometry_id: String,
    pub candidate_id: String,
    pub seed: u64,
    pub source_candidate_ref: String,
    pub source_intermediate_ref: String,
    pub source_connection_plan_ref: String,
    pub connection_plan_id: String,
    pub layout_policy: GeometryLayoutPolicy,
    pub layout_search: GeometryLayoutSearchEvidence,
    pub bounds: GeometryBounds,
    pub rooms: Vec<GeometryRoom>,
    pub corridors: Vec<GeometryCorridor>,
    pub contents: Vec<GeometryContent>,
    pub skipped_connectors: Vec<SkippedConnector>,
}

#[verifier::ext_equal]
pub struct PortView {
    pub id: Seq<char>,
    pub section_id: Seq<char>,
    pub side: Seq<char>,
    pub point: GeometryPoint,
    pub width: i32,
}

#[verifier::ext_equal]
pub struct RoomView {
    pub id: Seq<char>,
    pub source_region: Seq<char>,
    pub source_nodes: Seq<Seq<char>>,
    pub role: Seq<char>,
    pub geometry_role: Seq<char>,
    pub footprint_class: Seq<char>,
    pub rect: GeometryRect,
    pub ports: Seq<PortView>,
    pub style_tags: Seq<Seq<char>>,
}

#[verifier::ext_equal]
pub struct CorridorView {
    pub id: Seq<char>,
    pub physical_section: Seq<char>,
    pub source_connector: Seq<char>,
    pub source_edge: Seq<char>,
    pub source_connectors: Seq<Seq<char>>,
    pub source_edges: Seq<Seq<char>>,
    pub traversal_refs: Seq<TraversalRefView>,
    pub from_room: Seq<char>,
    pub to_room: Seq<char>,
    pub traversal_hint: Seq<char>,
    pub semantic_tags: Seq<Seq<char>>,
    pub width: i32,
    pub from_port: Seq<char>,
    pub to_port: Seq<char>,
    pub points: Seq<GeometryPoint>,
}

#[verifier::ext_equal]
pub struct ContentView {
    pub id: Seq<char>,
    pub room_id: Seq<char>,
    pub source_ref: Seq<char>,
    pub kind: Seq<char>,
    pub label: Seq<char>,
    pub tags: Seq<Seq<char>>,
}

#[verifier::ext_equal]
pub struct SkippedView {
    pub source_connector: Seq<char>,
    pub reason: Seq<char>,
}

impl View for GeometryRoomPort {
    type V = PortView;

    open spec fn view(&self) -> PortView {
        PortView {
            id: self.id@,
            section_id: self.section_id@,
            side: self.side@,
            point: self.point,
            width: self.width,
        }
    }
}

impl View for GeometryRoom {
    type V = RoomView;

    open spec fn view(&self) -> RoomView {
        RoomView {
            id: self.id@,
            source_region: self.source_region@,
            source_nodes: texts(self.source_nodes@),
            role: self.role@,
            geometry_role: self.geometry_role@,
            footprint_class: self.footprint_class@,
            rect: self.rect,
            ports: views(self.ports@),
            style_tags: texts(self.style_tags@),
        }
    }
}

impl View for GeometryCorridor {
    type V = CorridorView;

    open spec fn view(&self) -> CorridorView {
        CorridorView {
            id: self.id@,
            physical_section: self.physical_section@,
            source_connector: self.source_connector@,
            source_edge: self.source_edge@,
            source_connectors: texts(self.source_connectors@),
            source_edges: texts(self.source_edges@),
            traversal_refs: views(self.traversal_refs@),
            from_room: self.from_room@,
            to_room: self.to_room@,
            traversal_hint: self.traversal_hint@,
            semantic_tags: texts(self.semantic_tags@),
            width: self.width,
            from_port: self.from_port@,
            to_port: self.to_port@,
            points: self.points@,
        }
    }
}

impl View for GeometryContent {
    type V = ContentView;

    open spec fn view(&self) -> ContentView {
        ContentView {
            id: self.id@,
            room_id: self.room_id@,
            source_ref: self.source_ref@,
            kind: self.kind@,
            label: self.label@,
            tags: texts(self.tags@),
        }
    }
}

impl View for SkippedConnector {
    type V = SkippedView;

    open spec fn view(&self) -> SkippedView {
        SkippedView { source_connector: self.source_connector@, reason: self.reason@ }
    }
}

/// A record with a canonical JSON encoding.
pub trait JsonItem: View + Sized {
    spec fn item_json(v: Self::V) -> Seq<u8>;

    fn push_json(&self, out: &mut Vec<u8>)
        ensures
            final(out)@ == old(out)@ + Self::item_json(self@),
    ;
}

/// A JSON array of records.
pub open spec fn list_json<T: JsonItem>(s: Seq<T::V>) -> Seq<u8> {
    lit("[") + join_items(s, |v: T::V| T::item_json(v)) + lit("]")
}

/// Appends a JSON array of records.
pub fn push_list<T: JsonItem>(out: &mut Vec<u8>, v: &Vec<T>)
    ensures
        final(out)@ == old(out)@ + list_json::<T>(views(v@)),
{
    let ghost tv = views(v@);
    push_raw(out, "[");
    let ghost start = out@;
    let mut i: usize = 0;
    while i < v.len()
        invariant
            i <= v@.len(),
            tv == views(v@),
            out@ == start + join_items(tv.take(i as int), |x: T::V| T::item_json(x)),
        decreases v@.len() - i,
    {
        proof {
            lemma_join_push(tv, i as int, |x: T::V| T::item_json(x));
        }
        if i > 0 {
            push_raw(out, ",");
        }
        v[i].push_json(out);
        i = i + 1;
        assert(out@ =~= start + join_items(tv.take(i as int), |x: T::V| T::item_json(x)));
    }
    assert(tv.take(v@.len() as int) =~= tv);
    push_raw(out, "]");
    assert(final(out)@ =~= old(out)@ + list_json::<T>(tv));
}

pub open spec fn i32_json(v: i32) -> Seq<u8> {
    int_bytes(v as int)
}

pub open spec fn i64_json(v: i64) -> Seq<u8> {
    int_bytes(v as int)
}

pub open spec fn u32_json(v: u32) -> Seq<u8> {
    dec_bytes(v as nat)
}

/// Appends the decimal text of a signed 64-bit integer.
pub fn push_i64(out: &mut Vec<u8>, v: i64)
    ensures
        final(out)@ == old(out)@ + int_bytes(v as int),
{
    if v < 0 {
        out.push(45u8);
        let magnitude: u64 = if v == i64::MIN {
            9223372036854775808u64
        } else {
            (-v) as u64
        };
        push_dec(out, magnitude);
        assert(final(out)@ =~= old(out)@ + int_bytes(v as int));
    } else {
        push_dec(out, v as u64);
    }
}

pub open spec fn point_json(p: GeometryPoint) -> Seq<u8> {
    lit("{\"x\":") + i32_json(p.x) + lit(",\"y\":") + i32_json(p.y) + lit("}")
}

pub open spec fn rect_json(r: GeometryRect) -> Seq<u8> {
    lit("{\"x\":") + i32_json(r.x) + lit(",\"y\":") + i32_json(r.y) + lit(",\"width\":")
        + i32_json(r.width) + lit(",\"height\":") + i32_json(r.height) + lit("}")
}

pub open spec fn bounds_json(b: GeometryBounds) -> Seq<u8> {
    lit("{\"width\":") + i32_json(b.width) + lit(",\"height\":") + i32_json(b.height) + lit(
        ",\"grid\":",
    ) + i32_json(b.grid) + lit("}")
}

pub open spec fn port_json(p: PortView) -> Seq<u8> {
    lit("{\"id\":") + text_json(p.id) + lit(",\"sectionId\":") + text_json(p.section_id) + lit(
        ",\"side\":",
    ) + text_json(p.side) + lit(",\"point\":") + point_json(p.point) + lit(",\"width\":")
        + i32_json(p.width) + lit("}")
}

pub open spec fn traversal_ref_json(t: TraversalRefView) -> Seq<u8> {
    lit("{\"connectorId\":") + text_json(t.connector_id) + lit(",\"edgeId\":") + text_json(
        t.edge_id,
    ) + lit(",\"fromRegion\":") + text_json(t.from_region) + lit(",\"toRegion\":") + text_json(
        t.to_region,
    ) + lit(",\"traversal\":") + text_json(t.traversal) + lit(",\"requiredItem\":")
        + opt_text_json(t.required_item) + lit("}")
}

pub open spec fn room_json(r: RoomView) -> Seq<u8> {
    lit("{\"id\":") + text_json(r.id) + lit(",\"sourceRegion\":") + text_json(r.source_region)
        + lit(",\"sourceNodes\":") + texts_json(r.source_nodes) + lit(",\"role\":") + text_json(
        r.role,
    ) + lit(",\"geometryRole\":") + text_json(r.geometry_role) + lit(",\"footprintClass\":")
        + text_json(r.footprint_class) + lit(",\"rect\":") + rect_json(r.rect) + lit(
        ",\"ports\":",
    ) + list_json::<GeometryRoomPort>(r.ports) + lit(",\"styleTags\":") + texts_json(
        r.style_tags,
    ) + lit("}")
}

pub open spec fn corridor_head_json(c: CorridorView) -> Seq<u8> {
    lit("{\"id\":") + text_json(c.id) + lit(",\"physicalSection\":") + text_json(
        c.physical_section,
    ) + lit(",\"sourceConnector\":") + text_json(c.source_connector) + lit(",\"sourceEdge\":")
        + text_json(c.source_edge) + lit(",\"sourceConnectors\":") + texts_json(
        c.source_connectors,
    ) + lit(",\"sourceEdges\":") + texts_json(c.source_edges)
}

pub open spec fn corridor_mid_json(c: CorridorView) -> Seq<u8> {
    lit(",\"traversalRefs\":") + list_json::<PhysicalTraversalRef>(c.traversal_refs) + lit(
        ",\"fromRoom\":",
    ) + text_json(c.from_room) + lit(",\"toRoom\":") + text_json(c.to_room) + lit(
        ",\"traversalHint\":",
    ) + text_json(c.traversal_hint) + lit(",\"semanticTags\":") + texts_json(c.semantic_tags)
}

pub open spec fn corridor_tail_json(c: CorridorView) -> Seq<u8> {
    lit(",\"width\":") + i32_json(c.width) + lit(",\"fromPort\":") + text_json(c.from_port)
        + lit(",\"toPort\":") + text_json(c.to_port) + lit(",\"points\":") + list_json::<
        GeometryPoint,
    >(c.points) + lit("}")
}

pub open spec fn corridor_json(c: CorridorView) -> Seq<u8> {
    corridor_head_json(c) + corridor_mid_json(c) + corridor_tail_json(c)
}

pub open spec fn content_json(c: ContentView) -> Seq<u8> {
    lit("{\"id\":") + text_json(c.id) + lit(",\"roomId\":") + text_json(c.room_id) + lit(
        ",\"sourceRef\":",
    ) + text_json(c.source_ref) + lit(",\"kind\":") + text_json(c.kind) + lit(",\"label\":")
        + text_json(c.label) + lit(",\"tags\":") + texts_json(c.tags) + lit("}")
}

pub open spec fn skipped_json(s: SkippedView) -> Seq<u8> {
    lit("{\"sourceConnector\":") + text_json(s.source_connector) + lit(",\"reason\":")
        + text_json(s.reason) + lit("}")
}

pub open spec fn spacing_json(s: GeometrySpacing) -> Seq<u8> {
    lit("{\"roomMargin\":") + i32_json(s.room_margin) + lit(",\"columnGap\":") + i32_json(
        s.column_gap,
    ) + lit(",\"rowGap\":") + i32_json(s.row_gap) + lit("}")
}

pub open spec fn policy_json(p: GeometryLayoutPolicy) -> Seq<u8> {
    lit("{\"kind\":") + text_json(p.kind@) + lit(",\"schemaVersion\":") + u32_json(
        p.schema_version,
    ) + lit(",\"initialRoomMargin\":") + i32_json(p.initial_room_margin) + lit(
        ",\"initialColumnGap\":",
    ) + i32_json(p.initial_column_gap) + lit(",\"initialRowGap\":") + i32_json(p.initial_row_gap)
        + lit(",\"roomMarginGrowth\":") + i32_json(p.room_margin_growth) + lit(
        ",\"columnGapGrowth\":",
    ) + i32_json(p.column_gap_growth) + lit(",\"rowGapGrowth\":") + i32_json(p.row_gap_growth)
        + lit(",\"maxSpacingTiers\":") + u32_json(p.max_spacing_tiers) + lit(
        ",\"roomOrderAttemptsPerTier\":",
    ) + u32_json(p.room_order_attempts_per_tier) + lit(",\"maxSearchAttempts\":") + u32_json(
        p.max_search_attempts,
    ) + lit("}")
}

pub open spec fn search_head_json(s: GeometryLayoutSearchEvidence) -> Seq<u8> {
    lit("{\"spacingTier\":") + u32_json(s.spacing_tier) + lit(",\"roomOrderAttempt\":")
        + u32_json(s.room_order_attempt) + lit(",\"portOrderAttempt\":") + u32_json(
        s.port_order_attempt,
    ) + lit(",\"routeOrderAttempt\":") + u32_json(s.route_order_attempt) + lit(
        ",\"searchAttempts\":",
    ) + u32_json(s.search_attempts) + lit(",\"effectiveSpacing\":") + spacing_json(
        s.effective_spacing,
    ) + lit(",\"embeddingKind\":") + text_json(s.embedding_kind@) + lit(",\"embeddingId\":")
        + text_json(s.embedding_id@)
}

pub open spec fn search_mid_json(s: GeometryLayoutSearchEvidence) -> Seq<u8> {
    lit(",\"embeddingFaces\":") + u32_json(s.embedding_faces) + lit(",\"embeddingTargetFaces\":")
        + u32_json(s.embedding_target_faces) + lit(",\"embeddingSearchSteps\":") + u32_json(
        s.embedding_search_steps,
    ) + lit(",\"routeDecisions\":") + u32_json(s.route_decisions) + lit(",\"routeBacktracks\":")
        + u32_json(s.route_backtracks) + lit(",\"routePathAlternatives\":") + u32_json(
        s.route_path_alternatives,
    ) + lit(",\"routeRepairs\":") + u32_json(s.route_repairs) + lit(",\"routeGridExpansions\":")
        + u32_json(s.route_grid_expansions) + lit(",\"routePathExpansionExhaustions\":")
        + u32_json(s.route_path_expansion_exhaustions)
}

pub open spec fn search_tail_json(s: GeometryLayoutSearchEvidence) -> Seq<u8> {
    lit(",\"routeLastFailedSection\":") + text_json(s.route_last_failed_section@) + lit(
        ",\"routeBlockingOwners\":",
    ) + texts_json(texts(s.route_blocking_owners@)) + lit(",\"validLayoutCandidates\":")
        + u32_json(s.valid_layout_candidates) + lit(",\"compactnessPortalCapacityPenalty\":")
        + u32_json(s.compactness_portal_capacity_penalty) + lit(",\"compactnessEnvelopeArea\":")
        + i64_json(s.compactness_envelope_area) + lit(",\"compactnessCorridorCenterlineLength\":")
        + i64_json(s.compactness_corridor_centerline_length) + lit(
        ",\"compactnessRoutedShellCost\":",
    ) + i64_json(s.compactness_routed_shell_cost) + lit(",\"compactnessBendCount\":") + u32_json(
        s.compactness_bend_count,
    ) + lit("}")
}

pub open spec fn search_json(s: GeometryLayoutSearchEvidence) -> Seq<u8> {
    search_head_json(s) + search_mid_json(s) + search_tail_json(s)
}

/// The canonical JSON of a geometry artifact.
pub open spec fn geometry_json(g: Geometry2dArtifact) -> Seq<u8> {
    lit("{\"kind\":") + text_json(g.kind@) + lit(",\"schemaVersion\":") + u32_json(
        g.schema_version,
    ) + lit(",\"geometryId\":") + text_json(g.geometry_id@) + lit(",\"candidateId\":")
        + text_json(g.candidate_id@) + lit(",\"seed\":") + dec_bytes(g.seed as nat) + lit(
        ",\"sourceCandidateRef\":",
    ) + text_json(g.source_candidate_ref@) + lit(",\"sourceIntermediateRef\":") + text_json(
        g.source_intermediate_ref@,
    ) + lit(",\"sourceConnectionPlanRef\":") + text_json(g.source_connection_plan_ref@) + lit(
        ",\"connectionPlanId\":",
    ) + text_json(g.connection_plan_id@) + lit(",\"layoutPolicy\":") + policy_json(
        g.layout_policy,
    ) + lit(",\"layoutSearch\":") + search_json(g.layout_search) + lit(",\"bounds\":")
        + bounds_json(g.bounds) + lit(",\"rooms\":") + list_json::<GeometryRoom>(
        views(g.rooms@),
    ) + lit(",\"corridors\":") + list_json::<GeometryCorridor>(views(g.corridors@)) + lit(
        ",\"contents\":",
    ) + list_json::<GeometryContent>(views(g.contents@)) + lit(",\"skippedConnectors\":")
        + list_json::<SkippedConnector>(views(g.skipped_connectors@)) + lit("}")
}

impl View for GeometryPoint {
    type V = GeometryPoint;

    open spec fn view(&self) -> GeometryPoint {
        *self
    }
}

impl JsonItem for GeometryPoint {
    open spec fn item_json(v: GeometryPoint) -> Seq<u8> {
        point_json(v)
    }

    fn push_json(&self, out: &mut Vec<u8>) {
        push_raw(out, "{\"x\":");
        push_i32(out, self.x);
        push_raw(out, ",\"y\":");
        push_i32(out, self.y);
        push_raw(out, "}");
        assert(out@ =~= old(out)@ + point_json(*self));
        assert(self@ == *self);
        assert(Self::item_json(self@) == point_json(*self));
    }
}

fn push_rect(out: &mut Vec<u8>, r: &GeometryRect)
    ensures
        final(out)@ == old(out)@ + rect_json(*r),
{
    push_raw(out, "{\"x\":");
    push_i32(out, r.x);
    push_raw(out, ",\"y\":");
    push_i32(out, r.y);
    push_raw(out, ",\"width\":");
    push_i32(out, r.width);
    push_raw(out, ",\"height\":");
    push_i32(out, r.height);
    push_raw(out, "}");
    assert(final(out)@ =~= old(out)@ + rect_json(*r));
}

fn push_bounds(out: &mut Vec<u8>, b: &GeometryBounds)
    ensures
        final(out)@ == old(out)@ + bounds_json(*b),
{
    push_raw(out, "{\"width\":");
    push_i32(out, b.width);
    push_raw(out, ",\"height\":");
    push_i32(out, b.height);
    push_raw(out, ",\"grid\":");
    push_i32(out, b.grid);
    push_raw(out, "}");
    assert(final(out)@ =~= old(out)@ + bounds_json(*b));
}

impl JsonItem for GeometryRoomPort {
    open spec fn item_json(v: PortView) -> Seq<u8> {
        port_json(v)
    }

    fn push_json(&self, out: &mut Vec<u8>) {
        push_raw(out, "{\"id\":");
        push_text(out, &self.id);
        push_raw(out, ",\"sectionId\":");
        push_text(out, &self.section_id);
        push_raw(out, ",\"side\":");
        push_text(out, &self.side);
        push_raw(out, ",\"point\":");
        self.point.push_json(out);
        push_raw(out, ",\"width\":");
        push_i32(out, self.width);
        push_raw(out, "}");
        assert(final(out)@ =~= old(out)@ + port_json(self@));
    }
}

impl JsonItem for PhysicalTraversalRef {
    open spec fn item_json(v: TraversalRefView) -> Seq<u8> {
        traversal_ref_json(v)
    }

    fn push_json(&self, out: &mut Vec<u8>) {
        push_raw(out, "{\"connectorId\":");
        push_text(out, &self.connector_id);
        push_raw(out, ",\"edgeId\":");
        push_text(out, &self.edge_id);
        push_raw(out, ",\"fromRegion\":");
        push_text(out, &self.from_region);
        push_raw(out, ",\"toRegion\":");
        push_text(out, &self.to_region);
        push_raw(out, ",\"traversal\":");
        push_text(out, &self.traversal);
        push_raw(out, ",\"requiredItem\":");
        push_opt_text(out, &self.required_item);
        push_raw(out, "}");
        assert(final(out)@ =~= old(out)@ + traversal_ref_json(self@));
    }
}

impl JsonItem for GeometryRoom {
    open spec fn item_json(v: RoomView) -> Seq<u8> {
        room_json(v)
    }

    #[verifier::rlimit(80)]
    fn push_json(&self, out: &mut Vec<u8>) {
        push_raw(out, "{\"id\":");
        push_text(out, &self.id);
        push_raw(out, ",\"sourceRegion\":");
        push_text(out, &self.source_region);
        push_raw(out, ",\"sourceNodes\":");
        push_texts(out, &self.source_nodes);
        push_raw(out, ",\"role\":");
        push_text(out, &self.role);
        push_raw(out, ",\"geometryRole\":");
        push_text(out, &self.geometry_role);
        push_raw(out, ",\"footprintClass\":");
        push_text(out, &self.footprint_class);
        push_raw(out, ",\"rect\":");
        push_rect(out, &self.rect);
        push_raw(out, ",\"ports\":");
        push_list(out, &self.ports);
        push_raw(out, ",\"styleTags\":");
        push_texts(out, &self.style_tags);
        push_raw(out, "}");
        assert(final(out)@ =~= old(out)@ + room_json(self@));
    }
}

fn push_corridor_head(out: &mut Vec<u8>, c: &GeometryCorridor)
    ensures
        final(out)@ == old(out)@ + corridor_head_json(c@),
{
    push_raw(out, "{\"id\":");
    push_text(out, &c.id);
    push_raw(out, ",\"physicalSection\":");
    push_text(out, &c.physical_section);
    push_raw(out, ",\"sourceConnector\":");
    push_text(out, &c.source_connector);
    push_raw(out, ",\"sourceEdge\":");
    push_text(out, &c.source_edge);
    push_raw(out, ",\"sourceConnectors\":");
    push_texts(out, &c.source_connectors);
    push_raw(out, ",\"sourceEdges\":");
    push_texts(out, &c.source_edges);
    assert(out@ =~= old(out)@ + corridor_head_json(c@));
}

fn push_corridor_mid(out: &mut Vec<u8>, c: &GeometryCorridor)
    ensures
        final(out)@ == old(out)@ + corridor_mid_json(c@),
{
    push_raw(out, ",\"traversalRefs\":");
    push_list(out, &c.traversal_refs);
    push_raw(out, ",\"fromRoom\":");
    push_text(out, &c.from_room);
    push_raw(out, ",\"toRoom\":");
    push_text(out, &c.to_room);
    push_raw(out, ",\"traversalHint\":");
    push_text(out, &c.traversal_hint);
    push_raw(out, ",\"semanticTags\":");
    push_texts(out, &c.semantic_tags);
    assert(out@ =~= old(out)@ + corridor_mid_json(c@));
}

fn push_corridor_tail(out: &mut Vec<u8>, c: &GeometryCorridor)
    ensures
        final(out)@ == old(out)@ + corridor_tail_json(c@),
{
    push_raw(out, ",\"width\":");
    push_i32(out, c.width);
    push_raw(out, ",\"fromPort\":");
    push_text(out, &c.from_port);
    push_raw(out, ",\"toPort\":");
    push_text(out, &c.to_port);
    push_raw(out, ",\"points\":");
    push_list(out, &c.points);
    proof {
        assert(views(c.points@) =~= c.points@);
    }
    push_raw(out, "}");
    assert(out@ =~= old(out)@ + corridor_tail_json(c@));
}

impl JsonItem for GeometryCorridor {
    open spec fn item_json(v: CorridorView) -> Seq<u8> {
        corridor_json(v)
    }

    fn push_json(&self, out: &mut Vec<u8>) {
        push_corridor_head(out, self);
        push_corridor_mid(out, self);
        push_corridor_tail(out, self);
        assert(out@ =~= old(out)@ + corridor_json(self@));
    }
}

impl JsonItem for GeometryContent {
    open spec fn item_json(v: ContentView) -> Seq<u8> {
        content_json(v)
    }

    fn push_json(&self, out: &mut Vec<u8>) {
        push_raw(out, "{\"id\":");
        push_text(out, &self.id);
        push_raw(out, ",\"roomId\":");
        push_text(out, &self.room_id);
        push_raw(out, ",\"sourceRef\":");
        push_text(out, &self.source_ref);
        push_raw(out, ",\"kind\":");
        push_text(out, &self.kind);
        push_raw(out, ",\"label\":");
        push_text(out, &self.label);
        push_raw(out, ",\"tags\":");
        push_texts(out, &self.tags);
        push_raw(out, "}");
        assert(final(out)@ =~= old(out)@ + content_json(self@));
    }
}

impl JsonItem for SkippedConnector {
    open spec fn item_json(v: SkippedView) -> Seq<u8> {
        skipped_json(v)
    }

    fn push_json(&self, out: &mut Vec<u8>) {
        push_raw(out, "{\"sourceConnector\":");
        push_text(out, &self.source_connector);
        push_raw(out, ",\"reason\":");
        push_text(out, &self.reason);
        push_raw(out, "}");
        assert(final(out)@ =~= old(out)@ + skipped_json(self@));
    }
}

fn push_spacing(out: &mut Vec<u8>, s: &GeometrySpacing)
    ensures
        final(out)@ == old(out)@ + spacing_json(*s),
{
    push_raw(out, "{\"roomMargin\":");
    push_i32(out, s.room_margin);
    push_raw(out, ",\"columnGap\":");
    push_i32(out, s.column_gap);
    push_raw(out, ",\"rowGap\":");
    push_i32(out, s.row_gap);
    push_raw(out, "}");
    assert(final(out)@ =~= old(out)@ + spacing_json(*s));
}

fn push_policy(out: &mut Vec<u8>, p: &GeometryLayoutPolicy)
    ensures
        final(out)@ == old(out)@ + policy_json(*p),
{
    push_raw(out, "{\"kind\":");
    push_text(out, &p.kind);
    push_raw(out, ",\"schemaVersion\":");
    push_dec(out, p.schema_version as u64);
    push_raw(out, ",\"initialRoomMargin\":");
    push_i32(out, p.initial_room_margin);
    push_raw(out, ",\"initialColumnGap\":");
    push_i32(out, p.initial_column_gap);
    push_raw(out, ",\"initialRowGap\":");
    push_i32(out, p.initial_row_gap);
    push_raw(out, ",\"roomMarginGrowth\":");
    push_i32(out, p.room_margin_growth);
    push_raw(out, ",\"columnGapGrowth\":");
    push_i32(out, p.column_gap_growth);
    push_raw(out, ",\"rowGapGrowth\":");
    push_i32(out, p.row_gap_growth);
    push_raw(out, ",\"maxSpacingTiers\":");
    push_dec(out, p.max_spacing_tiers as u64);
    push_raw(out, ",\"roomOrderAttemptsPerTier\":");
    push_dec(out, p.room_order_attempts_per_tier as u64);
    push_raw(out, ",\"maxSearchAttempts\":");
    push_dec(out, p.max_search_attempts as u64);
    push_raw(out, "}");
    assert(final(out)@ =~= old(out)@ + policy_json(*p));
}

fn push_search_head(out: &mut Vec<u8>, s: &GeometryLayoutSearchEvidence)
    ensures
        final(out)@ == old(out)@ + search_head_json(*s),
{
    push_raw(out, "{\"spacingTier\":");
    push_dec(out, s.spacing_tier as u64);
    push_raw(out, ",\"roomOrderAttempt\":");
    push_dec(out, s.room_order_attempt as u64);
    push_raw(out, ",\"portOrderAttempt\":");
    push_dec(out, s.port_order_attempt as u64);
    push_raw(out, ",\"routeOrderAttempt\":");
    push_dec(out, s.route_order_attempt as u64);
    push_raw(out, ",\"searchAttempts\":");
    push_dec(out, s.search_attempts as u64);
    push_raw(out, ",\"effectiveSpacing\":");
    push_spacing(out, &s.effective_spacing);
    push_raw(out, ",\"embeddingKind\":");
    push_text(out, &s.embedding_kind);
    push_raw(out, ",\"embeddingId\":");
    push_text(out, &s.embedding_id);
    assert(out@ =~= old(out)@ + search_head_json(*s));
}

fn push_search_mid(out: &mut Vec<u8>, s: &GeometryLayoutSearchEvidence)
    ensures
        final(out)@ == old(out)@ + search_mid_json(*s),
{
    push_raw(out, ",\"embeddingFaces\":");
    push_dec(out, s.embedding_faces as u64);
    push_raw(out, ",\"embeddingTargetFaces\":");
    push_dec(out, s.embedding_target_faces as u64);
    push_raw(out, ",\"embeddingSearchSteps\":");
    push_dec(out, s.embedding_search_steps as u64);
    push_raw(out, ",\"routeDecisions\":");
    push_dec(out, s.route_decisions as u64);
    push_raw(out, ",\"routeBacktracks\":");
    push_dec(out, s.route_backtracks as u64);
    push_raw(out, ",\"routePathAlternatives\":");
    push_dec(out, s.route_path_alternatives as u64);
    push_raw(out, ",\"routeRepairs\":");
    push_dec(out, s.route_repairs as u64);
    push_raw(out, ",\"routeGridExpansions\":");
    push_dec(out, s.route_grid_expansions as u64);
    push_raw(out, ",\"routePathExpansionExhaustions\":");
    push_dec(out, s.route_path_expansion_exhaustions as u64);
    assert(out@ =~= old(out)@ + search_mid_json(*s));
}

fn push_search_tail(out: &mut Vec<u8>, s: &GeometryLayoutSearchEvidence)
    ensures
        final(out)@ == old(out)@ + search_tail_json(*s),
{
    push_raw(out, ",\"routeLastFailedSection\":");
    push_text(out, &s.route_last_failed_section);
    push_raw(out, ",\"routeBlockingOwners\":");
    push_texts(out, &s.route_blocking_owners);
    push_raw(out, ",\"validLayoutCandidates\":");
    push_dec(out, s.valid_layout_candidates as u64);
    push_raw(out, ",\"compactnessPortalCapacityPenalty\":");
    push_dec(out, s.compactness_portal_capacity_penalty as u64);
    push_raw(out, ",\"compactnessEnvelopeArea\":");
    push_i64(out, s.compactness_envelope_area);
    push_raw(out, ",\"compactnessCorridorCenterlineLength\":");
    push_i64(out, s.compactness_corridor_centerline_length);
    push_raw(out, ",\"compactnessRoutedShellCost\":");
    push_i64(out, s.compactness_routed_shell_cost);
    push_raw(out, ",\"compactnessBendCount\":");
    push_dec(out, s.compactness_bend_count as u64);
    push_raw(out, "}");
    assert(out@ =~= old(out)@ + search_tail_json(*s));
}

fn push_search(out: &mut Vec<u8>, s: &GeometryLayoutSearchEvidence)
    ensures
        final(out)@ == old(out)@ + search_json(*s),
{
    push_search_head(out, s);
    push_search_mid(out, s);
    push_search_tail(out, s);
    assert(out@ =~= old(out)@ + search_json(*s));
}

/// The canonical JSON bytes of a geometry artifact.
pub fn geometry_bytes(g: &Geometry2dArtifact) -> (r: Vec<u8>)
    ensures
        r@ == geometry_json(*g),
{
    let mut out: Vec<u8> = Vec::new();
    push_raw(&mut out, "{\"kind\":");
    push_text(&mut out, &g.kind);
    push_raw(&mut out, ",\"schemaVersion\":");
    push_dec(&mut out, g.schema_version as u64);
    push_raw(&mut out, ",\"geometryId\":");
    push_text(&mut out, &g.geometry_id);
    push_raw(&mut out, ",\"candidateId\":");
    push_text(&mut out, &g.candidate_id);
    push_raw(&mut out, ",\"seed\":");
    push_dec(&mut out, g.seed);
    push_raw(&mut out, ",\"sourceCandidateRef\":");
    push_text(&mut out, &g.source_candidate_ref);
    push_raw(&mut out, ",\"sourceIntermediateRef\":");
    push_text(&mut out, &g.source_intermediate_ref);
    push_raw(&mut out, ",\"sourceConnectionPlanRef\":");
    push_text(&mut out, &g.source_connection_plan_ref);
    push_raw(&mut out, ",\"connectionPlanId\":");
    push_text(&mut out, &g.connection_plan_id);
    push_raw(&mut out, ",\"layoutPolicy\":");
    push_policy(&mut out, &g.layout_policy);
    push_raw(&mut out, ",\"layoutSearch\":");
    push_search(&mut out, &g.layout_search);
    push_raw(&mut out, ",\"bounds\":");
    push_bounds(&mut out, &g.bounds);
    push_raw(&mut out, ",\"rooms\":");
    push_list(&mut out, &g.rooms);
    push_raw(&mut out, ",\"corridors\":");
    push_list(&mut out, &g.corridors);
    push_raw(&mut out, ",\"contents\":");
    push_list(&mut out, &g.contents);
    push_raw(&mut out, ",\"skippedConnectors\":");
    push_list(&mut out, &g.skipped_connectors);
    push_raw(&mut out, "}");
    assert(out@ =~= geometry_json(*g));
    out
}

/// The state hash of a geometry artifact.
pub fn hash_geometry(g: &Geometry2dArtifact) -> (h: String)
    ensures
        h@ == hash_of(geometry_json(*g)),
{
    let bytes = geometry_bytes(g);
    format_hash(fnv1a64(bytes.as_slice()))
}

} // verus!
