//! The catalog generation trace: a bounded, hash-chained record of the
//! events of a catalog-aware run. Each event's hash covers its index,
//! attempt, body and the hash before it; the chain starts at a root hash
//! that binds the run's inputs, policy and limits.

use vstd::prelude::*;
use vstd::string::*;

use crate::catalog::GridCell;
use crate::catalog_outcome::{
    CatalogAwareGenerationPolicy, CatalogAwareOutcomeConstraints, CatalogAwareOutcomeMetric,
    CatalogAwareOutcomePreferences,
};
use crate::geometry::{i32_json, list_json, push_list, u32_json, JsonItem};
use crate::json::{hash_of, lit, opt_u64_json, push_opt_u64, push_text, push_texts, text_json, texts_json};
use crate::model::{opt_text, owned, texts};
use crate::sorting::views;
use crate::text::{str_eq, dec_bytes, dec_text, fnv1a64, format_hash, push_dec, push_dec_text, push_i32, push_raw};

verus! {

pub const DEFAULT_CATALOG_TRACE_MAX_EVENTS: u32 = 1_024;

pub const DEFAULT_CATALOG_TRACE_MAX_EVENT_BODY_BYTES: u64 = 1_048_576;

pub const DEFAULT_CATALOG_TRACE_MAX_VISUAL_CELLS: u64 = 131_072;

pub const HARD_CATALOG_TRACE_MAX_EVENTS: u32 = 4_096;

pub const HARD_CATALOG_TRACE_MAX_EVENT_BODY_BYTES: u64 = 4_194_304;

pub const HARD_CATALOG_TRACE_MAX_VISUAL_CELLS: u64 = 1_048_576;

#[derive(Clone, Copy, Debug, PartialEq, Eq, Structural)]
pub struct CatalogGenerationTraceLimits {
    pub max_events: u32,
    pub max_event_body_bytes: u64,
    pub max_visual_cells: u64,
}

impl Default for CatalogGenerationTraceLimits {
    fn default() -> (r: Self)
        ensures
            r == (CatalogGenerationTraceLimits {
                max_events: DEFAULT_CATALOG_TRACE_MAX_EVENTS,
                max_event_body_bytes: DEFAULT_CATALOG_TRACE_MAX_EVENT_BODY_BYTES,
                max_visual_cells: DEFAULT_CATALOG_TRACE_MAX_VISUAL_CELLS,
            }),
    {
        CatalogGenerationTraceLimits {
            max_events: DEFAULT_CATALOG_TRACE_MAX_EVENTS,
            max_event_body_bytes: DEFAULT_CATALOG_TRACE_MAX_EVENT_BODY_BYTES,
            max_visual_cells: DEFAULT_CATALOG_TRACE_MAX_VISUAL_CELLS,
        }
    }
}

#[derive(Clone, Debug)]
pub struct CatalogGenerationTraceError {
    pub code: String,
    pub detail: String,
    pub observed: Option<u64>,
    pub limit: Option<u64>,
}

/// A trace error as plain values.
#[verifier::ext_equal]
pub struct TraceErrorView {
    pub code: Seq<char>,
    pub detail: Seq<char>,
    pub observed: Option<u64>,
    pub limit: Option<u64>,
}

impl View for CatalogGenerationTraceError {
    type V = TraceErrorView;

    open spec fn view(&self) -> TraceErrorView {
        TraceErrorView {
            code: self.code@,
            detail: self.detail@,
            observed: self.observed,
            limit: self.limit,
        }
    }
}

impl CatalogGenerationTraceError {
    pub fn new(code: &str, detail: String, observed: Option<u64>, limit: Option<u64>) -> (r: Self)
        ensures
            r@ == (TraceErrorView { code: code@, detail: detail@, observed, limit }),
    {
        CatalogGenerationTraceError { code: owned(code), detail, observed, limit }
    }
}

/// The first limit that a set of trace limits breaks, as an error.
pub open spec fn trace_limits_check(l: CatalogGenerationTraceLimits) -> Option<TraceErrorView> {
    if l.max_events == 0 || l.max_events > HARD_CATALOG_TRACE_MAX_EVENTS {
        Some(
            TraceErrorView {
                code: "trace_event_limit_invalid"@,
                detail: "maxEvents must be from 1 through 4096"@,
                observed: Some(l.max_events as u64),
                limit: Some(HARD_CATALOG_TRACE_MAX_EVENTS as u64),
            },
        )
    } else if l.max_event_body_bytes == 0 || l.max_event_body_bytes
        > HARD_CATALOG_TRACE_MAX_EVENT_BODY_BYTES {
        Some(
            TraceErrorView {
                code: "trace_event_body_byte_limit_invalid"@,
                detail: "maxEventBodyBytes must be from 1 through 4194304"@,
                observed: Some(l.max_event_body_bytes),
                limit: Some(HARD_CATALOG_TRACE_MAX_EVENT_BODY_BYTES),
            },
        )
    } else if l.max_visual_cells == 0 || l.max_visual_cells > HARD_CATALOG_TRACE_MAX_VISUAL_CELLS {
        Some(
            TraceErrorView {
                code: "trace_visual_cell_limit_invalid"@,
                detail: "maxVisualCells must be from 1 through 1048576"@,
                observed: Some(l.max_visual_cells),
                limit: Some(HARD_CATALOG_TRACE_MAX_VISUAL_CELLS),
            },
        )
    } else {
        None
    }
}

/// Checks trace limits against the hard bounds.
pub fn validate_catalog_generation_trace_limits(limits: &CatalogGenerationTraceLimits) -> (r: Result<
    (),
    CatalogGenerationTraceError,
>)
    ensures
        match r {
            Ok(()) => trace_limits_check(*limits) is None,
            Err(e) => trace_limits_check(*limits) == Some(e@),
        },
{
    if limits.max_events == 0 || limits.max_events > HARD_CATALOG_TRACE_MAX_EVENTS {
        return Err(
            CatalogGenerationTraceError::new(
                "trace_event_limit_invalid",
                owned("maxEvents must be from 1 through 4096"),
                Some(limits.max_events as u64),
                Some(HARD_CATALOG_TRACE_MAX_EVENTS as u64),
            ),
        );
    }
    if limits.max_event_body_bytes == 0 || limits.max_event_body_bytes
        > HARD_CATALOG_TRACE_MAX_EVENT_BODY_BYTES {
        return Err(
            CatalogGenerationTraceError::new(
                "trace_event_body_byte_limit_invalid",
                owned("maxEventBodyBytes must be from 1 through 4194304"),
                Some(limits.max_event_body_bytes),
                Some(HARD_CATALOG_TRACE_MAX_EVENT_BODY_BYTES),
            ),
        );
    }
    if limits.max_visual_cells == 0 || limits.max_visual_cells > HARD_CATALOG_TRACE_MAX_VISUAL_CELLS {
        return Err(
            CatalogGenerationTraceError::new(
                "trace_visual_cell_limit_invalid",
                owned("maxVisualCells must be from 1 through 1048576"),
                Some(limits.max_visual_cells),
                Some(HARD_CATALOG_TRACE_MAX_VISUAL_CELLS),
            ),
        );
    }
    Ok(())
}

#[derive(Clone, Debug)]
pub struct CatalogGenerationTraceInputHashes {
    pub candidate_hash: String,
    pub source_geometry_hash: String,
    pub source_plan_hash: String,
    pub catalog_hash: String,
    pub generation_policy_hash: String,
    pub provenance_hash: String,
}

#[derive(Clone, Debug)]
pub struct CatalogGenerationTraceRoomCandidate {
    pub shape_id: String,
    pub transform: String,
    pub score: i32,
    pub rank: usize,
}

#[derive(Clone, Debug)]
pub struct CatalogGenerationTraceRoomPlacement {
    pub piece_id: String,
    pub requirement_kind: String,
    pub shape_id: String,
    pub transform: String,
    pub origin: GridCell,
    pub occupied_cells: Vec<GridCell>,
    pub reserved_cells: Vec<GridCell>,
}

#[derive(Clone, Debug)]
pub struct CatalogGenerationTraceRoute {
    pub section_id: String,
    pub cells: Vec<GridCell>,
    pub states_visited: u32,
}

#[derive(Clone, Copy, Debug, PartialEq, Eq, Structural)]
pub struct CatalogGridBounds {
    pub min_x: i32,
    pub max_x: i32,
    pub min_y: i32,
    pub max_y: i32,
}

#[derive(Clone, Debug)]
pub enum CatalogGenerationTraceEventBody {
    InputBound { input_hashes: CatalogGenerationTraceInputHashes },
    AttemptStarted { room_slack_cells: i32 },
    RoomDomainEvaluated {
        piece_id: String,
        requirement_kind: String,
        candidates: Vec<CatalogGenerationTraceRoomCandidate>,
    },
    RoomPlaced { placement: CatalogGenerationTraceRoomPlacement },
    RoomConflict { piece_id: String, conflicting_cells: Vec<GridCell> },
    SectionRoutingStarted {
        section_id: String,
        start: GridCell,
        goal: GridCell,
        guide: Vec<GridCell>,
        bounds: CatalogGridBounds,
    },
    SectionRoutingFinished {
        section_id: String,
        status: String,
        cells: Vec<GridCell>,
        states_visited: u32,
    },
    ValidationCompleted {
        stage: String,
        ok: bool,
        subject_hash: String,
        diagnostic_codes: Vec<String>,
    },
    AttemptFinished {
        classification: String,
        stage: String,
        detail: String,
        rooms_placed: usize,
        sections_routed: usize,
        routing_states: u32,
    },
    RunFinished {
        selected_attempt: Option<u32>,
        classification: String,
        reason: String,
        output_hash: String,
    },
}

#[derive(Clone, Debug)]
pub struct CatalogGenerationTraceEvent {
    pub index: u32,
    pub attempt: Option<u32>,
    pub previous_hash: String,
    pub event_hash: String,
    pub body: CatalogGenerationTraceEventBody,
}

#[derive(Clone, Debug)]
pub struct CatalogGenerationTraceSelection {
    pub selected_attempt: Option<u32>,
    pub classification: String,
    pub reason: String,
}

#[derive(Clone, Debug)]
pub struct CatalogGenerationTrace {
    pub kind: String,
    pub schema_version: u32,
    pub seed: u64,
    pub input_hashes: CatalogGenerationTraceInputHashes,
    pub generation_policy: CatalogAwareGenerationPolicy,
    pub limits: CatalogGenerationTraceLimits,
    pub root_hash: String,
    pub events: Vec<CatalogGenerationTraceEvent>,
    pub event_body_bytes: u64,
    pub visual_cell_count: u64,
    pub final_event_hash: String,
    pub final_output_hash: String,
    pub selection: CatalogGenerationTraceSelection,
}

// ---------------------------------------------------------------------
// Canonical JSON of the trace parts
// ---------------------------------------------------------------------

impl View for GridCell {
    type V = GridCell;

    open spec fn view(&self) -> GridCell {
        *self
    }
}

pub open spec fn cell_json(c: GridCell) -> Seq<u8> {
    lit("{\"x\":") + i32_json(c.x) + lit(",\"y\":") + i32_json(c.y) + lit("}")
}

impl JsonItem for GridCell {
    open spec fn item_json(v: GridCell) -> Seq<u8> {
        cell_json(v)
    }

    fn push_json(&self, out: &mut Vec<u8>) {
        push_raw(out, "{\"x\":");
        push_i32(out, self.x);
        push_raw(out, ",\"y\":");
        push_i32(out, self.y);
        push_raw(out, "}");
        assert(out@ =~= old(out)@ + cell_json(*self));
        assert(self@ == *self);
    }
}

pub open spec fn cells_json(v: Seq<GridCell>) -> Seq<u8> {
    list_json::<GridCell>(views(v))
}

pub open spec fn input_hashes_json(h: CatalogGenerationTraceInputHashes) -> Seq<u8> {
    lit("{\"candidateHash\":") + text_json(h.candidate_hash@) + lit(",\"sourceGeometryHash\":")
        + text_json(h.source_geometry_hash@) + lit(",\"sourcePlanHash\":") + text_json(
        h.source_plan_hash@,
    ) + lit(",\"catalogHash\":") + text_json(h.catalog_hash@) + lit(",\"generationPolicyHash\":")
        + text_json(h.generation_policy_hash@) + lit(",\"provenanceHash\":") + text_json(
        h.provenance_hash@,
    ) + lit("}")
}

fn push_input_hashes(out: &mut Vec<u8>, h: &CatalogGenerationTraceInputHashes)
    ensures
        final(out)@ == old(out)@ + input_hashes_json(*h),
{
    push_raw(out, "{\"candidateHash\":");
    push_text(out, &h.candidate_hash);
    push_raw(out, ",\"sourceGeometryHash\":");
    push_text(out, &h.source_geometry_hash);
    push_raw(out, ",\"sourcePlanHash\":");
    push_text(out, &h.source_plan_hash);
    push_raw(out, ",\"catalogHash\":");
    push_text(out, &h.catalog_hash);
    push_raw(out, ",\"generationPolicyHash\":");
    push_text(out, &h.generation_policy_hash);
    push_raw(out, ",\"provenanceHash\":");
    push_text(out, &h.provenance_hash);
    push_raw(out, "}");
    assert(out@ =~= old(out)@ + input_hashes_json(*h));
}

/// A room candidate as plain values.
pub struct RoomCandidateView {
    pub shape_id: Seq<char>,
    pub transform: Seq<char>,
    pub score: i32,
    pub rank: usize,
}

impl View for CatalogGenerationTraceRoomCandidate {
    type V = RoomCandidateView;

    open spec fn view(&self) -> RoomCandidateView {
        RoomCandidateView {
            shape_id: self.shape_id@,
            transform: self.transform@,
            score: self.score,
            rank: self.rank,
        }
    }
}

impl JsonItem for CatalogGenerationTraceRoomCandidate {
    open spec fn item_json(v: RoomCandidateView) -> Seq<u8> {
        lit("{\"shapeId\":") + text_json(v.shape_id) + lit(",\"transform\":") + text_json(
            v.transform,
        ) + lit(",\"score\":") + i32_json(v.score) + lit(",\"rank\":") + dec_bytes(v.rank as nat)
            + lit("}")
    }

    fn push_json(&self, out: &mut Vec<u8>) {
        push_raw(out, "{\"shapeId\":");
        push_text(out, &self.shape_id);
        push_raw(out, ",\"transform\":");
        push_text(out, &self.transform);
        push_raw(out, ",\"score\":");
        push_i32(out, self.score);
        push_raw(out, ",\"rank\":");
        push_dec(out, self.rank as u64);
        push_raw(out, "}");
        assert(out@ =~= old(out)@ + Self::item_json(self@));
    }
}

pub open spec fn placement_json(p: CatalogGenerationTraceRoomPlacement) -> Seq<u8> {
    lit("{\"pieceId\":") + text_json(p.piece_id@) + lit(",\"requirementKind\":") + text_json(
        p.requirement_kind@,
    ) + lit(",\"shapeId\":") + text_json(p.shape_id@) + lit(",\"transform\":") + text_json(
        p.transform@,
    ) + lit(",\"origin\":") + cell_json(p.origin) + lit(",\"occupiedCells\":") + cells_json(
        p.occupied_cells@,
    ) + lit(",\"reservedCells\":") + cells_json(p.reserved_cells@) + lit("}")
}

fn push_placement(out: &mut Vec<u8>, p: &CatalogGenerationTraceRoomPlacement)
    ensures
        final(out)@ == old(out)@ + placement_json(*p),
{
    push_raw(out, "{\"pieceId\":");
    push_text(out, &p.piece_id);
    push_raw(out, ",\"requirementKind\":");
    push_text(out, &p.requirement_kind);
    push_raw(out, ",\"shapeId\":");
    push_text(out, &p.shape_id);
    push_raw(out, ",\"transform\":");
    push_text(out, &p.transform);
    push_raw(out, ",\"origin\":");
    p.origin.push_json(out);
    push_raw(out, ",\"occupiedCells\":");
    push_list(out, &p.occupied_cells);
    push_raw(out, ",\"reservedCells\":");
    push_list(out, &p.reserved_cells);
    push_raw(out, "}");
    assert(out@ =~= old(out)@ + placement_json(*p));
}

pub open spec fn bounds_json(b: CatalogGridBounds) -> Seq<u8> {
    lit("{\"minX\":") + i32_json(b.min_x) + lit(",\"maxX\":") + i32_json(b.max_x) + lit(
        ",\"minY\":",
    ) + i32_json(b.min_y) + lit(",\"maxY\":") + i32_json(b.max_y) + lit("}")
}

fn push_bounds(out: &mut Vec<u8>, b: &CatalogGridBounds)
    ensures
        final(out)@ == old(out)@ + bounds_json(*b),
{
    push_raw(out, "{\"minX\":");
    push_i32(out, b.min_x);
    push_raw(out, ",\"maxX\":");
    push_i32(out, b.max_x);
    push_raw(out, ",\"minY\":");
    push_i32(out, b.min_y);
    push_raw(out, ",\"maxY\":");
    push_i32(out, b.max_y);
    push_raw(out, "}");
    assert(out@ =~= old(out)@ + bounds_json(*b));
}

pub open spec fn bool_json(b: bool) -> Seq<u8> {
    if b {
        lit("true")
    } else {
        lit("false")
    }
}

pub open spec fn opt_u32_json(o: Option<u32>) -> Seq<u8> {
    match o {
        None => lit("null"),
        Some(n) => dec_bytes(n as nat),
    }
}

/// The canonical JSON of an event body: its variant as `type`, then its
/// fields.
#[verifier::opaque]
pub open spec fn body_json(b: CatalogGenerationTraceEventBody) -> Seq<u8> {
    match b {
        CatalogGenerationTraceEventBody::InputBound { input_hashes } => lit(
            "{\"type\":\"input_bound\",\"inputHashes\":",
        ) + input_hashes_json(input_hashes) + lit("}"),
        CatalogGenerationTraceEventBody::AttemptStarted { room_slack_cells } => lit(
            "{\"type\":\"attempt_started\",\"roomSlackCells\":",
        ) + i32_json(room_slack_cells) + lit("}"),
        CatalogGenerationTraceEventBody::RoomDomainEvaluated {
            piece_id,
            requirement_kind,
            candidates,
        } => lit("{\"type\":\"room_domain_evaluated\",\"pieceId\":") + text_json(piece_id@) + lit(
            ",\"requirementKind\":",
        ) + text_json(requirement_kind@) + lit(",\"candidates\":")
            + list_json::<CatalogGenerationTraceRoomCandidate>(views(candidates@)) + lit("}"),
        CatalogGenerationTraceEventBody::RoomPlaced { placement } => lit(
            "{\"type\":\"room_placed\",\"placement\":",
        ) + placement_json(placement) + lit("}"),
        CatalogGenerationTraceEventBody::RoomConflict { piece_id, conflicting_cells } => lit(
            "{\"type\":\"room_conflict\",\"pieceId\":",
        ) + text_json(piece_id@) + lit(",\"conflictingCells\":") + cells_json(conflicting_cells@)
            + lit("}"),
        CatalogGenerationTraceEventBody::SectionRoutingStarted {
            section_id,
            start,
            goal,
            guide,
            bounds,
        } => lit("{\"type\":\"section_routing_started\",\"sectionId\":") + text_json(section_id@)
            + lit(",\"start\":") + cell_json(start) + lit(",\"goal\":") + cell_json(goal) + lit(
            ",\"guide\":",
        ) + cells_json(guide@) + lit(",\"bounds\":") + bounds_json(bounds) + lit("}"),
        CatalogGenerationTraceEventBody::SectionRoutingFinished {
            section_id,
            status,
            cells,
            states_visited,
        } => lit("{\"type\":\"section_routing_finished\",\"sectionId\":") + text_json(section_id@)
            + lit(",\"status\":") + text_json(status@) + lit(",\"cells\":") + cells_json(cells@)
            + lit(",\"statesVisited\":") + u32_json(states_visited) + lit("}"),
        CatalogGenerationTraceEventBody::ValidationCompleted {
            stage,
            ok,
            subject_hash,
            diagnostic_codes,
        } => lit("{\"type\":\"validation_completed\",\"stage\":") + text_json(stage@) + lit(
            ",\"ok\":",
        ) + bool_json(ok) + lit(",\"subjectHash\":") + text_json(subject_hash@) + lit(
            ",\"diagnosticCodes\":",
        ) + texts_json(texts(diagnostic_codes@)) + lit("}"),
        CatalogGenerationTraceEventBody::AttemptFinished {
            classification,
            stage,
            detail,
            rooms_placed,
            sections_routed,
            routing_states,
        } => lit("{\"type\":\"attempt_finished\",\"classification\":") + text_json(
            classification@,
        ) + lit(",\"stage\":") + text_json(stage@) + lit(",\"detail\":") + text_json(detail@) + lit(
            ",\"roomsPlaced\":",
        ) + dec_bytes(rooms_placed as nat) + lit(",\"sectionsRouted\":") + dec_bytes(
            sections_routed as nat,
        ) + lit(",\"routingStates\":") + u32_json(routing_states) + lit("}"),
        CatalogGenerationTraceEventBody::RunFinished {
            selected_attempt,
            classification,
            reason,
            output_hash,
        } => lit("{\"type\":\"run_finished\",\"selectedAttempt\":") + opt_u32_json(
            selected_attempt,
        ) + lit(",\"classification\":") + text_json(classification@) + lit(",\"reason\":")
            + text_json(reason@) + lit(",\"outputHash\":") + text_json(output_hash@) + lit("}"),
    }
}

fn push_opt_u32(out: &mut Vec<u8>, o: Option<u32>)
    ensures
        final(out)@ == old(out)@ + opt_u32_json(o),
{
    match o {
        None => push_raw(out, "null"),
        Some(n) => push_dec(out, n as u64),
    }
}

fn push_input_bound_body(out: &mut Vec<u8>, b: &CatalogGenerationTraceEventBody)
    requires
        *b is InputBound,
    ensures
        final(out)@ == old(out)@ + body_json(*b),
{
    match b {
        CatalogGenerationTraceEventBody::InputBound { input_hashes } => {
            push_raw(out, "{\"type\":\"input_bound\",\"inputHashes\":");
            push_input_hashes(out, input_hashes);
            push_raw(out, "}");
        },
        _ => {},
    }
    reveal(body_json);
    assert(out@ =~= old(out)@ + body_json(*b));
}

fn push_attempt_started_body(out: &mut Vec<u8>, b: &CatalogGenerationTraceEventBody)
    requires
        *b is AttemptStarted,
    ensures
        final(out)@ == old(out)@ + body_json(*b),
{
    match b {
        CatalogGenerationTraceEventBody::AttemptStarted { room_slack_cells } => {
            push_raw(out, "{\"type\":\"attempt_started\",\"roomSlackCells\":");
            push_i32(out, *room_slack_cells);
            push_raw(out, "}");
        },
        _ => {},
    }
    reveal(body_json);
    assert(out@ =~= old(out)@ + body_json(*b));
}

fn push_room_domain_body(out: &mut Vec<u8>, b: &CatalogGenerationTraceEventBody)
    requires
        *b is RoomDomainEvaluated,
    ensures
        final(out)@ == old(out)@ + body_json(*b),
{
    match b {
        CatalogGenerationTraceEventBody::RoomDomainEvaluated {
            piece_id,
            requirement_kind,
            candidates,
        } => {
            push_raw(out, "{\"type\":\"room_domain_evaluated\",\"pieceId\":");
            push_text(out, piece_id);
            push_raw(out, ",\"requirementKind\":");
            push_text(out, requirement_kind);
            push_raw(out, ",\"candidates\":");
            push_list(out, candidates);
            push_raw(out, "}");
        },
        _ => {},
    }
    reveal(body_json);
    assert(out@ =~= old(out)@ + body_json(*b));
}

fn push_room_placed_body(out: &mut Vec<u8>, b: &CatalogGenerationTraceEventBody)
    requires
        *b is RoomPlaced,
    ensures
        final(out)@ == old(out)@ + body_json(*b),
{
    match b {
        CatalogGenerationTraceEventBody::RoomPlaced { placement } => {
            push_raw(out, "{\"type\":\"room_placed\",\"placement\":");
            push_placement(out, placement);
            push_raw(out, "}");
        },
        _ => {},
    }
    reveal(body_json);
    assert(out@ =~= old(out)@ + body_json(*b));
}

fn push_room_conflict_body(out: &mut Vec<u8>, b: &CatalogGenerationTraceEventBody)
    requires
        *b is RoomConflict,
    ensures
        final(out)@ == old(out)@ + body_json(*b),
{
    match b {
        CatalogGenerationTraceEventBody::RoomConflict { piece_id, conflicting_cells } => {
            push_raw(out, "{\"type\":\"room_conflict\",\"pieceId\":");
            push_text(out, piece_id);
            push_raw(out, ",\"conflictingCells\":");
            push_list(out, conflicting_cells);
            push_raw(out, "}");
        },
        _ => {},
    }
    reveal(body_json);
    assert(out@ =~= old(out)@ + body_json(*b));
}

fn push_routing_started_body(out: &mut Vec<u8>, b: &CatalogGenerationTraceEventBody)
    requires
        *b is SectionRoutingStarted,
    ensures
        final(out)@ == old(out)@ + body_json(*b),
{
    match b {
        CatalogGenerationTraceEventBody::SectionRoutingStarted {
            section_id,
            start,
            goal,
            guide,
            bounds,
        } => {
            push_raw(out, "{\"type\":\"section_routing_started\",\"sectionId\":");
            push_text(out, section_id);
            push_raw(out, ",\"start\":");
            start.push_json(out);
            push_raw(out, ",\"goal\":");
            goal.push_json(out);
            push_raw(out, ",\"guide\":");
            push_list(out, guide);
            push_raw(out, ",\"bounds\":");
            push_bounds(out, bounds);
            push_raw(out, "}");
        },
        _ => {},
    }
    reveal(body_json);
    assert(out@ =~= old(out)@ + body_json(*b));
}

fn push_routing_finished_body(out: &mut Vec<u8>, b: &CatalogGenerationTraceEventBody)
    requires
        *b is SectionRoutingFinished,
    ensures
        final(out)@ == old(out)@ + body_json(*b),
{
    match b {
        CatalogGenerationTraceEventBody::SectionRoutingFinished {
            section_id,
            status,
            cells,
            states_visited,
        } => {
            push_raw(out, "{\"type\":\"section_routing_finished\",\"sectionId\":");
            push_text(out, section_id);
            push_raw(out, ",\"status\":");
            push_text(out, status);
            push_raw(out, ",\"cells\":");
            push_list(out, cells);
            push_raw(out, ",\"statesVisited\":");
            push_dec(out, *states_visited as u64);
            push_raw(out, "}");
        },
        _ => {},
    }
    reveal(body_json);
    assert(out@ =~= old(out)@ + body_json(*b));
}

fn push_validation_body(out: &mut Vec<u8>, b: &CatalogGenerationTraceEventBody)
    requires
        *b is ValidationCompleted,
    ensures
        final(out)@ == old(out)@ + body_json(*b),
{
    match b {
        CatalogGenerationTraceEventBody::ValidationCompleted {
            stage,
            ok,
            subject_hash,
            diagnostic_codes,
        } => {
            push_raw(out, "{\"type\":\"validation_completed\",\"stage\":");
            push_text(out, stage);
            push_raw(out, ",\"ok\":");
            if *ok {
                push_raw(out, "true");
            } else {
                push_raw(out, "false");
            }
            push_raw(out, ",\"subjectHash\":");
            push_text(out, subject_hash);
            push_raw(out, ",\"diagnosticCodes\":");
            push_texts(out, diagnostic_codes);
            push_raw(out, "}");
        },
        _ => {},
    }
    reveal(body_json);
    assert(out@ =~= old(out)@ + body_json(*b));
}

fn push_attempt_finished_body(out: &mut Vec<u8>, b: &CatalogGenerationTraceEventBody)
    requires
        *b is AttemptFinished,
    ensures
        final(out)@ == old(out)@ + body_json(*b),
{
    match b {
        CatalogGenerationTraceEventBody::AttemptFinished {
            classification,
            stage,
            detail,
            rooms_placed,
            sections_routed,
            routing_states,
        } => {
            push_raw(out, "{\"type\":\"attempt_finished\",\"classification\":");
            push_text(out, classification);
            push_raw(out, ",\"stage\":");
            push_text(out, stage);
            push_raw(out, ",\"detail\":");
            push_text(out, detail);
            push_raw(out, ",\"roomsPlaced\":");
            push_dec(out, *rooms_placed as u64);
            push_raw(out, ",\"sectionsRouted\":");
            push_dec(out, *sections_routed as u64);
            push_raw(out, ",\"routingStates\":");
            push_dec(out, *routing_states as u64);
            push_raw(out, "}");
        },
        _ => {},
    }
    reveal(body_json);
    assert(out@ =~= old(out)@ + body_json(*b));
}

fn push_run_finished_body(out: &mut Vec<u8>, b: &CatalogGenerationTraceEventBody)
    requires
        *b is RunFinished,
    ensures
        final(out)@ == old(out)@ + body_json(*b),
{
    match b {
        CatalogGenerationTraceEventBody::RunFinished {
            selected_attempt,
            classification,
            reason,
            output_hash,
        } => {
            push_raw(out, "{\"type\":\"run_finished\",\"selectedAttempt\":");
            push_opt_u32(out, *selected_attempt);
            push_raw(out, ",\"classification\":");
            push_text(out, classification);
            push_raw(out, ",\"reason\":");
            push_text(out, reason);
            push_raw(out, ",\"outputHash\":");
            push_text(out, output_hash);
            push_raw(out, "}");
        },
        _ => {},
    }
    reveal(body_json);
    assert(out@ =~= old(out)@ + body_json(*b));
}

/// Appends the canonical JSON of an event body.
pub fn push_body(out: &mut Vec<u8>, b: &CatalogGenerationTraceEventBody)
    ensures
        final(out)@ == old(out)@ + body_json(*b),
{
    match b {
        CatalogGenerationTraceEventBody::InputBound { .. } => push_input_bound_body(out, b),
        CatalogGenerationTraceEventBody::AttemptStarted { .. } => push_attempt_started_body(out, b),
        CatalogGenerationTraceEventBody::RoomDomainEvaluated { .. } => push_room_domain_body(out, b),
        CatalogGenerationTraceEventBody::RoomPlaced { .. } => push_room_placed_body(out, b),
        CatalogGenerationTraceEventBody::RoomConflict { .. } => push_room_conflict_body(out, b),
        CatalogGenerationTraceEventBody::SectionRoutingStarted { .. } => push_routing_started_body(out, b),
        CatalogGenerationTraceEventBody::SectionRoutingFinished { .. } => push_routing_finished_body(out, b),
        CatalogGenerationTraceEventBody::ValidationCompleted { .. } => push_validation_body(out, b),
        CatalogGenerationTraceEventBody::AttemptFinished { .. } => push_attempt_finished_body(out, b),
        CatalogGenerationTraceEventBody::RunFinished { .. } => push_run_finished_body(out, b),
    }
}

/// The canonical JSON bytes of an event body.
pub fn body_bytes(b: &CatalogGenerationTraceEventBody) -> (r: Vec<u8>)
    ensures
        r@ == body_json(*b),
{
    let mut out: Vec<u8> = Vec::new();
    push_body(&mut out, b);
    assert(out@ =~= body_json(*b));
    out
}

// ---------------------------------------------------------------------
// Root and event hashes
// ---------------------------------------------------------------------

pub open spec fn metric_json(m: CatalogAwareOutcomeMetric) -> Seq<u8> {
    match m {
        CatalogAwareOutcomeMetric::PlacementSpan => lit("\"placement_span\""),
        CatalogAwareOutcomeMetric::PlacementArea => lit("\"placement_area\""),
        CatalogAwareOutcomeMetric::RoutedCatalogCells => lit("\"routed_catalog_cells\""),
    }
}

pub open spec fn constraints_json(c: CatalogAwareOutcomeConstraints) -> Seq<u8> {
    lit("{\"maxPlacementWidthCells\":") + dec_bytes(c.max_placement_width_cells as nat) + lit(
        ",\"maxPlacementHeightCells\":",
    ) + dec_bytes(c.max_placement_height_cells as nat) + lit(",\"maxPlacementAreaCells\":")
        + dec_bytes(c.max_placement_area_cells as nat) + lit(",\"maxRoutedCatalogCells\":")
        + dec_bytes(c.max_routed_catalog_cells as nat) + lit("}")
}

pub open spec fn preferences_json(p: CatalogAwareOutcomePreferences) -> Seq<u8> {
    lit("{\"primaryMetric\":") + metric_json(p.primary_metric) + lit(",\"preferredMaximum\":")
        + dec_bytes(p.preferred_maximum as nat) + lit("}")
}

pub open spec fn policy_head_json(p: CatalogAwareGenerationPolicy) -> Seq<u8> {
    lit("{\"kind\":") + text_json(p.kind@) + lit(",\"schemaVersion\":") + u32_json(
        p.schema_version,
    ) + lit(",\"maxGenerationAttempts\":") + u32_json(p.max_generation_attempts) + lit(
        ",\"initialRoomCompactionCells\":",
    ) + i32_json(p.initial_room_compaction_cells) + lit(",\"roomCompactionGrowthCells\":")
        + i32_json(p.room_compaction_growth_cells) + lit(",\"maxRoomCandidates\":") + u32_json(
        p.max_room_candidates,
    )
}

pub open spec fn policy_tail_json(p: CatalogAwareGenerationPolicy) -> Seq<u8> {
    lit(",\"maxRoutingStatesPerSection\":") + u32_json(p.max_routing_states_per_section) + lit(
        ",\"routeMarginCells\":",
    ) + i32_json(p.route_margin_cells) + lit(",\"guideDistanceWeight\":") + u32_json(
        p.guide_distance_weight,
    ) + lit(",\"turnPenalty\":") + u32_json(p.turn_penalty) + lit(",\"outcomeConstraints\":")
        + constraints_json(p.outcome_constraints) + lit(",\"outcomePreferences\":")
        + preferences_json(p.outcome_preferences) + lit("}")
}

/// The canonical JSON of a catalog-aware policy.
pub open spec fn catalog_policy_json(p: CatalogAwareGenerationPolicy) -> Seq<u8> {
    policy_head_json(p) + policy_tail_json(p)
}

fn push_constraints(out: &mut Vec<u8>, c: &CatalogAwareOutcomeConstraints)
    ensures
        final(out)@ == old(out)@ + constraints_json(*c),
{
    push_raw(out, "{\"maxPlacementWidthCells\":");
    push_dec(out, c.max_placement_width_cells);
    push_raw(out, ",\"maxPlacementHeightCells\":");
    push_dec(out, c.max_placement_height_cells);
    push_raw(out, ",\"maxPlacementAreaCells\":");
    push_dec(out, c.max_placement_area_cells);
    push_raw(out, ",\"maxRoutedCatalogCells\":");
    push_dec(out, c.max_routed_catalog_cells);
    push_raw(out, "}");
    assert(out@ =~= old(out)@ + constraints_json(*c));
}

fn push_preferences(out: &mut Vec<u8>, p: &CatalogAwareOutcomePreferences)
    ensures
        final(out)@ == old(out)@ + preferences_json(*p),
{
    push_raw(out, "{\"primaryMetric\":");
    match p.primary_metric {
        CatalogAwareOutcomeMetric::PlacementSpan => push_raw(out, "\"placement_span\""),
        CatalogAwareOutcomeMetric::PlacementArea => push_raw(out, "\"placement_area\""),
        CatalogAwareOutcomeMetric::RoutedCatalogCells => push_raw(out, "\"routed_catalog_cells\""),
    }
    push_raw(out, ",\"preferredMaximum\":");
    push_dec(out, p.preferred_maximum);
    push_raw(out, "}");
    assert(out@ =~= old(out)@ + preferences_json(*p));
}

fn push_limits(out: &mut Vec<u8>, l: &CatalogGenerationTraceLimits)
    ensures
        final(out)@ == old(out)@ + limits_json(*l),
{
    push_raw(out, "{\"maxEvents\":");
    push_dec(out, l.max_events as u64);
    push_raw(out, ",\"maxEventBodyBytes\":");
    push_dec(out, l.max_event_body_bytes);
    push_raw(out, ",\"maxVisualCells\":");
    push_dec(out, l.max_visual_cells);
    push_raw(out, "}");
    assert(out@ =~= old(out)@ + limits_json(*l));
}

fn push_policy_head(out: &mut Vec<u8>, p: &CatalogAwareGenerationPolicy)
    ensures
        final(out)@ == old(out)@ + policy_head_json(*p),
{
    push_raw(out, "{\"kind\":");
    push_text(out, &p.kind);
    push_raw(out, ",\"schemaVersion\":");
    push_dec(out, p.schema_version as u64);
    push_raw(out, ",\"maxGenerationAttempts\":");
    push_dec(out, p.max_generation_attempts as u64);
    push_raw(out, ",\"initialRoomCompactionCells\":");
    push_i32(out, p.initial_room_compaction_cells);
    push_raw(out, ",\"roomCompactionGrowthCells\":");
    push_i32(out, p.room_compaction_growth_cells);
    push_raw(out, ",\"maxRoomCandidates\":");
    push_dec(out, p.max_room_candidates as u64);
    assert(out@ =~= old(out)@ + policy_head_json(*p));
}

fn push_policy_tail(out: &mut Vec<u8>, p: &CatalogAwareGenerationPolicy)
    ensures
        final(out)@ == old(out)@ + policy_tail_json(*p),
{
    push_raw(out, ",\"maxRoutingStatesPerSection\":");
    push_dec(out, p.max_routing_states_per_section as u64);
    push_raw(out, ",\"routeMarginCells\":");
    push_i32(out, p.route_margin_cells);
    push_raw(out, ",\"guideDistanceWeight\":");
    push_dec(out, p.guide_distance_weight as u64);
    push_raw(out, ",\"turnPenalty\":");
    push_dec(out, p.turn_penalty as u64);
    push_raw(out, ",\"outcomeConstraints\":");
    push_constraints(out, &p.outcome_constraints);
    push_raw(out, ",\"outcomePreferences\":");
    push_preferences(out, &p.outcome_preferences);
    push_raw(out, "}");
    assert(out@ =~= old(out)@ + policy_tail_json(*p));
}

fn push_catalog_policy(out: &mut Vec<u8>, p: &CatalogAwareGenerationPolicy)
    ensures
        final(out)@ == old(out)@ + catalog_policy_json(*p),
{
    push_policy_head(out, p);
    push_policy_tail(out, p);
    assert(out@ =~= old(out)@ + catalog_policy_json(*p));
}

pub open spec fn limits_json(l: CatalogGenerationTraceLimits) -> Seq<u8> {
    lit("{\"maxEvents\":") + u32_json(l.max_events) + lit(",\"maxEventBodyBytes\":") + dec_bytes(
        l.max_event_body_bytes as nat,
    ) + lit(",\"maxVisualCells\":") + dec_bytes(l.max_visual_cells as nat) + lit("}")
}

/// The hash that binds a run's seed, inputs, policy and limits.
pub open spec fn root_hash_spec(
    seed: u64,
    h: CatalogGenerationTraceInputHashes,
    p: CatalogAwareGenerationPolicy,
    l: CatalogGenerationTraceLimits,
) -> Seq<char> {
    hash_of(
        lit("{\"kind\":\"rusty_procgen.catalog_generation_trace.v1\",\"schemaVersion\":1,\"seed\":")
            + dec_bytes(seed as nat) + lit(",\"inputHashes\":") + input_hashes_json(h) + lit(
            ",\"generationPolicy\":",
        ) + catalog_policy_json(p) + lit(",\"limits\":") + limits_json(l) + lit("}"),
    )
}

pub fn catalog_generation_trace_root_hash(
    seed: u64,
    input_hashes: &CatalogGenerationTraceInputHashes,
    policy: &CatalogAwareGenerationPolicy,
    limits: &CatalogGenerationTraceLimits,
) -> (r: String)
    ensures
        r@ == root_hash_spec(seed, *input_hashes, *policy, *limits),
{
    let mut out: Vec<u8> = Vec::new();
    push_raw(
        &mut out,
        "{\"kind\":\"rusty_procgen.catalog_generation_trace.v1\",\"schemaVersion\":1,\"seed\":",
    );
    push_dec(&mut out, seed);
    push_raw(&mut out, ",\"inputHashes\":");
    push_input_hashes(&mut out, input_hashes);
    push_raw(&mut out, ",\"generationPolicy\":");
    push_catalog_policy(&mut out, policy);
    push_raw(&mut out, ",\"limits\":");
    push_limits(&mut out, limits);
    push_raw(&mut out, "}");
    assert(out@ =~= lit(
        "{\"kind\":\"rusty_procgen.catalog_generation_trace.v1\",\"schemaVersion\":1,\"seed\":",
    ) + dec_bytes(seed as nat) + lit(",\"inputHashes\":") + input_hashes_json(*input_hashes)
        + lit(",\"generationPolicy\":") + catalog_policy_json(*policy) + lit(",\"limits\":")
        + limits_json(*limits) + lit("}"));
    format_hash(fnv1a64(out.as_slice()))
}

/// The hash of an event: its index, attempt, the hash before it and its
/// body.
#[verifier::opaque]
pub open spec fn event_hash_spec(
    index: u32,
    attempt: Option<u32>,
    previous: Seq<char>,
    body: CatalogGenerationTraceEventBody,
) -> Seq<char> {
    hash_of(
        lit("{\"index\":") + u32_json(index) + lit(",\"attempt\":") + opt_u32_json(attempt) + lit(
            ",\"previousHash\":",
        ) + text_json(previous) + lit(",\"body\":") + body_json(body) + lit("}"),
    )
}

pub fn catalog_generation_trace_event_hash(
    index: u32,
    attempt: Option<u32>,
    previous_hash: &str,
    body: &CatalogGenerationTraceEventBody,
) -> (r: String)
    ensures
        r@ == event_hash_spec(index, attempt, previous_hash@, *body),
{
    let mut out: Vec<u8> = Vec::new();
    push_raw(&mut out, "{\"index\":");
    push_dec(&mut out, index as u64);
    push_raw(&mut out, ",\"attempt\":");
    push_opt_u32(&mut out, attempt);
    push_raw(&mut out, ",\"previousHash\":");
    crate::text::push_json_str(&mut out, previous_hash);
    push_raw(&mut out, ",\"body\":");
    push_body(&mut out, body);
    push_raw(&mut out, "}");
    reveal(event_hash_spec);
    assert(out@ =~= lit("{\"index\":") + u32_json(index) + lit(",\"attempt\":") + opt_u32_json(
        attempt,
    ) + lit(",\"previousHash\":") + text_json(previous_hash@) + lit(",\"body\":") + body_json(
        *body,
    ) + lit("}"));
    format_hash(fnv1a64(out.as_slice()))
}

// ---------------------------------------------------------------------
// The recorder
// ---------------------------------------------------------------------

/// The cells an event body shows.
pub open spec fn visual_cells(b: CatalogGenerationTraceEventBody) -> nat {
    match b {
        CatalogGenerationTraceEventBody::RoomPlaced { placement } => placement.occupied_cells@.len()
            + placement.reserved_cells@.len(),
        CatalogGenerationTraceEventBody::RoomConflict { conflicting_cells, .. } => conflicting_cells@.len(),
        CatalogGenerationTraceEventBody::SectionRoutingStarted { guide, .. } => guide@.len(),
        CatalogGenerationTraceEventBody::SectionRoutingFinished { cells, .. } => cells@.len(),
        _ => 0,
    }
}

pub open spec fn visual_overflow_error() -> TraceErrorView {
    TraceErrorView {
        code: "trace_visual_cell_overflow"@,
        detail: "trace visual-cell accounting overflowed"@,
        observed: None,
        limit: None,
    }
}

/// The visual-cell count of a body, or the error when counting overflows.
pub open spec fn visual_count_result(b: CatalogGenerationTraceEventBody) -> Result<u64, TraceErrorView> {
    if visual_cells(b) > usize::MAX {
        Err(visual_overflow_error())
    } else {
        Ok(visual_cells(b) as u64)
    }
}

pub fn visual_cell_count(b: &CatalogGenerationTraceEventBody) -> (r: Result<u64, CatalogGenerationTraceError>)
    ensures
        match r {
            Ok(c) => visual_count_result(*b) == Ok::<u64, TraceErrorView>(c),
            Err(e) => visual_count_result(*b) == Err::<u64, TraceErrorView>(e@),
        },
{
    let count: usize = match b {
        CatalogGenerationTraceEventBody::RoomPlaced { placement } => {
            match placement.occupied_cells.len().checked_add(placement.reserved_cells.len()) {
                Some(c) => c,
                None => {
                    return Err(
                        CatalogGenerationTraceError::new(
                            "trace_visual_cell_overflow",
                            owned("trace visual-cell accounting overflowed"),
                            None,
                            None,
                        ),
                    );
                },
            }
        },
        CatalogGenerationTraceEventBody::RoomConflict { conflicting_cells, .. } => conflicting_cells.len(),
        CatalogGenerationTraceEventBody::SectionRoutingStarted { guide, .. } => guide.len(),
        CatalogGenerationTraceEventBody::SectionRoutingFinished { cells, .. } => cells.len(),
        _ => 0,
    };
    Ok(count as u64)
}

/// An event as plain values.
pub struct EventView {
    pub index: u32,
    pub attempt: Option<u32>,
    pub previous_hash: Seq<char>,
    pub event_hash: Seq<char>,
    pub body: CatalogGenerationTraceEventBody,
}

impl View for CatalogGenerationTraceEvent {
    type V = EventView;

    open spec fn view(&self) -> EventView {
        EventView {
            index: self.index,
            attempt: self.attempt,
            previous_hash: self.previous_hash@,
            event_hash: self.event_hash@,
            body: self.body,
        }
    }
}

/// The summed JSON length of the event bodies.
#[verifier::opaque]
pub open spec fn body_bytes_total(es: Seq<EventView>) -> int
    decreases es.len(),
{
    if es.len() == 0 {
        0
    } else {
        body_bytes_total(es.drop_last()) + body_json(es.last().body).len()
    }
}

/// The summed visual cells of the event bodies.
#[verifier::opaque]
pub open spec fn visual_total(es: Seq<EventView>) -> int
    decreases es.len(),
{
    if es.len() == 0 {
        0
    } else {
        visual_total(es.drop_last()) + visual_cells(es.last().body)
    }
}

/// Adding an event adds its body's JSON length and visual cells to the
/// totals.
pub proof fn lemma_totals_push(es: Seq<EventView>, e: EventView)
    ensures
        body_bytes_total(es.push(e)) == body_bytes_total(es) + body_json(e.body).len(),
        visual_total(es.push(e)) == visual_total(es) + visual_cells(e.body),
{
    reveal(body_bytes_total);
    reveal(visual_total);
    assert(es.push(e).drop_last() =~= es);
}

/// No events total nothing.
pub proof fn lemma_totals_empty(es: Seq<EventView>)
    requires
        es.len() == 0,
    ensures
        body_bytes_total(es) == 0,
        visual_total(es) == 0,
{
    reveal(body_bytes_total);
    reveal(visual_total);
}

/// Event `k` has index `k`, links to the hash before it (the root for the
/// first), and carries the hash of its own content.
pub open spec fn chain_ok(root: Seq<char>, es: Seq<EventView>) -> bool {
    forall|k: int|
        0 <= k < es.len() ==> {
            &&& (#[trigger] es[k]).index == k
            &&& es[k].previous_hash == (if k == 0 {
                root
            } else {
                es[k - 1].event_hash
            })
            &&& es[k].event_hash == event_hash_spec(
                es[k].index,
                es[k].attempt,
                es[k].previous_hash,
                es[k].body,
            )
        }
}

pub struct CatalogGenerationTraceRecorder {
    pub active: bool,
    pub seed: u64,
    pub input_hashes: CatalogGenerationTraceInputHashes,
    pub generation_policy: CatalogAwareGenerationPolicy,
    pub limits: CatalogGenerationTraceLimits,
    pub root_hash: String,
    pub events: Vec<CatalogGenerationTraceEvent>,
    pub event_body_bytes: u64,
    pub visual_cell_count: u64,
    pub error: Option<CatalogGenerationTraceError>,
}

pub open spec fn opt_error(e: Option<CatalogGenerationTraceError>) -> Option<TraceErrorView> {
    match e {
        Some(x) => Some(x@),
        None => None,
    }
}

/// The error a record would hit, given the event count and totals so far.
pub open spec fn record_check(
    n: nat,
    body_bytes: u64,
    visual: u64,
    limits: CatalogGenerationTraceLimits,
    body: CatalogGenerationTraceEventBody,
) -> Option<TraceErrorView> {
    if n + 1 > u32::MAX {
        Some(
            TraceErrorView {
                code: "trace_event_count_overflow"@,
                detail: "trace event count overflowed"@,
                observed: None,
                limit: Some(limits.max_events as u64),
            },
        )
    } else if n + 1 > limits.max_events {
        Some(
            TraceErrorView {
                code: "trace_event_quota_exceeded"@,
                detail: "catalog generation trace would contain "@ + dec_text(n + 1) + " events, limit "@
                    + dec_text(limits.max_events as nat),
                observed: Some((n + 1) as u64),
                limit: Some(limits.max_events as u64),
            },
        )
    } else {
        match visual_count_result(body) {
            Err(e) => Some(e),
            Ok(c) => if visual + c > u64::MAX {
                Some(
                    TraceErrorView {
                        code: "trace_visual_cell_overflow"@,
                        detail: "trace visual-cell accounting overflowed"@,
                        observed: None,
                        limit: Some(limits.max_visual_cells),
                    },
                )
            } else if visual + c > limits.max_visual_cells {
                Some(
                    TraceErrorView {
                        code: "trace_visual_cell_quota_exceeded"@,
                        detail: "catalog generation trace would retain "@ + dec_text(
                            (visual + c) as nat,
                        ) + " visual cells, limit "@ + dec_text(limits.max_visual_cells as nat),
                        observed: Some((visual + c) as u64),
                        limit: Some(limits.max_visual_cells),
                    },
                )
            } else {
                let len = body_json(body).len();
                if body_bytes + len > u64::MAX {
                    Some(
                        TraceErrorView {
                            code: "trace_event_body_byte_overflow"@,
                            detail: "trace event body byte accounting overflowed"@,
                            observed: None,
                            limit: Some(limits.max_event_body_bytes),
                        },
                    )
                } else if body_bytes + len > limits.max_event_body_bytes {
                    Some(
                        TraceErrorView {
                            code: "trace_event_body_byte_quota_exceeded"@,
                            detail: "catalog generation trace would encode "@ + dec_text(
                                (body_bytes + len) as nat,
                            ) + " event-body bytes, limit "@ + dec_text(
                                limits.max_event_body_bytes as nat,
                            ),
                            observed: Some((body_bytes + len) as u64),
                            limit: Some(limits.max_event_body_bytes),
                        },
                    )
                } else {
                    None
                }
            },
        }
    }
}

impl CatalogGenerationTraceRecorder {
    /// An active recorder keeps at most its limits of events, body bytes and
    /// visual cells, its totals match its events, and its events form a
    /// hash chain from its root.
    pub open spec fn wf(&self) -> bool {
        self.active ==> {
            &&& trace_limits_check(self.limits) is None
            &&& self.events@.len() <= self.limits.max_events
            &&& self.event_body_bytes == body_bytes_total(views(self.events@))
            &&& self.event_body_bytes <= self.limits.max_event_body_bytes
            &&& self.visual_cell_count == visual_total(views(self.events@))
            &&& self.visual_cell_count <= self.limits.max_visual_cells
            &&& chain_ok(self.root_hash@, views(self.events@))
        }
    }

    /// The hash the next event links to.
    pub open spec fn last_hash(&self) -> Seq<char> {
        if self.events@.len() == 0 {
            self.root_hash@
        } else {
            self.events@.last().event_hash@
        }
    }

    /// The recorder of a run that keeps no trace.
    pub fn disabled() -> (r: Self)
        ensures
            !r.active,
            r.wf(),
            r.events@.len() == 0,
            r.error is None,
            r.seed == 0,
            r.root_hash@ == Seq::<char>::empty(),
            r.input_hashes.candidate_hash@ == Seq::<char>::empty(),
            r.input_hashes.source_geometry_hash@ == Seq::<char>::empty(),
            r.input_hashes.source_plan_hash@ == Seq::<char>::empty(),
            r.input_hashes.catalog_hash@ == Seq::<char>::empty(),
            r.input_hashes.generation_policy_hash@ == Seq::<char>::empty(),
            r.input_hashes.provenance_hash@ == Seq::<char>::empty(),
            r.generation_policy.kind@ == Seq::<char>::empty(),
            r.generation_policy.schema_version == 0,
            r.generation_policy.max_generation_attempts == 0,
            r.limits.max_events == DEFAULT_CATALOG_TRACE_MAX_EVENTS,
            r.limits.max_event_body_bytes == DEFAULT_CATALOG_TRACE_MAX_EVENT_BODY_BYTES,
            r.limits.max_visual_cells == DEFAULT_CATALOG_TRACE_MAX_VISUAL_CELLS,
            r.event_body_bytes == 0,
            r.visual_cell_count == 0,
    {
        CatalogGenerationTraceRecorder {
            active: false,
            seed: 0,
            input_hashes: CatalogGenerationTraceInputHashes {
                candidate_hash: String::new(),
                source_geometry_hash: String::new(),
                source_plan_hash: String::new(),
                catalog_hash: String::new(),
                generation_policy_hash: String::new(),
                provenance_hash: String::new(),
            },
            generation_policy: CatalogAwareGenerationPolicy {
                kind: String::new(),
                schema_version: 0,
                max_generation_attempts: 0,
                initial_room_compaction_cells: 0,
                room_compaction_growth_cells: 0,
                max_room_candidates: 0,
                max_routing_states_per_section: 0,
                route_margin_cells: 0,
                guide_distance_weight: 0,
                turn_penalty: 0,
                outcome_constraints: crate::catalog_outcome::CatalogAwareOutcomeConstraints {
                    max_placement_width_cells: 4_096,
                    max_placement_height_cells: 4_096,
                    max_placement_area_cells: 16_777_216,
                    max_routed_catalog_cells: 1_048_576,
                },
                outcome_preferences: CatalogAwareOutcomePreferences {
                    primary_metric: CatalogAwareOutcomeMetric::PlacementSpan,
                    preferred_maximum: 286,
                },
            },
            limits: CatalogGenerationTraceLimits {
                max_events: DEFAULT_CATALOG_TRACE_MAX_EVENTS,
                max_event_body_bytes: DEFAULT_CATALOG_TRACE_MAX_EVENT_BODY_BYTES,
                max_visual_cells: DEFAULT_CATALOG_TRACE_MAX_VISUAL_CELLS,
            },
            root_hash: String::new(),
            events: Vec::new(),
            event_body_bytes: 0,
            visual_cell_count: 0,
            error: None,
        }
    }

    pub fn is_active(&self) -> (r: bool)
        ensures
            r == self.active,
    {
        self.active
    }

    pub fn error(&self) -> (r: Option<CatalogGenerationTraceError>)
        ensures
            opt_error(r) == opt_error(self.error),
    {
        match &self.error {
            Some(e) => Some(
                CatalogGenerationTraceError {
                    code: owned(e.code.as_str()),
                    detail: owned(e.detail.as_str()),
                    observed: e.observed,
                    limit: e.limit,
                },
            ),
            None => None,
        }
    }

    fn fail(&mut self, e: CatalogGenerationTraceError) -> (r: bool)
        ensures
            !r,
            final(self).error is Some,
            opt_error(final(self).error) == Some(e@),
            final(self).active == old(self).active,
            final(self).root_hash == old(self).root_hash,
            final(self).events == old(self).events,
            final(self).event_body_bytes == old(self).event_body_bytes,
            final(self).visual_cell_count == old(self).visual_cell_count,
            final(self).limits == old(self).limits,
            final(self).seed == old(self).seed,
            final(self).input_hashes == old(self).input_hashes,
            final(self).generation_policy == old(self).generation_policy,
    {
        self.error = Some(e);
        false
    }

    /// The totals after `body` is added, or the first limit it breaks.
    fn limit_check(&self, body: &CatalogGenerationTraceEventBody) -> (r: Result<
        (u64, u64),
        CatalogGenerationTraceError,
    >)
        ensures
            match r {
                Err(e) => record_check(
                    self.events@.len(),
                    self.event_body_bytes,
                    self.visual_cell_count,
                    self.limits,
                    *body,
                ) == Some(e@),
                Ok((v, b)) => {
                    &&& record_check(
                        self.events@.len(),
                        self.event_body_bytes,
                        self.visual_cell_count,
                        self.limits,
                        *body,
                    ) is None
                    &&& v == self.visual_cell_count + visual_cells(*body)
                    &&& b == self.event_body_bytes + body_json(*body).len()
                },
            },
    {
        let n = self.events.len();
        if n >= 0xffff_ffff {
            return Err(
                CatalogGenerationTraceError::new(
                    "trace_event_count_overflow",
                    owned("trace event count overflowed"),
                    None,
                    Some(self.limits.max_events as u64),
                ),
            );
        }
        let next_count: u32 = (n + 1) as u32;
        if next_count > self.limits.max_events {
            let mut d = owned("catalog generation trace would contain ");
            push_dec_text(&mut d, next_count as u64);
            d.append(" events, limit ");
            push_dec_text(&mut d, self.limits.max_events as u64);
            return Err(
                CatalogGenerationTraceError::new(
                    "trace_event_quota_exceeded",
                    d,
                    Some(next_count as u64),
                    Some(self.limits.max_events as u64),
                ),
            );
        }
        let visual = match visual_cell_count(body) {
            Ok(c) => c,
            Err(e) => {
                return Err(e);
            },
        };
        let next_visual = match self.visual_cell_count.checked_add(visual) {
            Some(v) => v,
            None => {
                return Err(
                    CatalogGenerationTraceError::new(
                        "trace_visual_cell_overflow",
                        owned("trace visual-cell accounting overflowed"),
                        None,
                        Some(self.limits.max_visual_cells),
                    ),
                );
            },
        };
        if next_visual > self.limits.max_visual_cells {
            let mut d = owned("catalog generation trace would retain ");
            push_dec_text(&mut d, next_visual);
            d.append(" visual cells, limit ");
            push_dec_text(&mut d, self.limits.max_visual_cells);
            return Err(
                CatalogGenerationTraceError::new(
                    "trace_visual_cell_quota_exceeded",
                    d,
                    Some(next_visual),
                    Some(self.limits.max_visual_cells),
                ),
            );
        }
        let encoded = body_bytes(body);
        let len: u64 = encoded.len() as u64;
        let next_bytes = match self.event_body_bytes.checked_add(len) {
            Some(v) => v,
            None => {
                return Err(
                    CatalogGenerationTraceError::new(
                        "trace_event_body_byte_overflow",
                        owned("trace event body byte accounting overflowed"),
                        None,
                        Some(self.limits.max_event_body_bytes),
                    ),
                );
            },
        };
        if next_bytes > self.limits.max_event_body_bytes {
            let mut d = owned("catalog generation trace would encode ");
            push_dec_text(&mut d, next_bytes);
            d.append(" event-body bytes, limit ");
            push_dec_text(&mut d, self.limits.max_event_body_bytes);
            return Err(
                CatalogGenerationTraceError::new(
                    "trace_event_body_byte_quota_exceeded",
                    d,
                    Some(next_bytes),
                    Some(self.limits.max_event_body_bytes),
                ),
            );
        }
        Ok((next_visual, next_bytes))
    }

    /// Appends the next event of the chain and the new totals.
    fn push_event(
        &mut self,
        attempt: Option<u32>,
        body: CatalogGenerationTraceEventBody,
        next_visual: u64,
        next_bytes: u64,
    )
        requires
            old(self).wf(),
            old(self).active,
            old(self).events@.len() + 1 <= old(self).limits.max_events,
            next_visual == old(self).visual_cell_count + visual_cells(body),
            next_visual <= old(self).limits.max_visual_cells,
            next_bytes == old(self).event_body_bytes + body_json(body).len(),
            next_bytes <= old(self).limits.max_event_body_bytes,
        ensures
            final(self).wf(),
            final(self).active == old(self).active,
            final(self).root_hash == old(self).root_hash,
            final(self).limits == old(self).limits,
            final(self).seed == old(self).seed,
            final(self).input_hashes == old(self).input_hashes,
            final(self).generation_policy == old(self).generation_policy,
            final(self).error == old(self).error,
            final(self).event_body_bytes == next_bytes,
            final(self).visual_cell_count == next_visual,
            views(final(self).events@) == views(old(self).events@).push(
                EventView {
                    index: old(self).events@.len() as u32,
                    attempt,
                    previous_hash: old(self).last_hash(),
                    event_hash: event_hash_spec(
                        old(self).events@.len() as u32,
                        attempt,
                        old(self).last_hash(),
                        body,
                    ),
                    body,
                },
            ),
    {
        let n = self.events.len();
        let index: u32 = n as u32;
        let previous_hash: String = if n == 0 {
            owned(self.root_hash.as_str())
        } else {
            owned(self.events[n - 1].event_hash.as_str())
        };
        let event_hash = catalog_generation_trace_event_hash(index, attempt, previous_hash.as_str(), &body);
        let ghost old_events = views(self.events@);
        let ghost ev = EventView {
            index,
            attempt,
            previous_hash: previous_hash@,
            event_hash: event_hash@,
            body,
        };
        self.events.push(
            CatalogGenerationTraceEvent { index, attempt, previous_hash, event_hash, body },
        );
        self.event_body_bytes = next_bytes;
        self.visual_cell_count = next_visual;
        proof {
            let es = views(self.events@);
            assert(es =~= old_events.push(ev));
            lemma_totals_push(old_events, ev);
            assert forall|k: int| 0 <= k < es.len() implies {
                &&& (#[trigger] es[k]).index == k
                &&& es[k].previous_hash == (if k == 0 {
                    self.root_hash@
                } else {
                    es[k - 1].event_hash
                })
                &&& es[k].event_hash == event_hash_spec(
                    es[k].index,
                    es[k].attempt,
                    es[k].previous_hash,
                    es[k].body,
                )
            } by {
                if k < old_events.len() {
                    assert(es[k] == old_events[k]);
                    if k > 0 {
                        assert(es[k - 1] == old_events[k - 1]);
                    }
                } else {
                    if k > 0 {
                        assert(es[k - 1] == old_events[k - 1]);
                        assert(old_events[k - 1] == self.events@[k - 1]@);
                    }
                }
            }
        }
    }

    /// Records an event. An inactive recorder accepts it without keeping it;
    /// a recorder with an error refuses it; otherwise the event is kept when
    /// it stays within every limit (see `record_check`), and the first limit
    /// it breaks becomes the recorder's error.
    pub fn record(&mut self, attempt: Option<u32>, body: CatalogGenerationTraceEventBody) -> (r: bool)
        requires
            old(self).wf(),
        ensures
            final(self).wf(),
            final(self).active == old(self).active,
            final(self).root_hash == old(self).root_hash,
            final(self).limits == old(self).limits,
            final(self).seed == old(self).seed,
            final(self).input_hashes == old(self).input_hashes,
            final(self).generation_policy == old(self).generation_policy,
            !old(self).active ==> r && final(self).events == old(self).events && final(self).error
                == old(self).error,
            old(self).active && old(self).error is Some ==> !r && final(self).events
                == old(self).events && final(self).error == old(self).error,
            old(self).active && old(self).error is None ==> match record_check(
                old(self).events@.len(),
                old(self).event_body_bytes,
                old(self).visual_cell_count,
                old(self).limits,
                body,
            ) {
                Some(e) => !r && opt_error(final(self).error) == Some(e) && final(self).events
                    == old(self).events,
                None => r && final(self).error is None && views(final(self).events@) == views(
                    old(self).events@,
                ).push(
                    EventView {
                        index: old(self).events@.len() as u32,
                        attempt,
                        previous_hash: old(self).last_hash(),
                        event_hash: event_hash_spec(
                            old(self).events@.len() as u32,
                            attempt,
                            old(self).last_hash(),
                            body,
                        ),
                        body,
                    },
                ),
            },
    {
        if !self.active {
            return true;
        }
        if self.error.is_some() {
            return false;
        }
        match self.limit_check(&body) {
            Err(e) => self.fail(e),
            Ok((next_visual, next_bytes)) => {
                self.push_event(attempt, body, next_visual, next_bytes);
                true
            },
        }
    }
}


/// A copy of a set of input hashes.
fn copy_input_hashes(h: &CatalogGenerationTraceInputHashes) -> (r: CatalogGenerationTraceInputHashes)
    ensures
        r == *h,
{
    CatalogGenerationTraceInputHashes {
        candidate_hash: h.candidate_hash.clone(),
        source_geometry_hash: h.source_geometry_hash.clone(),
        source_plan_hash: h.source_plan_hash.clone(),
        catalog_hash: h.catalog_hash.clone(),
        generation_policy_hash: h.generation_policy_hash.clone(),
        provenance_hash: h.provenance_hash.clone(),
    }
}

/// A copy of a trace error.
fn copy_error(e: &CatalogGenerationTraceError) -> (r: CatalogGenerationTraceError)
    ensures
        r@ == e@,
{
    CatalogGenerationTraceError {
        code: e.code.clone(),
        detail: e.detail.clone(),
        observed: e.observed,
        limit: e.limit,
    }
}

impl CatalogGenerationTraceRecorder {
    /// An active recorder for a run: the limits are validated, the root hash
    /// binds the seed, input hashes, policy and limits, and the first event
    /// binds the input hashes.
    pub fn new(
        seed: u64,
        input_hashes: CatalogGenerationTraceInputHashes,
        generation_policy: CatalogAwareGenerationPolicy,
        limits: CatalogGenerationTraceLimits,
    ) -> (r: Result<Self, CatalogGenerationTraceError>)
        ensures
            match r {
                Err(e) => match trace_limits_check(limits) {
                    Some(x) => e@ == x,
                    None => record_check(
                        0,
                        0,
                        0,
                        limits,
                        CatalogGenerationTraceEventBody::InputBound { input_hashes },
                    ) == Some(e@),
                },
                Ok(rec) => {
                    let root = root_hash_spec(seed, input_hashes, generation_policy, limits);
                    let body = CatalogGenerationTraceEventBody::InputBound { input_hashes };
                    &&& trace_limits_check(limits) is None
                    &&& record_check(0, 0, 0, limits, body) is None
                    &&& rec.wf()
                    &&& rec.active
                    &&& rec.error is None
                    &&& rec.seed == seed
                    &&& rec.input_hashes == input_hashes
                    &&& rec.generation_policy == generation_policy
                    &&& rec.limits == limits
                    &&& rec.root_hash@ == root
                    &&& views(rec.events@) == seq![
                        EventView {
                            index: 0,
                            attempt: None,
                            previous_hash: root,
                            event_hash: event_hash_spec(0, None, root, body),
                            body,
                        },
                    ]
                },
            },
    {
        match validate_catalog_generation_trace_limits(&limits) {
            Err(e) => {
                return Err(e);
            },
            Ok(()) => {},
        }
        let root_hash = catalog_generation_trace_root_hash(
            seed,
            &input_hashes,
            &generation_policy,
            &limits,
        );
        let bound = copy_input_hashes(&input_hashes);
        let mut recorder = CatalogGenerationTraceRecorder {
            active: true,
            seed,
            input_hashes,
            generation_policy,
            limits,
            root_hash,
            events: Vec::new(),
            event_body_bytes: 0,
            visual_cell_count: 0,
            error: None,
        };
        proof {
            assert(views(recorder.events@) =~= Seq::<EventView>::empty());
            lemma_totals_empty(views(recorder.events@));
        }
        recorder.record(None, CatalogGenerationTraceEventBody::InputBound { input_hashes: bound });
        match &recorder.error {
            Some(e) => {
                return Err(copy_error(e));
            },
            None => {},
        }
        proof {
            assert(views(recorder.events@) =~= seq![
                EventView {
                    index: 0,
                    attempt: None,
                    previous_hash: recorder.root_hash@,
                    event_hash: event_hash_spec(
                        0,
                        None,
                        recorder.root_hash@,
                        CatalogGenerationTraceEventBody::InputBound { input_hashes: bound },
                    ),
                    body: CatalogGenerationTraceEventBody::InputBound { input_hashes: bound },
                },
            ]);
        }
        Ok(recorder)
    }
}

/// Records an event and turns a refusal into the recorder's error.
pub fn trace_record_or_error(
    recorder: &mut CatalogGenerationTraceRecorder,
    attempt: Option<u32>,
    body: CatalogGenerationTraceEventBody,
) -> (r: Result<(), CatalogGenerationTraceError>)
    requires
        old(recorder).wf(),
    ensures
        final(recorder).wf(),
        final(recorder).active == old(recorder).active,
        final(recorder).root_hash == old(recorder).root_hash,
        final(recorder).limits == old(recorder).limits,
        !old(recorder).active ==> r is Ok && final(recorder).events == old(recorder).events,
        old(recorder).active && old(recorder).error is Some ==> match r {
            Err(e) => opt_error(old(recorder).error) == Some(e@) && final(recorder).events
                == old(recorder).events,
            Ok(_) => false,
        },
        old(recorder).active && old(recorder).error is None ==> match record_check(
            old(recorder).events@.len(),
            old(recorder).event_body_bytes,
            old(recorder).visual_cell_count,
            old(recorder).limits,
            body,
        ) {
            Some(x) => match r {
                Err(e) => e@ == x && opt_error(final(recorder).error) == Some(x)
                    && final(recorder).events == old(recorder).events,
                Ok(_) => false,
            },
            None => r is Ok && final(recorder).error is None && views(final(recorder).events@)
                == views(old(recorder).events@).push(
                EventView {
                    index: old(recorder).events@.len() as u32,
                    attempt,
                    previous_hash: old(recorder).last_hash(),
                    event_hash: event_hash_spec(
                        old(recorder).events@.len() as u32,
                        attempt,
                        old(recorder).last_hash(),
                        body,
                    ),
                    body,
                },
            ),
        },
{
    if recorder.record(attempt, body) {
        Ok(())
    } else {
        match recorder.error() {
            Some(e) => Err(e),
            None => Err(
                CatalogGenerationTraceError::new(
                    "trace_recording_failed",
                    owned("trace recorder rejected an event without an error"),
                    None,
                    None,
                ),
            ),
        }
    }
}

impl View for CatalogGenerationTraceSelection {
    type V = (Option<u32>, Seq<char>, Seq<char>);

    open spec fn view(&self) -> (Option<u32>, Seq<char>, Seq<char>) {
        (self.selected_attempt, self.classification@, self.reason@)
    }
}

/// The selection a run reports: its selected attempt on success, else the
/// classification the attempts were exhausted with.
pub open spec fn selection_spec(
    ok: bool,
    selected_attempt: Option<u32>,
    exhausted_classification: Option<Seq<char>>,
) -> Result<(Option<u32>, Seq<char>, Seq<char>), TraceErrorView> {
    if ok {
        match selected_attempt {
            Some(a) => Ok((Some(a), "success"@, "first_successful_attempt"@)),
            None => Err(
                TraceErrorView {
                    code: "trace_selection_missing"@,
                    detail: "successful result has no selected attempt"@,
                    observed: None,
                    limit: None,
                },
            ),
        }
    } else {
        match exhausted_classification {
            Some(c) => Ok((None, c, "generation_attempt_budget_exhausted"@)),
            None => Err(
                TraceErrorView {
                    code: "trace_exhaustion_missing"@,
                    detail: "exhausted result has no final classification"@,
                    observed: None,
                    limit: None,
                },
            ),
        }
    }
}

pub fn catalog_generation_trace_selection(
    ok: bool,
    selected_attempt: Option<u32>,
    exhausted_classification: Option<String>,
) -> (r: Result<CatalogGenerationTraceSelection, CatalogGenerationTraceError>)
    ensures
        match r {
            Ok(s) => selection_spec(ok, selected_attempt, opt_text(exhausted_classification))
                == Ok::<(Option<u32>, Seq<char>, Seq<char>), TraceErrorView>(s@),
            Err(e) => selection_spec(ok, selected_attempt, opt_text(exhausted_classification))
                == Err::<(Option<u32>, Seq<char>, Seq<char>), TraceErrorView>(e@),
        },
{
    if ok {
        match selected_attempt {
            Some(a) => Ok(
                CatalogGenerationTraceSelection {
                    selected_attempt: Some(a),
                    classification: owned("success"),
                    reason: owned("first_successful_attempt"),
                },
            ),
            None => Err(
                CatalogGenerationTraceError::new(
                    "trace_selection_missing",
                    owned("successful result has no selected attempt"),
                    None,
                    None,
                ),
            ),
        }
    } else {
        match exhausted_classification {
            Some(c) => Ok(
                CatalogGenerationTraceSelection {
                    selected_attempt: None,
                    classification: c,
                    reason: owned("generation_attempt_budget_exhausted"),
                },
            ),
            None => Err(
                CatalogGenerationTraceError::new(
                    "trace_exhaustion_missing",
                    owned("exhausted result has no final classification"),
                    None,
                    None,
                ),
            ),
        }
    }
}

/// The closing event of a run.
pub open spec fn run_finished(
    selection: CatalogGenerationTraceSelection,
    output_hash: String,
) -> CatalogGenerationTraceEventBody {
    CatalogGenerationTraceEventBody::RunFinished {
        selected_attempt: selection.selected_attempt,
        classification: selection.classification,
        reason: selection.reason,
        output_hash,
    }
}

/// The error a recorder holds after it is handed `body`.
#[verifier::opaque]
pub open spec fn error_after(
    rec: CatalogGenerationTraceRecorder,
    body: CatalogGenerationTraceEventBody,
) -> Option<TraceErrorView> {
    if !rec.active || rec.error is Some {
        opt_error(rec.error)
    } else {
        record_check(
            rec.events@.len(),
            rec.event_body_bytes,
            rec.visual_cell_count,
            rec.limits,
            body,
        )
    }
}

/// The events a recorder keeps after it is handed `body` outside any
/// attempt, when that is accepted.
pub open spec fn events_after(
    rec: CatalogGenerationTraceRecorder,
    body: CatalogGenerationTraceEventBody,
) -> Seq<EventView> {
    if rec.active {
        views(rec.events@).push(
            EventView {
                index: rec.events@.len() as u32,
                attempt: None,
                previous_hash: rec.last_hash(),
                event_hash: event_hash_spec(rec.events@.len() as u32, None, rec.last_hash(), body),
                body,
            },
        )
    } else {
        views(rec.events@)
    }
}

/// A finished trace whose events form a hash chain from its root, whose
/// totals match its events and whose final hash is that of its last event.
pub open spec fn trace_chain_ok(t: CatalogGenerationTrace) -> bool {
    &&& trace_limits_check(t.limits) is None
    &&& t.events@.len() <= t.limits.max_events
    &&& t.event_body_bytes <= t.limits.max_event_body_bytes
    &&& t.visual_cell_count <= t.limits.max_visual_cells
    &&& chain_ok(t.root_hash@, views(t.events@))
    &&& t.event_body_bytes == body_bytes_total(views(t.events@))
    &&& t.visual_cell_count == visual_total(views(t.events@))
    &&& t.final_event_hash@ == (if t.events@.len() == 0 {
        t.root_hash@
    } else {
        t.events@.last().event_hash@
    })
}

/// What finishing a recorder with a selection and an output hash gives.
pub open spec fn finish_post(
    rec: CatalogGenerationTraceRecorder,
    selection: CatalogGenerationTraceSelection,
    output_hash: String,
    r: Result<CatalogGenerationTrace, CatalogGenerationTraceError>,
) -> bool {
    let body = run_finished(selection, output_hash);
    match error_after(rec, body) {
        Some(x) => match r {
            Err(e) => e@ == x,
            Ok(_) => false,
        },
        None => match r {
            Err(_) => false,
            Ok(t) => {
                &&& t.kind@ == "rusty_procgen.catalog_generation_trace.v1"@
                &&& t.schema_version == 1
                &&& t.seed == rec.seed
                &&& t.input_hashes == rec.input_hashes
                &&& t.generation_policy == rec.generation_policy
                &&& t.limits == rec.limits
                &&& t.root_hash == rec.root_hash
                &&& views(t.events@) == events_after(rec, body)
                &&& t.event_body_bytes == (if rec.active {
                    rec.event_body_bytes + body_json(body).len()
                } else {
                    rec.event_body_bytes as int
                })
                &&& t.visual_cell_count == rec.visual_cell_count
                &&& t.final_event_hash@ == (if t.events@.len() == 0 {
                    rec.root_hash@
                } else {
                    t.events@.last().event_hash@
                })
                &&& t.final_output_hash@ == output_hash@
                &&& t.selection@ == selection@
            },
        },
    }
}

impl CatalogGenerationTraceRecorder {
    /// Records the closing event of a run.
    #[verifier::rlimit(40)]
    fn record_closing(&mut self, body: CatalogGenerationTraceEventBody)
        requires
            old(self).wf(),
            body is RunFinished,
        ensures
            final(self).wf(),
            opt_error(final(self).error) == error_after(*old(self), body),
            final(self).active == old(self).active,
            final(self).seed == old(self).seed,
            final(self).input_hashes == old(self).input_hashes,
            final(self).generation_policy == old(self).generation_policy,
            final(self).limits == old(self).limits,
            final(self).root_hash == old(self).root_hash,
            final(self).error is None ==> {
                &&& views(final(self).events@) == events_after(*old(self), body)
                &&& final(self).event_body_bytes == (if old(self).active {
                    old(self).event_body_bytes + body_json(body).len()
                } else {
                    old(self).event_body_bytes as int
                })
                &&& final(self).visual_cell_count == old(self).visual_cell_count
            },
    {
        reveal(error_after);
        if !self.active || self.error.is_some() {
            return;
        }
        match self.limit_check(&body) {
            Err(e) => {
                self.fail(e);
            },
            Ok((next_visual, next_bytes)) => {
                self.push_event(None, body, next_visual, next_bytes);
            },
        }
    }

    /// The trace of a recorder that holds no error.
    fn seal(
        self,
        selection: CatalogGenerationTraceSelection,
        output_hash: String,
    ) -> (t: CatalogGenerationTrace)
        requires
            self.wf(),
        ensures
            t.kind@ == "rusty_procgen.catalog_generation_trace.v1"@,
            t.schema_version == 1,
            t.seed == self.seed,
            t.input_hashes == self.input_hashes,
            t.generation_policy == self.generation_policy,
            t.limits == self.limits,
            t.root_hash == self.root_hash,
            t.events == self.events,
            t.event_body_bytes == self.event_body_bytes,
            t.visual_cell_count == self.visual_cell_count,
            t.final_event_hash@ == (if t.events@.len() == 0 {
                self.root_hash@
            } else {
                t.events@.last().event_hash@
            }),
            t.final_output_hash == output_hash,
            t.selection == selection,
            self.active ==> trace_chain_ok(t),
    {
        let n = self.events.len();
        let final_event_hash = if n == 0 {
            self.root_hash.clone()
        } else {
            self.events[n - 1].event_hash.clone()
        };
        CatalogGenerationTrace {
            kind: owned("rusty_procgen.catalog_generation_trace.v1"),
            schema_version: 1,
            seed: self.seed,
            input_hashes: self.input_hashes,
            generation_policy: self.generation_policy,
            limits: self.limits,
            root_hash: self.root_hash,
            events: self.events,
            event_body_bytes: self.event_body_bytes,
            visual_cell_count: self.visual_cell_count,
            final_event_hash,
            final_output_hash: output_hash,
            selection,
        }
    }

    /// Closes the run with its selection and output hash and hands out the
    /// trace.
    pub fn finish_selected(
        self,
        selection: CatalogGenerationTraceSelection,
        output_hash: String,
    ) -> (r: Result<CatalogGenerationTrace, CatalogGenerationTraceError>)
        requires
            self.wf(),
        ensures
            finish_post(self, selection, output_hash, r),
            self.active ==> match r {
                Ok(t) => trace_chain_ok(t) && trace_chain_check(t) is None,
                Err(_) => true,
            },
    {
        let ghost rec = self;
        let mut me = self;
        let body = CatalogGenerationTraceEventBody::RunFinished {
            selected_attempt: selection.selected_attempt,
            classification: selection.classification.clone(),
            reason: selection.reason.clone(),
            output_hash: output_hash.clone(),
        };
        assert(body == run_finished(selection, output_hash));
        me.record_closing(body);
        match &me.error {
            Some(e) => {
                return Err(copy_error(e));
            },
            None => {},
        }
        let t = me.seal(selection, output_hash);
        proof {
            if rec.active {
                lemma_linked_trace_passes_chain_check(t);
            }
        }
        Ok(t)
    }

    /// Closes the run from its outcome: whether it succeeded, the attempt it
    /// selected, the classification it was exhausted with, and the hash of
    /// its output.
    pub fn finish(
        self,
        ok: bool,
        selected_attempt: Option<u32>,
        exhausted_classification: Option<String>,
        output_hash: String,
    ) -> (r: Result<CatalogGenerationTrace, CatalogGenerationTraceError>)
        requires
            self.wf(),
        ensures
            match selection_spec(ok, selected_attempt, opt_text(exhausted_classification)) {
                Err(x) => match r {
                    Err(e) => e@ == x,
                    Ok(_) => false,
                },
                Ok(v) => exists|s: CatalogGenerationTraceSelection|
                    s@ == v && #[trigger] finish_post(self, s, output_hash, r),
            },
            self.active ==> match r {
                Ok(t) => trace_chain_ok(t) && trace_chain_check(t) is None,
                Err(_) => true,
            },
    {
        let ghost rec = self;
        match catalog_generation_trace_selection(ok, selected_attempt, exhausted_classification) {
            Err(e) => Err(e),
            Ok(selection) => {
                let ghost sel = selection;
                let r = self.finish_selected(selection, output_hash);
                assert(finish_post(rec, sel, output_hash, r));
                r
            },
        }
    }
}

// ---------------------------------------------------------------------
// Checking a trace's envelope and hash chain
// ---------------------------------------------------------------------

pub open spec fn plain_error(code: Seq<char>, detail: Seq<char>) -> TraceErrorView {
    TraceErrorView { code, detail, observed: None, limit: None }
}

/// The checks of the event at position `i`, given the hash it must link
/// to and the totals before it: its first defect, or the totals after it.
#[verifier::opaque]
pub open spec fn scan_step(
    e: EventView,
    i: int,
    previous: Seq<char>,
    bytes: int,
    visual: int,
) -> Result<(int, int), TraceErrorView> {
    if e.index != i {
        Err(
            plain_error(
                "trace_event_order_invalid"@,
                "trace event at position "@ + dec_text(i as nat) + " declares index "@ + dec_text(
                    e.index as nat,
                ),
            ),
        )
    } else if e.previous_hash != previous {
        Err(
            plain_error(
                "trace_previous_hash_mismatch"@,
                "trace event "@ + dec_text(i as nat) + " does not link to the previous hash"@,
            ),
        )
    } else if e.event_hash != event_hash_spec(e.index, e.attempt, e.previous_hash, e.body) {
        Err(
            plain_error(
                "trace_event_hash_mismatch"@,
                "trace event "@ + dec_text(i as nat) + " body does not match its hash"@,
            ),
        )
    } else if bytes + body_json(e.body).len() > u64::MAX {
        Err(
            plain_error(
                "trace_event_body_byte_overflow"@,
                "trace event body byte accounting overflowed"@,
            ),
        )
    } else {
        match visual_count_result(e.body) {
            Err(x) => Err(x),
            Ok(c) => if visual + c > u64::MAX {
                Err(
                    plain_error(
                        "trace_visual_cell_overflow"@,
                        "trace visual-cell accounting overflowed"@,
                    ),
                )
            } else {
                Ok((bytes + body_json(e.body).len(), visual + c))
            },
        }
    }
}

/// Scans the events from position `i` on, given the hash the event at `i`
/// must link to and the totals so far: the first defect, or the last hash
/// and the totals.
pub open spec fn chain_scan(
    es: Seq<EventView>,
    i: int,
    previous: Seq<char>,
    bytes: int,
    visual: int,
) -> Result<(Seq<char>, int, int), TraceErrorView>
    decreases es.len() - i,
{
    if i < 0 || i >= es.len() {
        Ok((previous, bytes, visual))
    } else {
        match scan_step(es[i], i, previous, bytes, visual) {
            Err(x) => Err(x),
            Ok((b, v)) => chain_scan(es, i + 1, es[i].event_hash, b, v),
        }
    }
}

/// The first defect of a trace's envelope and hash chain, if any: its
/// schema, its limits, its event count, each event's position, link and
/// hash, its totals and its final hash.
pub open spec fn trace_chain_check(t: CatalogGenerationTrace) -> Option<TraceErrorView> {
    let es = views(t.events@);
    if t.kind@ != "rusty_procgen.catalog_generation_trace.v1"@ || t.schema_version != 1 {
        Some(
            plain_error(
                "trace_schema_unsupported"@,
                "unsupported catalog generation trace schema"@,
            ),
        )
    } else if trace_limits_check(t.limits) is Some {
        trace_limits_check(t.limits)
    } else if es.len() > u32::MAX {
        Some(plain_error("trace_event_count_overflow"@, "trace event count exceeds u32"@))
    } else if es.len() > t.limits.max_events {
        Some(
            TraceErrorView {
                code: "trace_event_quota_exceeded"@,
                detail: "trace event count exceeds its declared limit"@,
                observed: Some(es.len() as u64),
                limit: Some(t.limits.max_events as u64),
            },
        )
    } else {
        match chain_scan(es, 0, t.root_hash@, 0, 0) {
            Err(x) => Some(x),
            Ok((last, bytes, visual)) => if bytes != t.event_body_bytes || bytes
                > t.limits.max_event_body_bytes {
                Some(
                    TraceErrorView {
                        code: "trace_event_body_byte_mismatch"@,
                        detail: "trace event-body byte evidence is inconsistent or over limit"@,
                        observed: Some(bytes as u64),
                        limit: Some(t.limits.max_event_body_bytes),
                    },
                )
            } else if visual != t.visual_cell_count || visual > t.limits.max_visual_cells {
                Some(
                    TraceErrorView {
                        code: "trace_visual_cell_mismatch"@,
                        detail: "trace visual-cell evidence is inconsistent or over limit"@,
                        observed: Some(visual as u64),
                        limit: Some(t.limits.max_visual_cells),
                    },
                )
            } else if last != t.final_event_hash@ {
                Some(
                    plain_error(
                        "trace_final_event_hash_mismatch"@,
                        "trace final event hash does not close the event chain"@,
                    ),
                )
            } else {
                None
            },
        }
    }
}

/// Checks one event against its position, the hash before it and the
/// totals so far.
pub(crate) fn check_event(
    e: &CatalogGenerationTraceEvent,
    i: usize,
    previous: &str,
    bytes: u64,
    visual: u64,
) -> (r: Result<(u64, u64), CatalogGenerationTraceError>)
    requires
        i <= u32::MAX,
    ensures
        match r {
            Ok((b, v)) => scan_step(e@, i as int, previous@, bytes as int, visual as int) == Ok::<
                (int, int),
                TraceErrorView,
            >((b as int, v as int)),
            Err(x) => scan_step(e@, i as int, previous@, bytes as int, visual as int) == Err::<
                (int, int),
                TraceErrorView,
            >(x@),
        },
{
    reveal(scan_step);
    let pos: u32 = i as u32;
    if e.index != pos {
        let mut d = owned("trace event at position ");
        push_dec_text(&mut d, i as u64);
        d.append(" declares index ");
        push_dec_text(&mut d, e.index as u64);
        return Err(CatalogGenerationTraceError::new("trace_event_order_invalid", d, None, None));
    }
    if !str_eq(e.previous_hash.as_str(), previous) {
        let mut d = owned("trace event ");
        push_dec_text(&mut d, i as u64);
        d.append(" does not link to the previous hash");
        return Err(CatalogGenerationTraceError::new("trace_previous_hash_mismatch", d, None, None));
    }
    let expected = catalog_generation_trace_event_hash(
        e.index,
        e.attempt,
        e.previous_hash.as_str(),
        &e.body,
    );
    if !str_eq(e.event_hash.as_str(), expected.as_str()) {
        let mut d = owned("trace event ");
        push_dec_text(&mut d, i as u64);
        d.append(" body does not match its hash");
        return Err(CatalogGenerationTraceError::new("trace_event_hash_mismatch", d, None, None));
    }
    let encoded = body_bytes(&e.body);
    let len: u64 = encoded.len() as u64;
    let nb = match bytes.checked_add(len) {
        Some(x) => x,
        None => {
            return Err(
                CatalogGenerationTraceError::new(
                    "trace_event_body_byte_overflow",
                    owned("trace event body byte accounting overflowed"),
                    None,
                    None,
                ),
            );
        },
    };
    let c = match visual_cell_count(&e.body) {
        Ok(c) => c,
        Err(x) => {
            return Err(x);
        },
    };
    match visual.checked_add(c) {
        Some(nv) => Ok((nb, nv)),
        None => Err(
            CatalogGenerationTraceError::new(
                "trace_visual_cell_overflow",
                owned("trace visual-cell accounting overflowed"),
                None,
                None,
            ),
        ),
    }
}

/// Checks the events in order from the root hash.
fn scan_events(
    t: &CatalogGenerationTrace,
    previous: String,
    bytes: u64,
    visual: u64,
) -> (r: Result<(String, u64, u64), CatalogGenerationTraceError>)
    requires
        t.events@.len() <= u32::MAX,
    ensures
        match r {
            Ok((h, b, v)) => chain_scan(views(t.events@), 0, previous@, bytes as int, visual as int)
                == Ok::<(Seq<char>, int, int), TraceErrorView>((h@, b as int, v as int)),
            Err(e) => chain_scan(views(t.events@), 0, previous@, bytes as int, visual as int)
                == Err::<(Seq<char>, int, int), TraceErrorView>(e@),
        },
{
    let ghost es = views(t.events@);
    let ghost p0 = previous@;
    let ghost start = chain_scan(es, 0, p0, bytes as int, visual as int);
    let mut prev = previous;
    let mut b = bytes;
    let mut v = visual;
    let mut i: usize = 0;
    while i < t.events.len()
        invariant
            es == views(t.events@),
            p0 == previous@,
            start == chain_scan(es, 0, p0, bytes as int, visual as int),
            t.events@.len() <= u32::MAX,
            i <= t.events@.len(),
            start == chain_scan(es, i as int, prev@, b as int, v as int),
        decreases t.events@.len() - i,
    {
        let e = &t.events[i];
        assert(es[i as int] == e@);
        match check_event(e, i, prev.as_str(), b, v) {
            Err(x) => {
                return Err(x);
            },
            Ok((nb, nv)) => {
                prev = e.event_hash.clone();
                b = nb;
                v = nv;
            },
        }
        i = i + 1;
    }
    Ok((prev, b, v))
}

/// Checks a trace's schema, limits, event count, hash chain, totals and
/// final hash: the part of a replay that needs no generation inputs.
pub fn check_catalog_generation_trace_chain(t: &CatalogGenerationTrace) -> (r: Result<
    (),
    CatalogGenerationTraceError,
>)
    ensures
        match r {
            Ok(()) => trace_chain_check(*t) is None,
            Err(e) => trace_chain_check(*t) == Some(e@),
        },
{
    if !str_eq(t.kind.as_str(), "rusty_procgen.catalog_generation_trace.v1") || t.schema_version != 1 {
        return Err(
            CatalogGenerationTraceError::new(
                "trace_schema_unsupported",
                owned("unsupported catalog generation trace schema"),
                None,
                None,
            ),
        );
    }
    match validate_catalog_generation_trace_limits(&t.limits) {
        Err(e) => {
            return Err(e);
        },
        Ok(()) => {},
    }
    let n = t.events.len();
    if n > 0xffff_ffff {
        return Err(
            CatalogGenerationTraceError::new(
                "trace_event_count_overflow",
                owned("trace event count exceeds u32"),
                None,
                None,
            ),
        );
    }
    let count: u32 = n as u32;
    if count > t.limits.max_events {
        return Err(
            CatalogGenerationTraceError::new(
                "trace_event_quota_exceeded",
                owned("trace event count exceeds its declared limit"),
                Some(count as u64),
                Some(t.limits.max_events as u64),
            ),
        );
    }
    let (last, bytes, visual) = match scan_events(t, t.root_hash.clone(), 0, 0) {
        Err(e) => {
            return Err(e);
        },
        Ok(x) => x,
    };
    if bytes != t.event_body_bytes || bytes > t.limits.max_event_body_bytes {
        return Err(
            CatalogGenerationTraceError::new(
                "trace_event_body_byte_mismatch",
                owned("trace event-body byte evidence is inconsistent or over limit"),
                Some(bytes),
                Some(t.limits.max_event_body_bytes),
            ),
        );
    }
    if visual != t.visual_cell_count || visual > t.limits.max_visual_cells {
        return Err(
            CatalogGenerationTraceError::new(
                "trace_visual_cell_mismatch",
                owned("trace visual-cell evidence is inconsistent or over limit"),
                Some(visual),
                Some(t.limits.max_visual_cells),
            ),
        );
    }
    if !str_eq(last.as_str(), t.final_event_hash.as_str()) {
        return Err(
            CatalogGenerationTraceError::new(
                "trace_final_event_hash_mismatch",
                owned("trace final event hash does not close the event chain"),
                None,
                None,
            ),
        );
    }
    Ok(())
}

/// The hash a chain of events ends with: its last event's, or the root's.
pub open spec fn chain_end(root: Seq<char>, es: Seq<EventView>) -> Seq<char> {
    if es.len() == 0 {
        root
    } else {
        es.last().event_hash
    }
}

/// The hash the event at position `i` must link to.
pub open spec fn chain_link(root: Seq<char>, es: Seq<EventView>, i: int) -> Seq<char> {
    if i == 0 {
        root
    } else {
        es[i - 1].event_hash
    }
}

/// A prefix of the events totals no more than all of them.
proof fn lemma_prefix_totals(es: Seq<EventView>, i: int)
    requires
        0 <= i <= es.len(),
    ensures
        body_bytes_total(es.take(i)) <= body_bytes_total(es),
        visual_total(es.take(i)) <= visual_total(es),
    decreases es.len() - i,
{
    if i < es.len() {
        lemma_prefix_totals(es, i + 1);
        assert(es.take(i + 1) =~= es.take(i).push(es[i]));
        lemma_totals_push(es.take(i), es[i]);
    } else {
        assert(es.take(i) =~= es);
    }
}

/// Totals are never negative.
proof fn lemma_totals_nonneg(es: Seq<EventView>)
    ensures
        0 <= body_bytes_total(es),
        0 <= visual_total(es),
    decreases es.len(),
{
    reveal(body_bytes_total);
    reveal(visual_total);
    if es.len() > 0 {
        lemma_totals_nonneg(es.drop_last());
    }
}

/// The totals of one more event of a prefix.
proof fn lemma_take_push(es: Seq<EventView>, i: int)
    requires
        0 <= i < es.len(),
    ensures
        body_bytes_total(es.take(i + 1)) == body_bytes_total(es.take(i)) + body_json(
            es[i].body,
        ).len(),
        visual_total(es.take(i + 1)) == visual_total(es.take(i)) + visual_cells(es[i].body),
{
    assert(es.take(i + 1) =~= es.take(i).push(es[i]));
    lemma_totals_push(es.take(i), es[i]);
}

/// A well-linked event within the totals passes its checks.
proof fn lemma_step_ok(e: EventView, i: int, previous: Seq<char>, bytes: int, visual: int)
    requires
        e.index == i,
        e.previous_hash == previous,
        e.event_hash == event_hash_spec(e.index, e.attempt, e.previous_hash, e.body),
        0 <= bytes,
        0 <= visual,
        bytes + body_json(e.body).len() <= u64::MAX,
        visual + visual_cells(e.body) <= u32::MAX,
    ensures
        scan_step(e, i, previous, bytes, visual) == Ok::<(int, int), TraceErrorView>(
            (bytes + body_json(e.body).len(), visual + visual_cells(e.body)),
        ),
{
    reveal(scan_step);
}

/// Scanning a well-linked chain from position `i` meets no defect and ends
/// with the chain's last hash and its totals.
proof fn lemma_chain_scan_ok(root: Seq<char>, es: Seq<EventView>, i: int)
    requires
        chain_ok(root, es),
        0 <= i <= es.len(),
        body_bytes_total(es) <= u64::MAX,
        visual_total(es) <= u32::MAX,
    ensures
        chain_scan(
            es,
            i,
            chain_link(root, es, i),
            body_bytes_total(es.take(i)),
            visual_total(es.take(i)),
        ) == Ok::<(Seq<char>, int, int), TraceErrorView>(
            (chain_end(root, es), body_bytes_total(es), visual_total(es)),
        ),
    decreases es.len() - i,
{
    if i < es.len() {
        let e = es[i];
        lemma_take_push(es, i);
        lemma_prefix_totals(es, i + 1);
        lemma_totals_nonneg(es.take(i));
        lemma_chain_scan_ok(root, es, i + 1);
        assert(e.index == i);
        assert(e.previous_hash == chain_link(root, es, i));
        lemma_step_ok(e, i, chain_link(root, es, i), body_bytes_total(es.take(i)), visual_total(es.take(i)));
        assert(chain_link(root, es, i + 1) == e.event_hash);
    } else {
        assert(es.take(i) =~= es);
        if es.len() > 0 {
            assert(es.last() == es[es.len() - 1]);
        }
    }
}

/// A trace whose events form a hash chain from its root, within valid
/// limits, with matching totals and final hash, passes the chain check.
pub proof fn lemma_linked_trace_passes_chain_check(t: CatalogGenerationTrace)
    requires
        trace_chain_ok(t),
        t.kind@ == "rusty_procgen.catalog_generation_trace.v1"@,
        t.schema_version == 1,
    ensures
        trace_chain_check(t) is None,
{
    let es = views(t.events@);
    lemma_totals_empty(es.take(0));
    lemma_chain_scan_ok(t.root_hash@, es, 0);
    if es.len() > 0 {
        assert(es.last() == t.events@.last()@);
    }
}

/// What a scan that meets no defect certifies of the events from position
/// `i` on: their positions, links and hashes, the hash it ends with and
/// the totals it adds.
proof fn lemma_chain_scan_sound(es: Seq<EventView>, i: int, previous: Seq<char>, bytes: int, visual: int)
    requires
        0 <= i <= es.len(),
        chain_scan(es, i, previous, bytes, visual) is Ok,
    ensures
        forall|k: int|
            i <= k < es.len() ==> {
                &&& (#[trigger] es[k]).index == k
                &&& es[k].previous_hash == (if k == i {
                    previous
                } else {
                    es[k - 1].event_hash
                })
                &&& es[k].event_hash == event_hash_spec(
                    es[k].index,
                    es[k].attempt,
                    es[k].previous_hash,
                    es[k].body,
                )
            },
        ({
            let (last, b, v) = chain_scan(es, i, previous, bytes, visual)->Ok_0;
            &&& last == (if i == es.len() {
                previous
            } else {
                es.last().event_hash
            })
            &&& b == bytes + body_bytes_total(es) - body_bytes_total(es.take(i))
            &&& v == visual + visual_total(es) - visual_total(es.take(i))
        }),
    decreases es.len() - i,
{
    if i < es.len() {
        reveal(scan_step);
        let e = es[i];
        let (nb, nv) = scan_step(e, i, previous, bytes, visual)->Ok_0;
        lemma_chain_scan_sound(es, i + 1, e.event_hash, nb, nv);
        lemma_take_push(es, i);
    } else {
        assert(es.take(i) =~= es);
    }
}

/// A trace passes the chain check exactly when it has the supported schema
/// and its events form a hash chain from its root, within valid limits,
/// with matching totals and final hash.
pub proof fn lemma_chain_check_exact(t: CatalogGenerationTrace)
    ensures
        trace_chain_check(t) is None <==> (trace_chain_ok(t) && t.kind@
            == "rusty_procgen.catalog_generation_trace.v1"@ && t.schema_version == 1),
{
    if trace_chain_ok(t) && t.kind@ == "rusty_procgen.catalog_generation_trace.v1"@
        && t.schema_version == 1 {
        lemma_linked_trace_passes_chain_check(t);
    }
    if trace_chain_check(t) is None {
        let es = views(t.events@);
        lemma_totals_empty(es.take(0));
        lemma_chain_scan_sound(es, 0, t.root_hash@, 0, 0);
        assert(es.take(0) =~= Seq::<EventView>::empty());
        assert forall|k: int| 0 <= k < es.len() implies {
            &&& (#[trigger] es[k]).index == k
            &&& es[k].previous_hash == (if k == 0 {
                t.root_hash@
            } else {
                es[k - 1].event_hash
            })
            &&& es[k].event_hash == event_hash_spec(
                es[k].index,
                es[k].attempt,
                es[k].previous_hash,
                es[k].body,
            )
        } by {}
        if es.len() > 0 {
            assert(es.last() == t.events@.last()@);
        }
    }
}

} // verus!
