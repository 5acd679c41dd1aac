//! Replaying a catalog generation trace event by event: the run's event
//! grammar (input binding first, attempts in order, sections started before
//! they finish) and the agreement of every attempt, validation and the run's
//! close with the generation result that the trace claims to explain.

use vstd::prelude::*;
use vstd::string::*;

use crate::catalog::GridCell;
use crate::catalog_geometry::{catalog_room_kind, is_catalog_room_kind};
use crate::catalog_outcome::{CatalogAwareAttemptEvidence, CatalogAwareGenerationPolicy};
use crate::catalog_trace::{
    catalog_generation_trace_root_hash, catalog_generation_trace_selection, check_event, opt_error,
    plain_error, root_hash_spec, scan_step, selection_spec, trace_limits_check,
    validate_catalog_generation_trace_limits, CatalogGenerationTrace, CatalogGenerationTraceError,
    CatalogGenerationTraceLimits, CatalogGenerationTraceSelection,
    CatalogGenerationTraceEvent, CatalogGenerationTraceEventBody, CatalogGenerationTraceInputHashes,
    CatalogGenerationTraceRoomPlacement, CatalogGenerationTraceRoute, TraceErrorView,
};
use crate::geometry::{GeometryCorridor, GeometryPoint};
use crate::model::{opt_text, owned, texts};
use crate::sorting::{insert_by_key, insert_keyed, views, TextKeyed};
use crate::text::{dec_text, push_dec_text, str_eq};

verus! {

// ---------------------------------------------------------------------
// What the replay reads of a generation result
// ---------------------------------------------------------------------

/// The evidence of one validation stage of the selected result: whether it
/// passed, the hash of what it checked, and its diagnostic codes in order.
#[derive(Clone, Debug)]
pub struct ReplayStageEvidence {
    pub ok: bool,
    pub subject_hash: String,
    pub diagnostic_codes: Vec<String>,
}

/// The parts of a catalog-aware generation result that a replay compares
/// the trace with.
#[derive(Clone, Debug)]
pub struct CatalogReplayResult {
    /// Whether the run produced an admissible outcome.
    pub ok: bool,
    pub selected_attempt: Option<u32>,
    pub final_classification: Option<String>,
    pub attempts: Vec<CatalogAwareAttemptEvidence>,
    /// The hash of the whole result, as its serialisation gives it.
    pub output_hash: String,
    pub geometry_validation: Option<ReplayStageEvidence>,
    pub placement_validation: Option<ReplayStageEvidence>,
    pub built_flow_validation: Option<ReplayStageEvidence>,
    /// Every piece instance of the result's placement, as room placements.
    pub placement_instances: Option<Vec<CatalogGenerationTraceRoomPlacement>>,
    /// The physical section of every link of the result's piece plan.
    pub plan_link_sections: Option<Vec<String>>,
    pub geometry_corridors: Option<Vec<GeometryCorridor>>,
}

// ---------------------------------------------------------------------
// Views
// ---------------------------------------------------------------------

#[verifier::ext_equal]
pub struct PlacementView {
    pub piece_id: Seq<char>,
    pub requirement_kind: Seq<char>,
    pub shape_id: Seq<char>,
    pub transform: Seq<char>,
    pub origin: GridCell,
    pub occupied_cells: Seq<GridCell>,
    pub reserved_cells: Seq<GridCell>,
}

impl View for CatalogGenerationTraceRoomPlacement {
    type V = PlacementView;

    open spec fn view(&self) -> PlacementView {
        PlacementView {
            piece_id: self.piece_id@,
            requirement_kind: self.requirement_kind@,
            shape_id: self.shape_id@,
            transform: self.transform@,
            origin: self.origin,
            occupied_cells: self.occupied_cells@,
            reserved_cells: self.reserved_cells@,
        }
    }
}

impl TextKeyed for CatalogGenerationTraceRoomPlacement {
    open spec fn view_key(v: PlacementView) -> Seq<char> {
        v.piece_id
    }

    fn key(&self) -> (r: &str) {
        self.piece_id.as_str()
    }
}

#[verifier::ext_equal]
pub struct RouteView {
    pub section_id: Seq<char>,
    pub cells: Seq<GridCell>,
    pub states_visited: u32,
}

impl View for CatalogGenerationTraceRoute {
    type V = RouteView;

    open spec fn view(&self) -> RouteView {
        RouteView { section_id: self.section_id@, cells: self.cells@, states_visited: self.states_visited }
    }
}

impl TextKeyed for CatalogGenerationTraceRoute {
    open spec fn view_key(v: RouteView) -> Seq<char> {
        v.section_id
    }

    fn key(&self) -> (r: &str) {
        self.section_id.as_str()
    }
}

/// The rooms and routes of one finished attempt, in key order.
#[derive(Clone, Debug)]
pub struct CatalogGenerationReplayAttempt {
    pub attempt: u32,
    pub rooms: Vec<CatalogGenerationTraceRoomPlacement>,
    pub routes: Vec<CatalogGenerationTraceRoute>,
    pub classification: String,
}

#[verifier::ext_equal]
pub struct AttemptView {
    pub attempt: u32,
    pub rooms: Seq<PlacementView>,
    pub routes: Seq<RouteView>,
    pub classification: Seq<char>,
}

impl View for CatalogGenerationReplayAttempt {
    type V = AttemptView;

    open spec fn view(&self) -> AttemptView {
        AttemptView {
            attempt: self.attempt,
            rooms: views(self.rooms@),
            routes: views(self.routes@),
            classification: self.classification@,
        }
    }
}

/// The (shape, transform) choices of a room domain.
pub open spec fn choice_views(v: Seq<(String, String)>) -> Seq<(Seq<char>, Seq<char>)> {
    v.map_values(|p: (String, String)| (p.0@, p.1@))
}

pub open spec fn domain_views(v: Seq<(String, Vec<(String, String)>)>) -> Seq<
    (Seq<char>, Seq<(Seq<char>, Seq<char>)>),
> {
    v.map_values(|d: (String, Vec<(String, String)>)| (d.0@, choice_views(d.1@)))
}

/// The replay machine: the active attempt and what it has placed and routed
/// so far, the sections started and not finished, the next attempt number,
/// whether the inputs were bound and the run finished, and the last
/// attempt finished.
pub struct CatalogGenerationReplayMachine {
    attempt: Option<u32>,
    domains: Vec<(String, Vec<(String, String)>)>,
    rooms: Vec<CatalogGenerationTraceRoomPlacement>,
    routes: Vec<CatalogGenerationTraceRoute>,
    routing_states: u32,
    pending_sections: Vec<String>,
    next_attempt: u32,
    input_bound: bool,
    run_finished: bool,
    completed_attempt: Option<CatalogGenerationReplayAttempt>,
}

#[verifier::ext_equal]
pub struct ReplayView {
    pub attempt: Option<u32>,
    pub domains: Seq<(Seq<char>, Seq<(Seq<char>, Seq<char>)>)>,
    pub rooms: Seq<PlacementView>,
    pub routes: Seq<RouteView>,
    pub routing_states: u32,
    pub pending_sections: Seq<Seq<char>>,
    pub next_attempt: u32,
    pub input_bound: bool,
    pub run_finished: bool,
    pub completed_attempt: Option<AttemptView>,
}

pub open spec fn opt_attempt(o: Option<CatalogGenerationReplayAttempt>) -> Option<AttemptView> {
    match o {
        Some(a) => Some(a@),
        None => None,
    }
}

impl View for CatalogGenerationReplayMachine {
    type V = ReplayView;

    closed spec fn view(&self) -> ReplayView {
        ReplayView {
            attempt: self.attempt,
            domains: domain_views(self.domains@),
            rooms: views(self.rooms@),
            routes: views(self.routes@),
            routing_states: self.routing_states,
            pending_sections: texts(self.pending_sections@),
            next_attempt: self.next_attempt,
            input_bound: self.input_bound,
            run_finished: self.run_finished,
            completed_attempt: opt_attempt(self.completed_attempt),
        }
    }
}

pub open spec fn hashes_view(h: CatalogGenerationTraceInputHashes) -> Seq<Seq<char>> {
    seq![
        h.candidate_hash@,
        h.source_geometry_hash@,
        h.source_plan_hash@,
        h.catalog_hash@,
        h.generation_policy_hash@,
        h.provenance_hash@,
    ]
}

/// The machine before the first event.
pub open spec fn replay_start() -> ReplayView {
    ReplayView {
        attempt: None,
        domains: Seq::empty(),
        rooms: Seq::empty(),
        routes: Seq::empty(),
        routing_states: 0,
        pending_sections: Seq::empty(),
        next_attempt: 0,
        input_bound: false,
        run_finished: false,
        completed_attempt: None,
    }
}

// ---------------------------------------------------------------------
// One replay step, as a function of the machine's view
// ---------------------------------------------------------------------

/// The domain recorded last for room `p`.
pub open spec fn domain_lookup(ds: Seq<(Seq<char>, Seq<(Seq<char>, Seq<char>)>)>, p: Seq<char>) -> Option<
    Seq<(Seq<char>, Seq<char>)>,
>
    decreases ds.len(),
{
    if ds.len() == 0 {
        None
    } else if ds.last().0 == p {
        Some(ds.last().1)
    } else {
        domain_lookup(ds.drop_last(), p)
    }
}

pub open spec fn rooms_has(rooms: Seq<PlacementView>, p: Seq<char>) -> bool {
    exists|i: int| 0 <= i < rooms.len() && (#[trigger] rooms[i]).piece_id == p
}

/// The last position of route `s`.
pub open spec fn route_index(routes: Seq<RouteView>, s: Seq<char>) -> Option<int>
    decreases routes.len(),
{
    if routes.len() == 0 {
        None
    } else if routes.last().section_id == s {
        Some(routes.len() - 1)
    } else {
        route_index(routes.drop_last(), s)
    }
}

/// `routes` with route `r` set: replaced where its section is listed,
/// else inserted in section order.
pub open spec fn put_route(routes: Seq<RouteView>, r: RouteView) -> Seq<RouteView> {
    match route_index(routes, r.section_id) {
        Some(i) => routes.update(i, r),
        None => insert_by_key::<CatalogGenerationTraceRoute>(routes, r),
    }
}

/// The last position of `s` in `p`.
pub open spec fn text_index(p: Seq<Seq<char>>, s: Seq<char>) -> Option<int>
    decreases p.len(),
{
    if p.len() == 0 {
        None
    } else if p.last() == s {
        Some(p.len() - 1)
    } else {
        text_index(p.drop_last(), s)
    }
}

pub open spec fn num(n: int) -> Seq<char> {
    dec_text(n as nat)
}

pub open spec fn input_missing(index: u32) -> TraceErrorView {
    plain_error("trace_input_event_missing"@, "event "@ + num(index as int) + " precedes input binding"@)
}

/// The active attempt that an attempt-level event must name.
pub open spec fn current_attempt(m: ReplayView, e: CatalogGenerationTraceEvent) -> Result<u32, TraceErrorView> {
    match m.attempt {
        None => Err(
            plain_error("trace_attempt_not_active"@, "event "@ + num(e.index as int) + " has no active attempt"@),
        ),
        Some(a) => if e.attempt != Some(a) {
            Err(
                plain_error(
                    "trace_attempt_mismatch"@,
                    "event "@ + num(e.index as int) + " does not name active attempt "@ + num(a as int),
                ),
            )
        } else {
            Ok(a)
        },
    }
}

pub open spec fn candidate_choices(cs: Seq<crate::catalog_trace::CatalogGenerationTraceRoomCandidate>) -> Seq<
    (Seq<char>, Seq<char>),
> {
    cs.map_values(|c: crate::catalog_trace::CatalogGenerationTraceRoomCandidate| (c.shape_id@, c.transform@))
}

/// The stage evidence that a validation event of the selected attempt is
/// compared with.
pub open spec fn stage_check(
    stage: Seq<char>,
    ok: bool,
    subject_hash: Seq<char>,
    codes: Seq<Seq<char>>,
    res: CatalogReplayResult,
) -> Option<TraceErrorView> {
    let found = if stage == "geometry_validation"@ {
        Some((res.geometry_validation, "selected result has no geometry validation"@))
    } else if stage == "placement_validation"@ {
        Some((res.placement_validation, "selected result has no placement validation"@))
    } else if stage == "built_flow_validation"@ {
        Some((res.built_flow_validation, "selected result has no built-flow validation"@))
    } else {
        None
    };
    match found {
        None => Some(
            plain_error(
                "trace_validation_stage_invalid"@,
                "selected result trace has unknown validation stage "@ + stage,
            ),
        ),
        Some((None, missing)) => Some(plain_error("trace_selected_validation_missing"@, missing)),
        Some((Some(ev), _)) => if ok != ev.ok || subject_hash != ev.subject_hash@ || codes != texts(
            ev.diagnostic_codes@,
        ) {
            Some(
                plain_error(
                    "trace_selected_validation_mismatch"@,
                    "trace "@ + stage + " evidence does not match the selected result"@,
                ),
            )
        } else {
            None
        },
    }
}

/// The last room-kind instance for piece `p`.
pub open spec fn last_room_instance(insts: Seq<PlacementView>, p: Seq<char>) -> Option<PlacementView>
    decreases insts.len(),
{
    if insts.len() == 0 {
        None
    } else if catalog_room_kind(insts.last().requirement_kind) && insts.last().piece_id == p {
        Some(insts.last())
    } else {
        last_room_instance(insts.drop_last(), p)
    }
}

/// The replayed rooms are the selected placement's rooms, keyed by piece.
pub open spec fn rooms_match(rooms: Seq<PlacementView>, insts: Seq<PlacementView>) -> bool {
    &&& forall|i: int|
        0 <= i < rooms.len() ==> last_room_instance(insts, (#[trigger] rooms[i]).piece_id) == Some(rooms[i])
    &&& forall|j: int|
        0 <= j < insts.len() && catalog_room_kind((#[trigger] insts[j]).requirement_kind) ==> rooms_has(
            rooms,
            insts[j].piece_id,
        )
}

/// The replayed routes cover exactly the plan's linked sections.
pub open spec fn sections_match(routes: Seq<RouteView>, links: Seq<Seq<char>>) -> bool {
    &&& forall|i: int| 0 <= i < routes.len() ==> links.contains((#[trigger] routes[i]).section_id)
    &&& forall|j: int| 0 <= j < links.len() ==> route_index(routes, #[trigger] links[j]) is Some
}

/// `v * 8`, saturating at the `i32` range.
pub open spec fn grid_px(v: i32) -> int {
    if v * 8 > i32::MAX {
        i32::MAX as int
    } else if v * 8 < i32::MIN {
        i32::MIN as int
    } else {
        v * 8
    }
}

pub open spec fn segment_has(a: GeometryPoint, b: GeometryPoint, x: int, y: int) -> bool {
    if a.x == b.x && x == a.x {
        (if a.y < b.y { a.y as int } else { b.y as int }) <= y <= (if a.y > b.y { a.y as int } else { b.y as int })
    } else if a.y == b.y && y == a.y {
        (if a.x < b.x { a.x as int } else { b.x as int }) <= x <= (if a.x > b.x { a.x as int } else { b.x as int })
    } else {
        false
    }
}

/// A corridor polyline passes the route-grid corner of `c`.
pub open spec fn corridor_has_cell(ps: Seq<GeometryPoint>, c: GridCell) -> bool {
    exists|k: int| 0 <= k < ps.len() - 1 && #[trigger] segment_has(ps[k], ps[k + 1], grid_px(c.x), grid_px(c.y))
}

/// The first corridor of physical section `s`, from position `k` on.
pub open spec fn corridor_from(cs: Seq<GeometryCorridor>, s: Seq<char>, k: int) -> Option<GeometryCorridor>
    decreases cs.len() - k,
{
    if k < 0 || k >= cs.len() {
        None
    } else if cs[k].physical_section@ == s {
        Some(cs[k])
    } else {
        corridor_from(cs, s, k + 1)
    }
}

/// The first route, from position `i` on, that has no corridor or leaves it.
pub open spec fn routes_check(routes: Seq<RouteView>, cs: Seq<GeometryCorridor>, i: int) -> Option<TraceErrorView>
    decreases routes.len() - i,
{
    if i < 0 || i >= routes.len() {
        None
    } else {
        let s = routes[i].section_id;
        match corridor_from(cs, s, 0) {
            None => Some(
                plain_error("trace_selected_route_missing"@, "selected geometry has no corridor for "@ + s),
            ),
            Some(c) => if exists|j: int|
                0 <= j < routes[i].cells.len() && !corridor_has_cell(c.points@, #[trigger] routes[i].cells[j]) {
                Some(
                    plain_error(
                        "trace_selected_route_mismatch"@,
                        "replayed route "@ + s + " leaves the selected geometry corridor"@,
                    ),
                )
            } else {
                routes_check(routes, cs, i + 1)
            },
        }
    }
}

/// The first way a successful attempt's visible state differs from the
/// selected result, if any.
pub open spec fn visible_check(m: ReplayView, res: CatalogReplayResult) -> Option<TraceErrorView> {
    match res.placement_instances {
        None => Some(
            plain_error("trace_selected_placement_missing"@, "successful result has no piece placement"@),
        ),
        Some(insts) => if !rooms_match(m.rooms, views(insts@)) {
            Some(
                plain_error(
                    "trace_selected_rooms_mismatch"@,
                    "replayed room placements do not match the selected result"@,
                ),
            )
        } else {
            match res.plan_link_sections {
                None => Some(plain_error("trace_selected_plan_missing"@, "successful result has no piece plan"@)),
                Some(links) => if !sections_match(m.routes, texts(links@)) {
                    Some(
                        plain_error(
                            "trace_selected_sections_mismatch"@,
                            "replayed routed sections do not match the selected result"@,
                        ),
                    )
                } else {
                    match res.geometry_corridors {
                        None => Some(
                            plain_error("trace_selected_geometry_missing"@, "successful result has no geometry"@),
                        ),
                        Some(cs) => routes_check(m.routes, cs@, 0),
                    }
                },
            }
        },
    }
}

pub open spec fn ok_step(m: ReplayView) -> (ReplayView, Result<(), TraceErrorView>) {
    (m, Ok(()))
}

pub open spec fn err_step(m: ReplayView, e: TraceErrorView) -> (ReplayView, Result<(), TraceErrorView>) {
    (m, Err(e))
}

/// Whether an attempt's reported evidence equals the result's.
pub open spec fn attempt_evidence_matches(
    ex: CatalogAwareAttemptEvidence,
    classification: Seq<char>,
    stage: Seq<char>,
    detail: Seq<char>,
    rooms_placed: usize,
    sections_routed: usize,
    routing_states: u32,
) -> bool {
    &&& ex.classification@ == classification
    &&& ex.stage@ == stage
    &&& ex.detail@ == detail
    &&& ex.rooms_placed == rooms_placed
    &&& ex.sections_routed == sections_routed
    &&& ex.routing_states == routing_states
}

/// One step of the replay: the machine after `e`, and the first defect
/// that `e` shows, if any.
pub open spec fn replay_step(
    m: ReplayView,
    e: CatalogGenerationTraceEvent,
    res: CatalogReplayResult,
    expected: CatalogGenerationTraceInputHashes,
) -> (ReplayView, Result<(), TraceErrorView>) {
    if m.run_finished {
        err_step(
            m,
            plain_error(
                "trace_event_after_run_finished"@,
                "event "@ + num(e.index as int) + " appears after run completion"@,
            ),
        )
    } else {
        match e.body {
            CatalogGenerationTraceEventBody::InputBound { input_hashes } => {
                if e.index != 0 || e.attempt is Some || m.input_bound || hashes_view(input_hashes)
                    != hashes_view(expected) {
                    err_step(
                        m,
                        plain_error(
                            "trace_input_event_invalid"@,
                            "input binding must be the unique first run-level event"@,
                        ),
                    )
                } else {
                    ok_step(ReplayView { input_bound: true, ..m })
                }
            },
            CatalogGenerationTraceEventBody::AttemptStarted { .. } => {
                if !m.input_bound {
                    err_step(m, input_missing(e.index))
                } else {
                    match e.attempt {
                        None => err_step(
                            m,
                            plain_error("trace_attempt_missing"@, "attempt-start event has no attempt"@),
                        ),
                        Some(a) => if m.attempt is Some || a != m.next_attempt {
                            err_step(
                                m,
                                plain_error(
                                    "trace_attempt_order_invalid"@,
                                    "attempt "@ + num(a as int) + " is not the next expected attempt"@,
                                ),
                            )
                        } else {
                            ok_step(
                                ReplayView {
                                    attempt: Some(a),
                                    domains: Seq::empty(),
                                    rooms: Seq::empty(),
                                    routes: Seq::empty(),
                                    routing_states: 0,
                                    pending_sections: Seq::empty(),
                                    ..m
                                },
                            )
                        },
                    }
                }
            },
            CatalogGenerationTraceEventBody::RoomDomainEvaluated { piece_id, candidates, .. } => {
                match current_attempt(m, e) {
                    Err(x) => err_step(m, x),
                    Ok(_) => if domain_lookup(m.domains, piece_id@) is Some {
                        err_step(
                            m,
                            plain_error(
                                "trace_room_domain_duplicate"@,
                                "room "@ + piece_id@ + " has more than one domain event"@,
                            ),
                        )
                    } else {
                        ok_step(
                            ReplayView {
                                domains: m.domains.push((piece_id@, candidate_choices(candidates@))),
                                ..m
                            },
                        )
                    },
                }
            },
            CatalogGenerationTraceEventBody::RoomPlaced { placement } => {
                match current_attempt(m, e) {
                    Err(x) => err_step(m, x),
                    Ok(_) => {
                        let p = placement@;
                        if !(domain_lookup(m.domains, p.piece_id) matches Some(d) && d.contains(
                            (p.shape_id, p.transform),
                        )) {
                            err_step(
                                m,
                                plain_error(
                                    "trace_room_choice_outside_domain"@,
                                    "room "@ + p.piece_id + " placement is absent from its recorded domain"@,
                                ),
                            )
                        } else if rooms_has(m.rooms, p.piece_id) {
                            err_step(
                                m,
                                plain_error("trace_room_duplicate"@, "room "@ + p.piece_id + " is placed twice"@),
                            )
                        } else {
                            ok_step(
                                ReplayView {
                                    rooms: insert_by_key::<CatalogGenerationTraceRoomPlacement>(m.rooms, p),
                                    ..m
                                },
                            )
                        }
                    },
                }
            },
            CatalogGenerationTraceEventBody::RoomConflict { piece_id, conflicting_cells } => {
                match current_attempt(m, e) {
                    Err(x) => err_step(m, x),
                    Ok(_) => if conflicting_cells@.len() == 0 || domain_lookup(m.domains, piece_id@) is None {
                        err_step(
                            m,
                            plain_error(
                                "trace_room_conflict_invalid"@,
                                "room "@ + piece_id@ + " conflict has no domain or cells"@,
                            ),
                        )
                    } else {
                        ok_step(m)
                    },
                }
            },
            CatalogGenerationTraceEventBody::SectionRoutingStarted { section_id, .. } => {
                match current_attempt(m, e) {
                    Err(x) => err_step(m, x),
                    Ok(_) => if m.pending_sections.contains(section_id@) || route_index(
                        m.routes,
                        section_id@,
                    ) is Some {
                        err_step(
                            m,
                            plain_error(
                                "trace_section_start_duplicate"@,
                                "section "@ + section_id@ + " starts more than once"@,
                            ),
                        )
                    } else {
                        ok_step(ReplayView { pending_sections: m.pending_sections.push(section_id@), ..m })
                    },
                }
            },
            CatalogGenerationTraceEventBody::SectionRoutingFinished {
                section_id,
                status,
                cells,
                states_visited,
            } => {
                match current_attempt(m, e) {
                    Err(x) => err_step(m, x),
                    Ok(_) => match text_index(m.pending_sections, section_id@) {
                        None => err_step(
                            m,
                            plain_error(
                                "trace_section_finish_without_start"@,
                                "section "@ + section_id@ + " finishes without a start"@,
                            ),
                        ),
                        Some(j) => {
                            let m2 = ReplayView {
                                pending_sections: m.pending_sections.remove(j),
                                routing_states: m.routing_states.saturating_add(states_visited),
                                ..m
                            };
                            if status@ == "found"@ && cells@.len() > 0 {
                                ok_step(
                                    ReplayView {
                                        routes: put_route(
                                            m.routes,
                                            RouteView { section_id: section_id@, cells: cells@, states_visited },
                                        ),
                                        ..m2
                                    },
                                )
                            } else if (status@ == "no_path"@ || status@ == "budget_exhausted"@) && cells@.len()
                                == 0 {
                                ok_step(m2)
                            } else {
                                err_step(
                                    m,
                                    plain_error(
                                        "trace_section_status_invalid"@,
                                        "section "@ + section_id@ + " has invalid status/cells"@,
                                    ),
                                )
                            }
                        },
                    },
                }
            },
            CatalogGenerationTraceEventBody::ValidationCompleted { stage, ok, subject_hash, diagnostic_codes } => {
                match current_attempt(m, e) {
                    Err(x) => err_step(m, x),
                    Ok(a) => if res.selected_attempt == Some(a) {
                        match stage_check(stage@, ok, subject_hash@, texts(diagnostic_codes@), res) {
                            Some(x) => err_step(m, x),
                            None => ok_step(m),
                        }
                    } else {
                        ok_step(m)
                    },
                }
            },
            CatalogGenerationTraceEventBody::AttemptFinished {
                classification,
                stage,
                detail,
                rooms_placed,
                sections_routed,
                routing_states,
            } => {
                match current_attempt(m, e) {
                    Err(x) => err_step(m, x),
                    Ok(a) => if m.pending_sections.len() > 0 {
                        err_step(
                            m,
                            plain_error(
                                "trace_section_unfinished"@,
                                "attempt "@ + num(a as int) + " finishes with a pending section"@,
                            ),
                        )
                    } else if a >= res.attempts@.len() {
                        err_step(
                            m,
                            plain_error(
                                "trace_attempt_missing_from_result"@,
                                "result contains no attempt evidence for "@ + num(a as int),
                            ),
                        )
                    } else if !attempt_evidence_matches(
                        res.attempts@[a as int],
                        classification@,
                        stage@,
                        detail@,
                        rooms_placed,
                        sections_routed,
                        routing_states,
                    ) {
                        err_step(
                            m,
                            plain_error(
                                "trace_attempt_evidence_mismatch"@,
                                "attempt "@ + num(a as int) + " evidence does not match the result"@,
                            ),
                        )
                    } else if m.rooms.len() != rooms_placed || m.routes.len() != sections_routed
                        || m.routing_states != routing_states {
                        err_step(
                            m,
                            plain_error(
                                "trace_attempt_state_mismatch"@,
                                "attempt "@ + num(a as int) + " visible state does not match its metrics"@,
                            ),
                        )
                    } else if classification@ == "success"@ && visible_check(m, res) is Some {
                        err_step(m, visible_check(m, res)->Some_0)
                    } else if m.next_attempt == u32::MAX {
                        err_step(
                            m,
                            plain_error("trace_attempt_count_overflow"@, "trace attempt count overflowed"@),
                        )
                    } else {
                        ok_step(
                            ReplayView {
                                completed_attempt: Some(
                                    AttemptView {
                                        attempt: a,
                                        rooms: m.rooms,
                                        routes: m.routes,
                                        classification: classification@,
                                    },
                                ),
                                attempt: None,
                                next_attempt: (m.next_attempt + 1) as u32,
                                ..m
                            },
                        )
                    },
                }
            },
            CatalogGenerationTraceEventBody::RunFinished { selected_attempt, classification, reason, output_hash } => {
                if !m.input_bound {
                    err_step(m, input_missing(e.index))
                } else if e.attempt is Some || m.attempt is Some {
                    err_step(
                        m,
                        plain_error(
                            "trace_run_finish_invalid"@,
                            "run-finished event must be run-level and follow a completed attempt"@,
                        ),
                    )
                } else {
                    match selection_spec(res.ok, res.selected_attempt, opt_text(res.final_classification)) {
                        Err(x) => err_step(m, x),
                        Ok(sel) => if selected_attempt != sel.0 || classification@ != sel.1 || reason@ != sel.2
                            || output_hash@ != res.output_hash@ {
                            err_step(
                                m,
                                plain_error(
                                    "trace_run_finish_mismatch"@,
                                    "run-finished event does not match the generation result"@,
                                ),
                            )
                        } else if m.next_attempt as int != res.attempts@.len() {
                            err_step(
                                m,
                                plain_error(
                                    "trace_attempt_count_mismatch"@,
                                    "trace attempt count does not match the generation result"@,
                                ),
                            )
                        } else {
                            ok_step(ReplayView { run_finished: true, ..m })
                        },
                    }
                }
            },
        }
    }
}


// ---------------------------------------------------------------------
// Executable replay
// ---------------------------------------------------------------------

/// The outcome of a replay step, errors taken by their view.
pub open spec fn unit_view(r: Result<(), CatalogGenerationTraceError>) -> Result<(), TraceErrorView> {
    match r {
        Ok(_) => Ok(()),
        Err(e) => Err(e@),
    }
}

fn fail(code: &str, detail: String) -> (r: CatalogGenerationTraceError)
    ensures
        r@ == plain_error(code@, detail@),
{
    CatalogGenerationTraceError::new(code, detail, None, None)
}

fn msg_text(a: &str, b: &str, c: &str) -> (r: String)
    ensures
        r@ == a@ + b@ + c@,
{
    let mut s = owned(a);
    s.append(b);
    s.append(c);
    s
}

fn msg_pair(a: &str, b: &str) -> (r: String)
    ensures
        r@ == a@ + b@,
{
    let mut s = owned(a);
    s.append(b);
    s
}

fn msg_num(a: &str, n: u32, c: &str) -> (r: String)
    ensures
        r@ == a@ + num(n as int) + c@,
{
    let mut s = owned(a);
    push_dec_text(&mut s, n as u64);
    s.append(c);
    s
}

fn hashes_equal(a: &CatalogGenerationTraceInputHashes, b: &CatalogGenerationTraceInputHashes) -> (r: bool)
    ensures
        r == (hashes_view(*a) == hashes_view(*b)),
{
    let e0 = str_eq(a.candidate_hash.as_str(), b.candidate_hash.as_str());
    let e1 = str_eq(a.source_geometry_hash.as_str(), b.source_geometry_hash.as_str());
    let e2 = str_eq(a.source_plan_hash.as_str(), b.source_plan_hash.as_str());
    let e3 = str_eq(a.catalog_hash.as_str(), b.catalog_hash.as_str());
    let e4 = str_eq(a.generation_policy_hash.as_str(), b.generation_policy_hash.as_str());
    let e5 = str_eq(a.provenance_hash.as_str(), b.provenance_hash.as_str());
    let r = e0 && e1 && e2 && e3 && e4 && e5;
    proof {
        let va = hashes_view(*a);
        let vb = hashes_view(*b);
        if r {
            assert(va =~= vb);
        } else if va == vb {
            assert(va[0] == vb[0] && va[1] == vb[1] && va[2] == vb[2]);
            assert(va[3] == vb[3] && va[4] == vb[4] && va[5] == vb[5]);
        }
    }
    r
}

fn texts_equal(a: &Vec<String>, b: &Vec<String>) -> (r: bool)
    ensures
        r == (texts(a@) == texts(b@)),
{
    if a.len() != b.len() {
        assert(texts(a@).len() != texts(b@).len());
        return false;
    }
    let mut i: usize = 0;
    while i < a.len()
        invariant
            a@.len() == b@.len(),
            i <= a@.len(),
            forall|k: int| 0 <= k < i ==> texts(a@)[k] == texts(b@)[k],
        decreases a@.len() - i,
    {
        if !str_eq(a[i].as_str(), b[i].as_str()) {
            assert(texts(a@)[i as int] != texts(b@)[i as int]);
            return false;
        }
        i = i + 1;
    }
    assert(texts(a@) =~= texts(b@));
    true
}

fn texts_contain(v: &Vec<String>, s: &str) -> (r: bool)
    ensures
        r == texts(v@).contains(s@),
{
    let mut i: usize = 0;
    while i < v.len()
        invariant
            i <= v@.len(),
            forall|k: int| 0 <= k < i ==> texts(v@)[k] != s@,
        decreases v@.len() - i,
    {
        if str_eq(v[i].as_str(), s) {
            assert(texts(v@)[i as int] == s@);
            return true;
        }
        i = i + 1;
    }
    proof { true_if_none(texts(v@), s@); }
    false
}

proof fn true_if_none(v: Seq<Seq<char>>, s: Seq<char>)
    requires
        forall|k: int| 0 <= k < v.len() ==> v[k] != s,
    ensures
        !v.contains(s),
{
}

fn find_text(v: &Vec<String>, s: &str) -> (r: Option<usize>)
    ensures
        text_index(texts(v@), s@) == (match r {
            Some(i) => Some(i as int),
            None => None::<int>,
        }),
        r matches Some(i) ==> i < v@.len(),
{
    let ghost tv = texts(v@);
    let mut j: usize = v.len();
    assert(tv.take(j as int) =~= tv);
    while j > 0
        invariant
            j <= v@.len(),
            tv == texts(v@),
            text_index(tv, s@) == text_index(tv.take(j as int), s@),
        decreases j,
    {
        let ghost t = tv.take(j as int);
        assert(t.last() == tv[j - 1]);
        if str_eq(v[j - 1].as_str(), s) {
            return Some(j - 1);
        }
        assert(t.drop_last() =~= tv.take(j - 1));
        j = j - 1;
    }
    None
}

fn find_domain(ds: &Vec<(String, Vec<(String, String)>)>, p: &str) -> (r: Option<usize>)
    ensures
        match r {
            Some(i) => i < ds@.len() && domain_lookup(domain_views(ds@), p@) == Some(
                domain_views(ds@)[i as int].1,
            ),
            None => domain_lookup(domain_views(ds@), p@) is None,
        },
{
    let ghost dv = domain_views(ds@);
    let mut j: usize = ds.len();
    assert(dv.take(j as int) =~= dv);
    while j > 0
        invariant
            j <= ds@.len(),
            dv == domain_views(ds@),
            domain_lookup(dv, p@) == domain_lookup(dv.take(j as int), p@),
        decreases j,
    {
        let ghost t = dv.take(j as int);
        assert(t.last() == dv[j - 1]);
        if str_eq(ds[j - 1].0.as_str(), p) {
            return Some(j - 1);
        }
        assert(t.drop_last() =~= dv.take(j - 1));
        j = j - 1;
    }
    None
}

fn choice_in(d: &Vec<(String, String)>, shape: &str, transform: &str) -> (r: bool)
    ensures
        r == choice_views(d@).contains((shape@, transform@)),
{
    let ghost cv = choice_views(d@);
    let mut i: usize = 0;
    while i < d.len()
        invariant
            i <= d@.len(),
            cv == choice_views(d@),
            forall|k: int| 0 <= k < i ==> cv[k] != (shape@, transform@),
        decreases d@.len() - i,
    {
        if str_eq(d[i].0.as_str(), shape) && str_eq(d[i].1.as_str(), transform) {
            assert(cv[i as int] == (shape@, transform@));
            return true;
        }
        i = i + 1;
    }
    false
}

fn rooms_contain(rooms: &Vec<CatalogGenerationTraceRoomPlacement>, p: &str) -> (r: bool)
    ensures
        r == rooms_has(views(rooms@), p@),
{
    let ghost rv = views(rooms@);
    let mut i: usize = 0;
    while i < rooms.len()
        invariant
            i <= rooms@.len(),
            rv == views(rooms@),
            forall|k: int| 0 <= k < i ==> rv[k].piece_id != p@,
        decreases rooms@.len() - i,
    {
        if str_eq(rooms[i].piece_id.as_str(), p) {
            assert(rv[i as int].piece_id == p@);
            return true;
        }
        i = i + 1;
    }
    false
}

fn find_route(routes: &Vec<CatalogGenerationTraceRoute>, s: &str) -> (r: Option<usize>)
    ensures
        route_index(views(routes@), s@) == (match r {
            Some(i) => Some(i as int),
            None => None::<int>,
        }),
        r matches Some(i) ==> i < routes@.len(),
{
    let ghost rv = views(routes@);
    let mut j: usize = routes.len();
    assert(rv.take(j as int) =~= rv);
    while j > 0
        invariant
            j <= routes@.len(),
            rv == views(routes@),
            route_index(rv, s@) == route_index(rv.take(j as int), s@),
        decreases j,
    {
        let ghost t = rv.take(j as int);
        assert(t.last() == rv[j - 1]);
        if str_eq(routes[j - 1].section_id.as_str(), s) {
            return Some(j - 1);
        }
        assert(t.drop_last() =~= rv.take(j - 1));
        j = j - 1;
    }
    None
}

fn copy_cells(v: &Vec<GridCell>) -> (r: Vec<GridCell>)
    ensures
        r@ == v@,
{
    let mut r: Vec<GridCell> = Vec::new();
    let mut i: usize = 0;
    while i < v.len()
        invariant
            i <= v@.len(),
            r@ == v@.take(i as int),
        decreases v@.len() - i,
    {
        r.push(v[i]);
        i = i + 1;
        assert(r@ =~= v@.take(i as int));
    }
    assert(v@.take(i as int) =~= v@);
    r
}

fn copy_placement(p: &CatalogGenerationTraceRoomPlacement) -> (r: CatalogGenerationTraceRoomPlacement)
    ensures
        r@ == p@,
{
    CatalogGenerationTraceRoomPlacement {
        piece_id: owned(p.piece_id.as_str()),
        requirement_kind: owned(p.requirement_kind.as_str()),
        shape_id: owned(p.shape_id.as_str()),
        transform: owned(p.transform.as_str()),
        origin: p.origin,
        occupied_cells: copy_cells(&p.occupied_cells),
        reserved_cells: copy_cells(&p.reserved_cells),
    }
}

fn copy_route(p: &CatalogGenerationTraceRoute) -> (r: CatalogGenerationTraceRoute)
    ensures
        r@ == p@,
{
    CatalogGenerationTraceRoute {
        section_id: owned(p.section_id.as_str()),
        cells: copy_cells(&p.cells),
        states_visited: p.states_visited,
    }
}

fn copy_rooms(v: &Vec<CatalogGenerationTraceRoomPlacement>) -> (r: Vec<CatalogGenerationTraceRoomPlacement>)
    ensures
        views(r@) == views(v@),
{
    let mut r: Vec<CatalogGenerationTraceRoomPlacement> = Vec::new();
    let mut i: usize = 0;
    while i < v.len()
        invariant
            i <= v@.len(),
            views(r@) == views(v@).take(i as int),
        decreases v@.len() - i,
    {
        let x = copy_placement(&v[i]);
        let ghost prev = views(r@);
        r.push(x);
        assert(views(r@) =~= prev.push(x@));
        i = i + 1;
        assert(views(r@) =~= views(v@).take(i as int));
    }
    assert(views(v@).take(i as int) =~= views(v@));
    r
}

fn copy_routes(v: &Vec<CatalogGenerationTraceRoute>) -> (r: Vec<CatalogGenerationTraceRoute>)
    ensures
        views(r@) == views(v@),
{
    let mut r: Vec<CatalogGenerationTraceRoute> = Vec::new();
    let mut i: usize = 0;
    while i < v.len()
        invariant
            i <= v@.len(),
            views(r@) == views(v@).take(i as int),
        decreases v@.len() - i,
    {
        let x = copy_route(&v[i]);
        let ghost prev = views(r@);
        r.push(x);
        assert(views(r@) =~= prev.push(x@));
        i = i + 1;
        assert(views(r@) =~= views(v@).take(i as int));
    }
    assert(views(v@).take(i as int) =~= views(v@));
    r
}

fn candidate_domain(cs: &Vec<crate::catalog_trace::CatalogGenerationTraceRoomCandidate>) -> (r: Vec<(String, String)>)
    ensures
        choice_views(r@) == candidate_choices(cs@),
{
    let mut r: Vec<(String, String)> = Vec::new();
    let mut i: usize = 0;
    while i < cs.len()
        invariant
            i <= cs@.len(),
            choice_views(r@) == candidate_choices(cs@).take(i as int),
        decreases cs@.len() - i,
    {
        let x = (owned(cs[i].shape_id.as_str()), owned(cs[i].transform.as_str()));
        let ghost prev = choice_views(r@);
        r.push(x);
        assert(choice_views(r@) =~= prev.push((x.0@, x.1@)));
        i = i + 1;
        assert(choice_views(r@) =~= candidate_choices(cs@).take(i as int));
    }
    assert(candidate_choices(cs@).take(i as int) =~= candidate_choices(cs@));
    r
}


fn cells_equal(a: &Vec<GridCell>, b: &Vec<GridCell>) -> (r: bool)
    ensures
        r == (a@ == b@),
{
    if a.len() != b.len() {
        return false;
    }
    let mut i: usize = 0;
    while i < a.len()
        invariant
            a@.len() == b@.len(),
            i <= a@.len(),
            forall|k: int| 0 <= k < i ==> a@[k] == b@[k],
        decreases a@.len() - i,
    {
        if a[i] != b[i] {
            assert(a@[i as int] != b@[i as int]);
            return false;
        }
        i = i + 1;
    }
    assert(a@ =~= b@);
    true
}

fn placement_equal(a: &CatalogGenerationTraceRoomPlacement, b: &CatalogGenerationTraceRoomPlacement) -> (r: bool)
    ensures
        r == (a@ == b@),
{
    let r = str_eq(a.piece_id.as_str(), b.piece_id.as_str()) && str_eq(
        a.requirement_kind.as_str(),
        b.requirement_kind.as_str(),
    ) && str_eq(a.shape_id.as_str(), b.shape_id.as_str()) && str_eq(a.transform.as_str(), b.transform.as_str())
        && a.origin == b.origin && cells_equal(&a.occupied_cells, &b.occupied_cells) && cells_equal(
        &a.reserved_cells,
        &b.reserved_cells,
    );
    proof {
        if r {
            assert(a@ =~= b@);
        }
    }
    r
}

fn find_room_instance(insts: &Vec<CatalogGenerationTraceRoomPlacement>, p: &str) -> (r: Option<usize>)
    ensures
        last_room_instance(views(insts@), p@) == (match r {
            Some(i) => Some(views(insts@)[i as int]),
            None => None::<PlacementView>,
        }),
        r matches Some(i) ==> i < insts@.len(),
{
    let ghost iv = views(insts@);
    let mut j: usize = insts.len();
    assert(iv.take(j as int) =~= iv);
    while j > 0
        invariant
            j <= insts@.len(),
            iv == views(insts@),
            last_room_instance(iv, p@) == last_room_instance(iv.take(j as int), p@),
        decreases j,
    {
        let ghost t = iv.take(j as int);
        assert(t.last() == iv[j - 1]);
        if is_catalog_room_kind(insts[j - 1].requirement_kind.as_str()) && str_eq(
            insts[j - 1].piece_id.as_str(),
            p,
        ) {
            return Some(j - 1);
        }
        assert(t.drop_last() =~= iv.take(j - 1));
        j = j - 1;
    }
    None
}

fn rooms_match_exec(
    rooms: &Vec<CatalogGenerationTraceRoomPlacement>,
    insts: &Vec<CatalogGenerationTraceRoomPlacement>,
) -> (r: bool)
    ensures
        r == rooms_match(views(rooms@), views(insts@)),
{
    let ghost rv = views(rooms@);
    let ghost iv = views(insts@);
    let mut i: usize = 0;
    while i < rooms.len()
        invariant
            i <= rooms@.len(),
            rv == views(rooms@),
            iv == views(insts@),
            forall|k: int| 0 <= k < i ==> last_room_instance(iv, (#[trigger] rv[k]).piece_id) == Some(rv[k]),
        decreases rooms@.len() - i,
    {
        match find_room_instance(insts, rooms[i].piece_id.as_str()) {
            None => {
                assert(last_room_instance(iv, rv[i as int].piece_id) != Some(rv[i as int]));
                return false;
            },
            Some(k) => {
                if !placement_equal(&insts[k], &rooms[i]) {
                    assert(last_room_instance(iv, rv[i as int].piece_id) != Some(rv[i as int]));
                    return false;
                }
            },
        }
        i = i + 1;
    }
    let mut j: usize = 0;
    while j < insts.len()
        invariant
            j <= insts@.len(),
            rv == views(rooms@),
            iv == views(insts@),
            forall|k: int| 0 <= k < rv.len() ==> last_room_instance(iv, (#[trigger] rv[k]).piece_id) == Some(rv[k]),
            forall|k: int|
                0 <= k < j && catalog_room_kind((#[trigger] iv[k]).requirement_kind) ==> rooms_has(
                    rv,
                    iv[k].piece_id,
                ),
        decreases insts@.len() - j,
    {
        if is_catalog_room_kind(insts[j].requirement_kind.as_str()) && !rooms_contain(
            rooms,
            insts[j].piece_id.as_str(),
        ) {
            assert(catalog_room_kind(iv[j as int].requirement_kind) && !rooms_has(rv, iv[j as int].piece_id));
            return false;
        }
        j = j + 1;
    }
    true
}

fn sections_match_exec(routes: &Vec<CatalogGenerationTraceRoute>, links: &Vec<String>) -> (r: bool)
    ensures
        r == sections_match(views(routes@), texts(links@)),
{
    let ghost rv = views(routes@);
    let ghost lv = texts(links@);
    let mut i: usize = 0;
    while i < routes.len()
        invariant
            i <= routes@.len(),
            rv == views(routes@),
            lv == texts(links@),
            forall|k: int| 0 <= k < i ==> lv.contains((#[trigger] rv[k]).section_id),
        decreases routes@.len() - i,
    {
        if !texts_contain(links, routes[i].section_id.as_str()) {
            assert(!lv.contains(rv[i as int].section_id));
            return false;
        }
        i = i + 1;
    }
    let mut j: usize = 0;
    while j < links.len()
        invariant
            j <= links@.len(),
            rv == views(routes@),
            lv == texts(links@),
            forall|k: int| 0 <= k < rv.len() ==> lv.contains((#[trigger] rv[k]).section_id),
            forall|m: int| 0 <= m < j ==> route_index(rv, #[trigger] lv[m]) is Some,
        decreases links@.len() - j,
    {
        let found = find_route(routes, links[j].as_str());
        if found.is_none() {
            assert(route_index(rv, lv[j as int]) is None);
            return false;
        }
        j = j + 1;
    }
    true
}

fn grid_px_exec(v: i32) -> (r: i64)
    ensures
        r == grid_px(v),
{
    let p: i64 = (v as i64) * 8;
    if p > i32::MAX as i64 {
        i32::MAX as i64
    } else if p < i32::MIN as i64 {
        i32::MIN as i64
    } else {
        p
    }
}

fn segment_has_exec(a: GeometryPoint, b: GeometryPoint, x: i64, y: i64) -> (r: bool)
    ensures
        r == segment_has(a, b, x as int, y as int),
{
    if a.x == b.x && x == a.x as i64 {
        let lo: i32 = if a.y < b.y { a.y } else { b.y };
        let hi: i32 = if a.y > b.y { a.y } else { b.y };
        lo as i64 <= y && y <= hi as i64
    } else if a.y == b.y && y == a.y as i64 {
        let lo: i32 = if a.x < b.x { a.x } else { b.x };
        let hi: i32 = if a.x > b.x { a.x } else { b.x };
        lo as i64 <= x && x <= hi as i64
    } else {
        false
    }
}

fn corridor_has_cell_exec(ps: &Vec<GeometryPoint>, c: GridCell) -> (r: bool)
    ensures
        r == corridor_has_cell(ps@, c),
{
    let x = grid_px_exec(c.x);
    let y = grid_px_exec(c.y);
    if ps.len() < 2 {
        return false;
    }
    let mut k: usize = 0;
    while k < ps.len() - 1
        invariant
            ps@.len() >= 2,
            k + 1 <= ps@.len(),
            x == grid_px(c.x),
            y == grid_px(c.y),
            forall|m: int| 0 <= m < k ==> !#[trigger] segment_has(ps@[m], ps@[m + 1], grid_px(c.x), grid_px(c.y)),
        decreases ps@.len() - k,
    {
        if segment_has_exec(ps[k], ps[k + 1], x, y) {
            assert(segment_has(ps@[k as int], ps@[k + 1], grid_px(c.x), grid_px(c.y)));
            return true;
        }
        k = k + 1;
    }
    false
}

fn find_corridor(cs: &Vec<GeometryCorridor>, s: &str) -> (r: Option<usize>)
    ensures
        corridor_from(cs@, s@, 0) == (match r {
            Some(k) => Some(cs@[k as int]),
            None => None::<GeometryCorridor>,
        }),
        r matches Some(k) ==> k < cs@.len(),
{
    let mut k: usize = 0;
    while k < cs.len()
        invariant
            k <= cs@.len(),
            corridor_from(cs@, s@, 0) == corridor_from(cs@, s@, k as int),
        decreases cs@.len() - k,
    {
        if str_eq(cs[k].physical_section.as_str(), s) {
            return Some(k);
        }
        k = k + 1;
    }
    None
}

fn routes_check_exec(routes: &Vec<CatalogGenerationTraceRoute>, cs: &Vec<GeometryCorridor>) -> (r: Option<
    CatalogGenerationTraceError,
>)
    ensures
        routes_check(views(routes@), cs@, 0) == (match r {
            Some(e) => Some(e@),
            None => None::<TraceErrorView>,
        }),
{
    let ghost rv = views(routes@);
    let mut i: usize = 0;
    while i < routes.len()
        invariant
            i <= routes@.len(),
            rv == views(routes@),
            routes_check(rv, cs@, 0) == routes_check(rv, cs@, i as int),
        decreases routes@.len() - i,
    {
        let sid = routes[i].section_id.as_str();
        assert(sid@ == rv[i as int].section_id);
        match find_corridor(cs, sid) {
            None => {
                return Some(fail("trace_selected_route_missing", msg_pair("selected geometry has no corridor for ", sid)));
            },
            Some(k) => {
                let cells = &routes[i].cells;
                let mut j: usize = 0;
                while j < cells.len()
                    invariant
                        j <= cells@.len(),
                        k < cs@.len(),
                        i < routes@.len(),
                        rv == views(routes@),
                        routes_check(rv, cs@, 0) == routes_check(rv, cs@, i as int),
                        corridor_from(cs@, rv[i as int].section_id, 0) == Some(cs@[k as int]),
                        sid@ == rv[i as int].section_id,
                        cells@ == rv[i as int].cells,
                        forall|m: int| 0 <= m < j ==> corridor_has_cell(cs@[k as int].points@, #[trigger] cells@[m]),
                    decreases cells@.len() - j,
                {
                    if !corridor_has_cell_exec(&cs[k].points, cells[j]) {
                        assert(!corridor_has_cell(cs@[k as int].points@, rv[i as int].cells[j as int]));
                        return Some(
                            fail(
                                "trace_selected_route_mismatch",
                                msg_text("replayed route ", sid, " leaves the selected geometry corridor"),
                            ),
                        );
                    }
                    j = j + 1;
                }
            },
        }
        i = i + 1;
    }
    None
}

fn check_evidence(
    ev: &Option<ReplayStageEvidence>,
    missing: &str,
    stage: &str,
    ok: bool,
    subject_hash: &str,
    codes: &Vec<String>,
) -> (r: Option<CatalogGenerationTraceError>)
    ensures
        (match r {
            Some(e) => Some(e@),
            None => None::<TraceErrorView>,
        }) == (match *ev {
            None => Some(plain_error("trace_selected_validation_missing"@, missing@)),
            Some(ev) => if ok != ev.ok || subject_hash@ != ev.subject_hash@ || texts(codes@) != texts(
                ev.diagnostic_codes@,
            ) {
                Some(
                    plain_error(
                        "trace_selected_validation_mismatch"@,
                        "trace "@ + stage@ + " evidence does not match the selected result"@,
                    ),
                )
            } else {
                None
            },
        }),
{
    match ev {
        None => Some(fail("trace_selected_validation_missing", owned(missing))),
        Some(ev) => {
            if ok != ev.ok || !str_eq(subject_hash, ev.subject_hash.as_str()) || !texts_equal(
                codes,
                &ev.diagnostic_codes,
            ) {
                Some(
                    fail(
                        "trace_selected_validation_mismatch",
                        msg_text("trace ", stage, " evidence does not match the selected result"),
                    ),
                )
            } else {
                None
            }
        },
    }
}

fn check_stage(
    stage: &str,
    ok: bool,
    subject_hash: &str,
    codes: &Vec<String>,
    res: &CatalogReplayResult,
) -> (r: Option<CatalogGenerationTraceError>)
    ensures
        (match r {
            Some(e) => Some(e@),
            None => None::<TraceErrorView>,
        }) == stage_check(stage@, ok, subject_hash@, texts(codes@), *res),
{
    if str_eq(stage, "geometry_validation") {
        check_evidence(
            &res.geometry_validation,
            "selected result has no geometry validation",
            stage,
            ok,
            subject_hash,
            codes,
        )
    } else if str_eq(stage, "placement_validation") {
        check_evidence(
            &res.placement_validation,
            "selected result has no placement validation",
            stage,
            ok,
            subject_hash,
            codes,
        )
    } else if str_eq(stage, "built_flow_validation") {
        check_evidence(
            &res.built_flow_validation,
            "selected result has no built-flow validation",
            stage,
            ok,
            subject_hash,
            codes,
        )
    } else {
        Some(
            fail(
                "trace_validation_stage_invalid",
                msg_pair("selected result trace has unknown validation stage ", stage),
            ),
        )
    }
}


impl CatalogGenerationReplayMachine {
    /// A machine before the first event.
    pub fn new() -> (r: Self)
        ensures
            r@ == replay_start(),
    {
        let r = CatalogGenerationReplayMachine {
            attempt: None,
            domains: Vec::new(),
            rooms: Vec::new(),
            routes: Vec::new(),
            routing_states: 0,
            pending_sections: Vec::new(),
            next_attempt: 0,
            input_bound: false,
            run_finished: false,
            completed_attempt: None,
        };
        assert(r@ =~= replay_start());
        r
    }

    fn visible(&self, res: &CatalogReplayResult) -> (r: Option<CatalogGenerationTraceError>)
        ensures
            opt_error(r) == visible_check(self@, *res),
    {
        match &res.placement_instances {
            None => {
                return Some(fail("trace_selected_placement_missing", owned("successful result has no piece placement")));
            },
            Some(insts) => {
                if !rooms_match_exec(&self.rooms, insts) {
                    return Some(
                        fail(
                            "trace_selected_rooms_mismatch",
                            owned("replayed room placements do not match the selected result"),
                        ),
                    );
                }
            },
        }
        match &res.plan_link_sections {
            None => {
                return Some(fail("trace_selected_plan_missing", owned("successful result has no piece plan")));
            },
            Some(links) => {
                if !sections_match_exec(&self.routes, links) {
                    return Some(
                        fail(
                            "trace_selected_sections_mismatch",
                            owned("replayed routed sections do not match the selected result"),
                        ),
                    );
                }
            },
        }
        match &res.geometry_corridors {
            None => Some(fail("trace_selected_geometry_missing", owned("successful result has no geometry"))),
            Some(cs) => routes_check_exec(&self.routes, cs),
        }
    }

    fn active_attempt(&self, event: &CatalogGenerationTraceEvent) -> (r: Result<u32, CatalogGenerationTraceError>)
        ensures
            match r {
                Ok(a) => current_attempt(self@, *event) == Ok::<u32, TraceErrorView>(a),
                Err(e) => current_attempt(self@, *event) == Err::<u32, TraceErrorView>(e@),
            },
    {
        match self.attempt {
            None => Err(fail("trace_attempt_not_active", msg_num("event ", event.index, " has no active attempt"))),
            Some(a) => {
                let names = match event.attempt {
                    Some(b) => b == a,
                    None => false,
                };
                if !names {
                    let mut s = owned("event ");
                    push_dec_text(&mut s, event.index as u64);
                    s.append(" does not name active attempt ");
                    push_dec_text(&mut s, a as u64);
                    Err(fail("trace_attempt_mismatch", s))
                } else {
                    Ok(a)
                }
            },
        }
    }

    fn step_input(
        &mut self,
        event: &CatalogGenerationTraceEvent,
        result: &CatalogReplayResult,
        expected: &CatalogGenerationTraceInputHashes,
    ) -> (r: Result<(), CatalogGenerationTraceError>)
        requires
            !old(self)@.run_finished,
            event.body is InputBound,
        ensures
            final(self)@ == replay_step(old(self)@, *event, *result, *expected).0,
            unit_view(r) == replay_step(old(self)@, *event, *result, *expected).1,
    {
        match &event.body {
            CatalogGenerationTraceEventBody::InputBound { input_hashes } => {
                if event.index != 0 || event.attempt.is_some() || self.input_bound || !hashes_equal(
                    input_hashes,
                    expected,
                ) {
                    return Err(
                        fail(
                            "trace_input_event_invalid",
                            owned("input binding must be the unique first run-level event"),
                        ),
                    );
                }
                self.input_bound = true;
                Ok(())
            },
            _ => Ok(()),
        }
    }

    fn step_attempt_started(
        &mut self,
        event: &CatalogGenerationTraceEvent,
        result: &CatalogReplayResult,
        expected: &CatalogGenerationTraceInputHashes,
    ) -> (r: Result<(), CatalogGenerationTraceError>)
        requires
            !old(self)@.run_finished,
            event.body is AttemptStarted,
        ensures
            final(self)@ == replay_step(old(self)@, *event, *result, *expected).0,
            unit_view(r) == replay_step(old(self)@, *event, *result, *expected).1,
    {
        if !self.input_bound {
            return Err(fail("trace_input_event_missing", msg_num("event ", event.index, " precedes input binding")));
        }
        match event.attempt {
            None => Err(fail("trace_attempt_missing", owned("attempt-start event has no attempt"))),
            Some(a) => {
                if self.attempt.is_some() || a != self.next_attempt {
                    return Err(
                        fail(
                            "trace_attempt_order_invalid",
                            msg_num("attempt ", a, " is not the next expected attempt"),
                        ),
                    );
                }
                self.attempt = Some(a);
                self.domains = Vec::new();
                self.rooms = Vec::new();
                self.routes = Vec::new();
                self.routing_states = 0;
                self.pending_sections = Vec::new();
                proof {
                    assert(domain_views(self.domains@) =~= Seq::empty());
                    assert(views(self.rooms@) =~= Seq::<PlacementView>::empty());
                    assert(views(self.routes@) =~= Seq::<RouteView>::empty());
                    assert(texts(self.pending_sections@) =~= Seq::<Seq<char>>::empty());
                }
                Ok(())
            },
        }
    }

    fn step_domain(
        &mut self,
        event: &CatalogGenerationTraceEvent,
        result: &CatalogReplayResult,
        expected: &CatalogGenerationTraceInputHashes,
    ) -> (r: Result<(), CatalogGenerationTraceError>)
        requires
            !old(self)@.run_finished,
            event.body is RoomDomainEvaluated,
        ensures
            final(self)@ == replay_step(old(self)@, *event, *result, *expected).0,
            unit_view(r) == replay_step(old(self)@, *event, *result, *expected).1,
    {
        match self.active_attempt(event) {
            Err(e) => {
                return Err(e);
            },
            Ok(_) => {},
        }
        match &event.body {
            CatalogGenerationTraceEventBody::RoomDomainEvaluated { piece_id, candidates, .. } => {
                if find_domain(&self.domains, piece_id.as_str()).is_some() {
                    return Err(
                        fail(
                            "trace_room_domain_duplicate",
                            msg_text("room ", piece_id.as_str(), " has more than one domain event"),
                        ),
                    );
                }
                let d = candidate_domain(candidates);
                let ghost prev = domain_views(self.domains@);
                self.domains.push((owned(piece_id.as_str()), d));
                assert(domain_views(self.domains@) =~= prev.push((piece_id@, candidate_choices(candidates@))));
                Ok(())
            },
            _ => Ok(()),
        }
    }

    fn step_room_placed(
        &mut self,
        event: &CatalogGenerationTraceEvent,
        result: &CatalogReplayResult,
        expected: &CatalogGenerationTraceInputHashes,
    ) -> (r: Result<(), CatalogGenerationTraceError>)
        requires
            !old(self)@.run_finished,
            event.body is RoomPlaced,
        ensures
            final(self)@ == replay_step(old(self)@, *event, *result, *expected).0,
            unit_view(r) == replay_step(old(self)@, *event, *result, *expected).1,
    {
        match self.active_attempt(event) {
            Err(e) => {
                return Err(e);
            },
            Ok(_) => {},
        }
        match &event.body {
            CatalogGenerationTraceEventBody::RoomPlaced { placement } => {
                let pid = placement.piece_id.as_str();
                let inside = match find_domain(&self.domains, pid) {
                    None => false,
                    Some(i) => choice_in(&self.domains[i].1, placement.shape_id.as_str(), placement.transform.as_str()),
                };
                if !inside {
                    return Err(
                        fail(
                            "trace_room_choice_outside_domain",
                            msg_text("room ", pid, " placement is absent from its recorded domain"),
                        ),
                    );
                }
                if rooms_contain(&self.rooms, pid) {
                    return Err(fail("trace_room_duplicate", msg_text("room ", pid, " is placed twice")));
                }
                insert_keyed(&mut self.rooms, copy_placement(placement));
                Ok(())
            },
            _ => Ok(()),
        }
    }

    fn step_conflict(
        &mut self,
        event: &CatalogGenerationTraceEvent,
        result: &CatalogReplayResult,
        expected: &CatalogGenerationTraceInputHashes,
    ) -> (r: Result<(), CatalogGenerationTraceError>)
        requires
            !old(self)@.run_finished,
            event.body is RoomConflict,
        ensures
            final(self)@ == replay_step(old(self)@, *event, *result, *expected).0,
            unit_view(r) == replay_step(old(self)@, *event, *result, *expected).1,
    {
        match self.active_attempt(event) {
            Err(e) => {
                return Err(e);
            },
            Ok(_) => {},
        }
        match &event.body {
            CatalogGenerationTraceEventBody::RoomConflict { piece_id, conflicting_cells } => {
                if conflicting_cells.len() == 0 || find_domain(&self.domains, piece_id.as_str()).is_none() {
                    return Err(
                        fail(
                            "trace_room_conflict_invalid",
                            msg_text("room ", piece_id.as_str(), " conflict has no domain or cells"),
                        ),
                    );
                }
                Ok(())
            },
            _ => Ok(()),
        }
    }

    fn step_section_started(
        &mut self,
        event: &CatalogGenerationTraceEvent,
        result: &CatalogReplayResult,
        expected: &CatalogGenerationTraceInputHashes,
    ) -> (r: Result<(), CatalogGenerationTraceError>)
        requires
            !old(self)@.run_finished,
            event.body is SectionRoutingStarted,
        ensures
            final(self)@ == replay_step(old(self)@, *event, *result, *expected).0,
            unit_view(r) == replay_step(old(self)@, *event, *result, *expected).1,
    {
        match self.active_attempt(event) {
            Err(e) => {
                return Err(e);
            },
            Ok(_) => {},
        }
        match &event.body {
            CatalogGenerationTraceEventBody::SectionRoutingStarted { section_id, .. } => {
                let sid = section_id.as_str();
                if texts_contain(&self.pending_sections, sid) || find_route(&self.routes, sid).is_some() {
                    return Err(
                        fail("trace_section_start_duplicate", msg_text("section ", sid, " starts more than once")),
                    );
                }
                let ghost prev = texts(self.pending_sections@);
                self.pending_sections.push(owned(sid));
                assert(texts(self.pending_sections@) =~= prev.push(section_id@));
                Ok(())
            },
            _ => Ok(()),
        }
    }

    fn step_section_finished(
        &mut self,
        event: &CatalogGenerationTraceEvent,
        result: &CatalogReplayResult,
        expected: &CatalogGenerationTraceInputHashes,
    ) -> (r: Result<(), CatalogGenerationTraceError>)
        requires
            !old(self)@.run_finished,
            event.body is SectionRoutingFinished,
        ensures
            final(self)@ == replay_step(old(self)@, *event, *result, *expected).0,
            unit_view(r) == replay_step(old(self)@, *event, *result, *expected).1,
    {
        match self.active_attempt(event) {
            Err(e) => {
                return Err(e);
            },
            Ok(_) => {},
        }
        match &event.body {
            CatalogGenerationTraceEventBody::SectionRoutingFinished { section_id, status, cells, states_visited } => {
                let sid = section_id.as_str();
                match find_text(&self.pending_sections, sid) {
                    None => Err(
                        fail(
                            "trace_section_finish_without_start",
                            msg_text("section ", sid, " finishes without a start"),
                        ),
                    ),
                    Some(j) => {
                        let found = str_eq(status.as_str(), "found") && cells.len() > 0;
                        let quiet = (str_eq(status.as_str(), "no_path") || str_eq(
                            status.as_str(),
                            "budget_exhausted",
                        )) && cells.len() == 0;
                        if !found && !quiet {
                            return Err(
                                fail(
                                    "trace_section_status_invalid",
                                    msg_text("section ", sid, " has invalid status/cells"),
                                ),
                            );
                        }
                        let ghost prev = texts(self.pending_sections@);
                        let _gone = self.pending_sections.remove(j);
                        assert(texts(self.pending_sections@) =~= prev.remove(j as int));
                        self.routing_states = self.routing_states.saturating_add(*states_visited);
                        if found {
                            let route = CatalogGenerationTraceRoute {
                                section_id: owned(sid),
                                cells: copy_cells(cells),
                                states_visited: *states_visited,
                            };
                            match find_route(&self.routes, sid) {
                                Some(i) => {
                                    let ghost before = views(self.routes@);
                                    self.routes.set(i, route);
                                    assert(views(self.routes@) =~= before.update(i as int, route@));
                                },
                                None => {
                                    insert_keyed(&mut self.routes, route);
                                },
                            }
                        }
                        Ok(())
                    },
                }
            },
            _ => Ok(()),
        }
    }

    fn step_validation(
        &mut self,
        event: &CatalogGenerationTraceEvent,
        result: &CatalogReplayResult,
        expected: &CatalogGenerationTraceInputHashes,
    ) -> (r: Result<(), CatalogGenerationTraceError>)
        requires
            !old(self)@.run_finished,
            event.body is ValidationCompleted,
        ensures
            final(self)@ == replay_step(old(self)@, *event, *result, *expected).0,
            unit_view(r) == replay_step(old(self)@, *event, *result, *expected).1,
    {
        let a = match self.active_attempt(event) {
            Err(e) => {
                return Err(e);
            },
            Ok(a) => a,
        };
        match &event.body {
            CatalogGenerationTraceEventBody::ValidationCompleted { stage, ok, subject_hash, diagnostic_codes } => {
                let selected = match result.selected_attempt {
                    Some(s) => s == a,
                    None => false,
                };
                if selected {
                    match check_stage(stage.as_str(), *ok, subject_hash.as_str(), diagnostic_codes, result) {
                        Some(e) => Err(e),
                        None => Ok(()),
                    }
                } else {
                    Ok(())
                }
            },
            _ => Ok(()),
        }
    }

    fn step_attempt_finished(
        &mut self,
        event: &CatalogGenerationTraceEvent,
        result: &CatalogReplayResult,
        expected: &CatalogGenerationTraceInputHashes,
    ) -> (r: Result<(), CatalogGenerationTraceError>)
        requires
            !old(self)@.run_finished,
            event.body is AttemptFinished,
        ensures
            final(self)@ == replay_step(old(self)@, *event, *result, *expected).0,
            unit_view(r) == replay_step(old(self)@, *event, *result, *expected).1,
    {
        let a = match self.active_attempt(event) {
            Err(e) => {
                return Err(e);
            },
            Ok(a) => a,
        };
        match &event.body {
            CatalogGenerationTraceEventBody::AttemptFinished {
                classification,
                stage,
                detail,
                rooms_placed,
                sections_routed,
                routing_states,
            } => {
                if self.pending_sections.len() > 0 {
                    return Err(
                        fail("trace_section_unfinished", msg_num("attempt ", a, " finishes with a pending section")),
                    );
                }
                if a as usize >= result.attempts.len() {
                    let mut m = owned("result contains no attempt evidence for ");
                    push_dec_text(&mut m, a as u64);
                    return Err(fail("trace_attempt_missing_from_result", m));
                }
                let ex = &result.attempts[a as usize];
                if !(str_eq(ex.classification.as_str(), classification.as_str()) && str_eq(
                    ex.stage.as_str(),
                    stage.as_str(),
                ) && str_eq(ex.detail.as_str(), detail.as_str()) && ex.rooms_placed == *rooms_placed
                    && ex.sections_routed == *sections_routed && ex.routing_states == *routing_states) {
                    return Err(
                        fail(
                            "trace_attempt_evidence_mismatch",
                            msg_num("attempt ", a, " evidence does not match the result"),
                        ),
                    );
                }
                if self.rooms.len() != *rooms_placed || self.routes.len() != *sections_routed
                    || self.routing_states != *routing_states {
                    return Err(
                        fail(
                            "trace_attempt_state_mismatch",
                            msg_num("attempt ", a, " visible state does not match its metrics"),
                        ),
                    );
                }
                if str_eq(classification.as_str(), "success") {
                    match self.visible(result) {
                        Some(e) => {
                            return Err(e);
                        },
                        None => {},
                    }
                }
                if self.next_attempt == u32::MAX {
                    return Err(fail("trace_attempt_count_overflow", owned("trace attempt count overflowed")));
                }
                let done = CatalogGenerationReplayAttempt {
                    attempt: a,
                    rooms: copy_rooms(&self.rooms),
                    routes: copy_routes(&self.routes),
                    classification: owned(classification.as_str()),
                };
                self.completed_attempt = Some(done);
                self.attempt = None;
                self.next_attempt = self.next_attempt + 1;
                Ok(())
            },
            _ => Ok(()),
        }
    }

    fn step_run_finished(
        &mut self,
        event: &CatalogGenerationTraceEvent,
        result: &CatalogReplayResult,
        expected: &CatalogGenerationTraceInputHashes,
    ) -> (r: Result<(), CatalogGenerationTraceError>)
        requires
            !old(self)@.run_finished,
            event.body is RunFinished,
        ensures
            final(self)@ == replay_step(old(self)@, *event, *result, *expected).0,
            unit_view(r) == replay_step(old(self)@, *event, *result, *expected).1,
    {
        if !self.input_bound {
            return Err(fail("trace_input_event_missing", msg_num("event ", event.index, " precedes input binding")));
        }
        if event.attempt.is_some() || self.attempt.is_some() {
            return Err(
                fail(
                    "trace_run_finish_invalid",
                    owned("run-finished event must be run-level and follow a completed attempt"),
                ),
            );
        }
        match &event.body {
            CatalogGenerationTraceEventBody::RunFinished { selected_attempt, classification, reason, output_hash } => {
                let fc = match &result.final_classification {
                    Some(c) => Some(owned(c.as_str())),
                    None => None,
                };
                let sel = match catalog_generation_trace_selection(result.ok, result.selected_attempt, fc) {
                    Err(e) => {
                        return Err(e);
                    },
                    Ok(sel) => sel,
                };
                let same_attempt = match (*selected_attempt, sel.selected_attempt) {
                    (Some(x), Some(y)) => x == y,
                    (None, None) => true,
                    _ => false,
                };
                if !same_attempt || !str_eq(classification.as_str(), sel.classification.as_str()) || !str_eq(
                    reason.as_str(),
                    sel.reason.as_str(),
                ) || !str_eq(output_hash.as_str(), result.output_hash.as_str()) {
                    return Err(
                        fail(
                            "trace_run_finish_mismatch",
                            owned("run-finished event does not match the generation result"),
                        ),
                    );
                }
                if self.next_attempt as usize != result.attempts.len() {
                    return Err(
                        fail(
                            "trace_attempt_count_mismatch",
                            owned("trace attempt count does not match the generation result"),
                        ),
                    );
                }
                self.run_finished = true;
                Ok(())
            },
            _ => Ok(()),
        }
    }

    /// Applies one trace event to the machine: the machine afterwards and
    /// the first defect that the event shows are those of `replay_step`.
    pub fn apply(
        &mut self,
        event: &CatalogGenerationTraceEvent,
        result: &CatalogReplayResult,
        expected: &CatalogGenerationTraceInputHashes,
    ) -> (r: Result<(), CatalogGenerationTraceError>)
        ensures
            final(self)@ == replay_step(old(self)@, *event, *result, *expected).0,
            unit_view(r) == replay_step(old(self)@, *event, *result, *expected).1,
    {
        if self.run_finished {
            return Err(
                fail(
                    "trace_event_after_run_finished",
                    msg_num("event ", event.index, " appears after run completion"),
                ),
            );
        }
        match &event.body {
            CatalogGenerationTraceEventBody::InputBound { .. } => self.step_input(event, result, expected),
            CatalogGenerationTraceEventBody::AttemptStarted { .. } => self.step_attempt_started(event, result, expected),
            CatalogGenerationTraceEventBody::RoomDomainEvaluated { .. } => self.step_domain(event, result, expected),
            CatalogGenerationTraceEventBody::RoomPlaced { .. } => self.step_room_placed(event, result, expected),
            CatalogGenerationTraceEventBody::RoomConflict { .. } => self.step_conflict(event, result, expected),
            CatalogGenerationTraceEventBody::SectionRoutingStarted { .. } => self.step_section_started(
                event,
                result,
                expected,
            ),
            CatalogGenerationTraceEventBody::SectionRoutingFinished { .. } => self.step_section_finished(
                event,
                result,
                expected,
            ),
            CatalogGenerationTraceEventBody::ValidationCompleted { .. } => self.step_validation(event, result, expected),
            CatalogGenerationTraceEventBody::AttemptFinished { .. } => self.step_attempt_finished(
                event,
                result,
                expected,
            ),
            CatalogGenerationTraceEventBody::RunFinished { .. } => self.step_run_finished(event, result, expected),
        }
    }

    /// Takes the attempt finished last out of the machine.
    pub fn take_completed_attempt(&mut self) -> (r: Option<CatalogGenerationReplayAttempt>)
        ensures
            opt_attempt(r) == old(self)@.completed_attempt,
            final(self)@ == (ReplayView { completed_attempt: None, ..old(self)@ }),
    {
        let r = self.completed_attempt.take();
        assert(self@ =~= (ReplayView { completed_attempt: None, ..old(self)@ }));
        r
    }
}


// ---------------------------------------------------------------------
// Replaying a whole trace
// ---------------------------------------------------------------------

/// The attempts a replay rebuilt, in the order they finished, and the
/// hashes that close the trace.
#[derive(Clone, Debug)]
pub struct CatalogGenerationReplay {
    pub attempts: Vec<CatalogGenerationReplayAttempt>,
    pub final_output_hash: String,
    pub final_event_hash: String,
}

#[verifier::ext_equal]
pub struct ReplayOutcomeView {
    pub attempts: Seq<AttemptView>,
    pub final_output_hash: Seq<char>,
    pub final_event_hash: Seq<char>,
}

impl View for CatalogGenerationReplay {
    type V = ReplayOutcomeView;

    open spec fn view(&self) -> ReplayOutcomeView {
        ReplayOutcomeView {
            attempts: views(self.attempts@),
            final_output_hash: self.final_output_hash@,
            final_event_hash: self.final_event_hash@,
        }
    }
}

/// What a trace is replayed against besides the result: the hashes of the
/// generation inputs, the effective generation policy, the seed and the
/// trace limits.
#[derive(Clone, Debug)]
pub struct CatalogGenerationTraceRequest {
    pub input_hashes: CatalogGenerationTraceInputHashes,
    pub generation_policy: CatalogAwareGenerationPolicy,
    pub seed: u64,
    pub trace_limits: CatalogGenerationTraceLimits,
}

/// Two generation policies agree in every field.
pub open spec fn same_policy(a: CatalogAwareGenerationPolicy, b: CatalogAwareGenerationPolicy) -> bool {
    &&& a.kind@ == b.kind@
    &&& a.schema_version == b.schema_version
    &&& a.max_generation_attempts == b.max_generation_attempts
    &&& a.initial_room_compaction_cells == b.initial_room_compaction_cells
    &&& a.room_compaction_growth_cells == b.room_compaction_growth_cells
    &&& a.max_room_candidates == b.max_room_candidates
    &&& a.max_routing_states_per_section == b.max_routing_states_per_section
    &&& a.route_margin_cells == b.route_margin_cells
    &&& a.guide_distance_weight == b.guide_distance_weight
    &&& a.turn_penalty == b.turn_penalty
    &&& a.outcome_constraints == b.outcome_constraints
    &&& a.outcome_preferences == b.outcome_preferences
}

fn policy_equal(a: &CatalogAwareGenerationPolicy, b: &CatalogAwareGenerationPolicy) -> (r: bool)
    ensures
        r == same_policy(*a, *b),
{
    str_eq(a.kind.as_str(), b.kind.as_str()) && a.schema_version == b.schema_version
        && a.max_generation_attempts == b.max_generation_attempts
        && a.initial_room_compaction_cells == b.initial_room_compaction_cells
        && a.room_compaction_growth_cells == b.room_compaction_growth_cells
        && a.max_room_candidates == b.max_room_candidates
        && a.max_routing_states_per_section == b.max_routing_states_per_section
        && a.route_margin_cells == b.route_margin_cells && a.guide_distance_weight == b.guide_distance_weight
        && a.turn_penalty == b.turn_penalty && a.outcome_constraints == b.outcome_constraints
        && a.outcome_preferences == b.outcome_preferences
}

/// The events from position `i` on, each checked against the hash chain
/// and then applied to the machine: the first defect, or the last hash,
/// the totals, the machine and the attempts finished so far.
pub open spec fn replay_run(
    es: Seq<CatalogGenerationTraceEvent>,
    i: int,
    previous: Seq<char>,
    bytes: int,
    visual: int,
    m: ReplayView,
    attempts: Seq<AttemptView>,
    res: CatalogReplayResult,
    expected: CatalogGenerationTraceInputHashes,
) -> Result<(Seq<char>, int, int, ReplayView, Seq<AttemptView>), TraceErrorView>
    decreases es.len() - i,
{
    if i < 0 || i >= es.len() {
        Ok((previous, bytes, visual, m, attempts))
    } else {
        match scan_step(es[i]@, i, previous, bytes, visual) {
            Err(x) => Err(x),
            Ok((b, v)) => {
                let (m2, r) = replay_step(m, es[i], res, expected);
                match r {
                    Err(x) => Err(x),
                    Ok(_) => {
                        let next = match m2.completed_attempt {
                            Some(a) => attempts.push(a),
                            None => attempts,
                        };
                        replay_run(
                            es,
                            i + 1,
                            es[i].event_hash@,
                            b,
                            v,
                            ReplayView { completed_attempt: None, ..m2 },
                            next,
                            res,
                            expected,
                        )
                    },
                }
            },
        }
    }
}

/// Whether the machine's attempt count agrees with the selected attempt.
pub open spec fn attempt_count_mismatch(selected: Option<u32>, next_attempt: u32) -> bool {
    match selected {
        Some(a) => a == u32::MAX || a + 1 != next_attempt,
        None => next_attempt == 0,
    }
}

/// The first way a replayed run is incomplete, if any.
pub open spec fn finish_check(
    m: ReplayView,
    es: Seq<CatalogGenerationTraceEvent>,
    selected: Option<u32>,
) -> Option<TraceErrorView> {
    if !m.input_bound || !m.run_finished {
        Some(
            plain_error(
                "trace_run_incomplete"@,
                "trace does not contain a complete input-to-result event sequence"@,
            ),
        )
    } else if es.len() == 0 || !(es.last().body is RunFinished) {
        Some(plain_error("trace_run_finish_not_last"@, "run-finished must be the final trace event"@))
    } else if attempt_count_mismatch(selected, m.next_attempt) {
        Some(
            plain_error(
                "trace_attempt_count_mismatch"@,
                "trace attempt count does not match selection evidence"@,
            ),
        )
    } else {
        None
    }
}

/// The replay of a trace against a generation result and the hashes of
/// the inputs it claims: the first defect, or what the replay rebuilt.
pub open spec fn replay_check(
    t: CatalogGenerationTrace,
    res: CatalogReplayResult,
    req: CatalogGenerationTraceRequest,
) -> Result<ReplayOutcomeView, TraceErrorView> {
    let es = t.events@;
    let expected = req.input_hashes;
    if t.kind@ != "rusty_procgen.catalog_generation_trace.v1"@ || t.schema_version != 1 {
        Err(plain_error("trace_schema_unsupported"@, "unsupported catalog generation trace schema"@))
    } else if trace_limits_check(t.limits) is Some {
        Err(trace_limits_check(t.limits)->Some_0)
    } else if req.trace_limits != t.limits || req.seed != t.seed {
        Err(
            plain_error(
                "trace_request_mismatch"@,
                "trace request seed or limits do not match the trace"@,
            ),
        )
    } else if hashes_view(t.input_hashes) != hashes_view(expected) {
        Err(
            plain_error(
                "trace_input_hash_mismatch"@,
                "trace input hashes do not match the supplied generation inputs"@,
            ),
        )
    } else if !same_policy(t.generation_policy, req.generation_policy) {
        Err(
            plain_error(
                "trace_policy_mismatch"@,
                "trace effective generation policy does not match the supplied policy"@,
            ),
        )
    } else if t.root_hash@ != root_hash_spec(t.seed, expected, req.generation_policy, t.limits) {
        Err(plain_error("trace_root_hash_mismatch"@, "trace root hash does not match its inputs and limits"@))
    } else if es.len() > u32::MAX {
        Err(plain_error("trace_event_count_overflow"@, "trace event count exceeds u32"@))
    } else if es.len() > t.limits.max_events {
        Err(
            TraceErrorView {
                code: "trace_event_quota_exceeded"@,
                detail: "trace event count exceeds its declared limit"@,
                observed: Some(es.len() as u64),
                limit: Some(t.limits.max_events as u64),
            },
        )
    } else {
        match replay_run(es, 0, t.root_hash@, 0, 0, replay_start(), Seq::empty(), res, expected) {
            Err(x) => Err(x),
            Ok((last, bytes, visual, m, attempts)) => if bytes != t.event_body_bytes || bytes
                > t.limits.max_event_body_bytes {
                Err(
                    TraceErrorView {
                        code: "trace_event_body_byte_mismatch"@,
                        detail: "trace event-body byte evidence is inconsistent or over limit"@,
                        observed: Some(bytes as u64),
                        limit: Some(t.limits.max_event_body_bytes),
                    },
                )
            } else if visual != t.visual_cell_count || visual > t.limits.max_visual_cells {
                Err(
                    TraceErrorView {
                        code: "trace_visual_cell_mismatch"@,
                        detail: "trace visual-cell evidence is inconsistent or over limit"@,
                        observed: Some(visual as u64),
                        limit: Some(t.limits.max_visual_cells),
                    },
                )
            } else if last != t.final_event_hash@ {
                Err(
                    plain_error(
                        "trace_final_event_hash_mismatch"@,
                        "trace final event hash does not close the event chain"@,
                    ),
                )
            } else if t.final_output_hash@ != res.output_hash@ {
                Err(
                    plain_error(
                        "trace_final_output_hash_mismatch"@,
                        "trace final output hash does not match the supplied result"@,
                    ),
                )
            } else {
                match selection_spec(res.ok, res.selected_attempt, opt_text(res.final_classification)) {
                    Err(x) => Err(x),
                    Ok(sel) => if t.selection@ != sel {
                        Err(
                            plain_error(
                                "trace_selection_mismatch"@,
                                "trace selection evidence does not match the generation result"@,
                            ),
                        )
                    } else {
                        match finish_check(m, es, sel.0) {
                            Some(x) => Err(x),
                            None => Ok(
                                ReplayOutcomeView {
                                    attempts,
                                    final_output_hash: res.output_hash@,
                                    final_event_hash: last,
                                },
                            ),
                        }
                    },
                }
            },
        }
    }
}

impl CatalogGenerationReplayMachine {
    fn finish(&self, events: &Vec<CatalogGenerationTraceEvent>, selected: Option<u32>) -> (r: Option<
        CatalogGenerationTraceError,
    >)
        ensures
            opt_error(r) == finish_check(self@, events@, selected),
    {
        if !self.input_bound || !self.run_finished {
            return Some(
                fail(
                    "trace_run_incomplete",
                    owned("trace does not contain a complete input-to-result event sequence"),
                ),
            );
        }
        let last_ok = events.len() > 0 && match &events[events.len() - 1].body {
            CatalogGenerationTraceEventBody::RunFinished { .. } => true,
            _ => false,
        };
        if !last_ok {
            return Some(fail("trace_run_finish_not_last", owned("run-finished must be the final trace event")));
        }
        let mismatch = match selected {
            Some(a) => a == u32::MAX || a + 1 != self.next_attempt,
            None => self.next_attempt == 0,
        };
        if mismatch {
            return Some(
                fail(
                    "trace_attempt_count_mismatch",
                    owned("trace attempt count does not match selection evidence"),
                ),
            );
        }
        None
    }
}

fn selection_equal(a: &CatalogGenerationTraceSelection, b: &CatalogGenerationTraceSelection) -> (r: bool)
    ensures
        r == (a@ == b@),
{
    let same_attempt = match (a.selected_attempt, b.selected_attempt) {
        (Some(x), Some(y)) => x == y,
        (None, None) => true,
        _ => false,
    };
    same_attempt && str_eq(a.classification.as_str(), b.classification.as_str()) && str_eq(
        a.reason.as_str(),
        b.reason.as_str(),
    )
}

/// Replays a catalog generation trace against a generation result and the
/// hashes of the inputs it claims to come from: its envelope, root hash,
/// hash chain and totals, the run's event grammar, and its agreement with
/// the result, event by event. Comparing the request's seed, limits and
/// policy with the trace's, and the trace with a fresh run of the
/// generation, is the caller's part.
pub fn replay_catalog_generation_trace(
    trace: &CatalogGenerationTrace,
    result: &CatalogReplayResult,
    request: &CatalogGenerationTraceRequest,
) -> (r: Result<CatalogGenerationReplay, CatalogGenerationTraceError>)
    ensures
        match r {
            Ok(p) => replay_check(*trace, *result, *request) == Ok::<ReplayOutcomeView, TraceErrorView>(p@),
            Err(e) => replay_check(*trace, *result, *request) == Err::<ReplayOutcomeView, TraceErrorView>(e@),
        },
{
    let expected_inputs = &request.input_hashes;
    if !str_eq(trace.kind.as_str(), "rusty_procgen.catalog_generation_trace.v1") || trace.schema_version != 1 {
        return Err(fail("trace_schema_unsupported", owned("unsupported catalog generation trace schema")));
    }
    match validate_catalog_generation_trace_limits(&trace.limits) {
        Err(e) => {
            return Err(e);
        },
        Ok(()) => {},
    }
    if request.trace_limits != trace.limits || request.seed != trace.seed {
        return Err(fail("trace_request_mismatch", owned("trace request seed or limits do not match the trace")));
    }
    if !hashes_equal(&trace.input_hashes, expected_inputs) {
        return Err(
            fail(
                "trace_input_hash_mismatch",
                owned("trace input hashes do not match the supplied generation inputs"),
            ),
        );
    }
    if !policy_equal(&trace.generation_policy, &request.generation_policy) {
        return Err(
            fail(
                "trace_policy_mismatch",
                owned("trace effective generation policy does not match the supplied policy"),
            ),
        );
    }
    let root = catalog_generation_trace_root_hash(
        trace.seed,
        expected_inputs,
        &request.generation_policy,
        &trace.limits,
    );
    if !str_eq(trace.root_hash.as_str(), root.as_str()) {
        return Err(fail("trace_root_hash_mismatch", owned("trace root hash does not match its inputs and limits")));
    }
    let n = trace.events.len();
    if n > 0xffff_ffff {
        return Err(fail("trace_event_count_overflow", owned("trace event count exceeds u32")));
    }
    let count: u32 = n as u32;
    if count > trace.limits.max_events {
        return Err(
            CatalogGenerationTraceError::new(
                "trace_event_quota_exceeded",
                owned("trace event count exceeds its declared limit"),
                Some(count as u64),
                Some(trace.limits.max_events as u64),
            ),
        );
    }
    let ghost es = trace.events@;
    let ghost start = replay_run(
        es,
        0,
        trace.root_hash@,
        0,
        0,
        replay_start(),
        Seq::empty(),
        *result,
        *expected_inputs,
    );
    let mut prev = trace.root_hash.clone();
    let mut b: u64 = 0;
    let mut v: u64 = 0;
    let mut machine = CatalogGenerationReplayMachine::new();
    let mut attempts: Vec<CatalogGenerationReplayAttempt> = Vec::new();
    assert(views(attempts@) =~= Seq::<AttemptView>::empty());
    let mut i: usize = 0;
    while i < trace.events.len()
        invariant
            es == trace.events@,
            n == es.len(),
            n <= u32::MAX,
            n <= trace.limits.max_events,
            trace.kind@ == "rusty_procgen.catalog_generation_trace.v1"@,
            trace.schema_version == 1,
            trace_limits_check(trace.limits) is None,
            request.trace_limits == trace.limits,
            request.seed == trace.seed,
            same_policy(trace.generation_policy, request.generation_policy),
            hashes_view(trace.input_hashes) == hashes_view(*expected_inputs),
            expected_inputs == &request.input_hashes,
            trace.root_hash@ == root_hash_spec(trace.seed, *expected_inputs, request.generation_policy, trace.limits),
            i <= n,
            machine@.completed_attempt is None,
            start == replay_run(
                es,
                0,
                trace.root_hash@,
                0,
                0,
                replay_start(),
                Seq::empty(),
                *result,
                *expected_inputs,
            ),
            start == replay_run(es, i as int, prev@, b as int, v as int, machine@, views(attempts@), *result, *expected_inputs),
        decreases n - i,
    {
        let e = &trace.events[i];
        let (nb, nv) = match check_event(e, i, prev.as_str(), b, v) {
            Err(x) => {
                return Err(x);
            },
            Ok(x) => x,
        };
        match machine.apply(e, result, expected_inputs) {
            Err(x) => {
                return Err(x);
            },
            Ok(()) => {},
        }
        let ghost before = views(attempts@);
        match machine.take_completed_attempt() {
            Some(a) => {
                attempts.push(a);
                assert(views(attempts@) =~= before.push(a@));
            },
            None => {},
        }
        prev = e.event_hash.clone();
        b = nb;
        v = nv;
        i = i + 1;
    }
    if b != trace.event_body_bytes || b > trace.limits.max_event_body_bytes {
        return Err(
            CatalogGenerationTraceError::new(
                "trace_event_body_byte_mismatch",
                owned("trace event-body byte evidence is inconsistent or over limit"),
                Some(b),
                Some(trace.limits.max_event_body_bytes),
            ),
        );
    }
    if v != trace.visual_cell_count || v > trace.limits.max_visual_cells {
        return Err(
            CatalogGenerationTraceError::new(
                "trace_visual_cell_mismatch",
                owned("trace visual-cell evidence is inconsistent or over limit"),
                Some(v),
                Some(trace.limits.max_visual_cells),
            ),
        );
    }
    if !str_eq(prev.as_str(), trace.final_event_hash.as_str()) {
        return Err(
            fail("trace_final_event_hash_mismatch", owned("trace final event hash does not close the event chain")),
        );
    }
    if !str_eq(trace.final_output_hash.as_str(), result.output_hash.as_str()) {
        return Err(
            fail(
                "trace_final_output_hash_mismatch",
                owned("trace final output hash does not match the supplied result"),
            ),
        );
    }
    let fc = match &result.final_classification {
        Some(c) => Some(owned(c.as_str())),
        None => None,
    };
    let sel = match catalog_generation_trace_selection(result.ok, result.selected_attempt, fc) {
        Err(e) => {
            return Err(e);
        },
        Ok(s) => s,
    };
    if !selection_equal(&trace.selection, &sel) {
        return Err(
            fail(
                "trace_selection_mismatch",
                owned("trace selection evidence does not match the generation result"),
            ),
        );
    }
    match machine.finish(&trace.events, sel.selected_attempt) {
        Some(e) => {
            return Err(e);
        },
        None => {},
    }
    let out = CatalogGenerationReplay {
        attempts,
        final_output_hash: owned(result.output_hash.as_str()),
        final_event_hash: prev,
    };
    assert(out@ =~= replay_check(*trace, *result, *request)->Ok_0);
    Ok(out)
}


// ---------------------------------------------------------------------
// Laws of the replay
// ---------------------------------------------------------------------

/// The states a replay can reach: an attempt is active, or the run
/// finished, only after the inputs were bound.
pub open spec fn replay_reachable(m: ReplayView) -> bool {
    &&& m.attempt is Some ==> m.input_bound
    &&& m.run_finished ==> m.input_bound
}

/// The machine starts in a reachable state, and every step keeps it in one.
pub proof fn lemma_replay_reachable(
    m: ReplayView,
    e: CatalogGenerationTraceEvent,
    res: CatalogReplayResult,
    expected: CatalogGenerationTraceInputHashes,
)
    requires
        replay_reachable(m),
    ensures
        replay_reachable(replay_start()),
        replay_reachable(replay_step(m, e, res, expected).0),
{
}

/// A refused event leaves the machine as it was.
pub proof fn lemma_refused_step_keeps_machine(
    m: ReplayView,
    e: CatalogGenerationTraceEvent,
    res: CatalogReplayResult,
    expected: CatalogGenerationTraceInputHashes,
)
    ensures
        replay_step(m, e, res, expected).1 is Err ==> replay_step(m, e, res, expected).0 == m,
{
}

/// Once the run has finished, every further event is refused.
pub proof fn lemma_nothing_after_run_finished(
    m: ReplayView,
    e: CatalogGenerationTraceEvent,
    res: CatalogReplayResult,
    expected: CatalogGenerationTraceInputHashes,
)
    requires
        m.run_finished,
    ensures
        replay_step(m, e, res, expected).1 is Err,
        replay_step(m, e, res, expected).0 == m,
{
}

/// Input binding comes first: in a reachable state without bound inputs,
/// every other event is refused, and binding is accepted only as the
/// run-level event at index 0 with the expected hashes.
pub proof fn lemma_input_binding_first(
    m: ReplayView,
    e: CatalogGenerationTraceEvent,
    res: CatalogReplayResult,
    expected: CatalogGenerationTraceInputHashes,
)
    requires
        replay_reachable(m),
    ensures
        !m.input_bound && !(e.body is InputBound) ==> replay_step(m, e, res, expected).1 is Err,
        e.body is InputBound && replay_step(m, e, res, expected).1 is Ok ==> {
            &&& !m.input_bound
            &&& e.index == 0
            &&& e.attempt is None
            &&& hashes_view(e.body->input_hashes) == hashes_view(expected)
        },
{
}

/// Attempts start in order: an accepted attempt start names the next
/// attempt and makes it active with nothing placed or routed, and an
/// accepted attempt finish closes the active attempt and advances the
/// count by one.
pub proof fn lemma_attempts_in_order(
    m: ReplayView,
    e: CatalogGenerationTraceEvent,
    res: CatalogReplayResult,
    expected: CatalogGenerationTraceInputHashes,
)
    ensures
        e.body is AttemptStarted && replay_step(m, e, res, expected).1 is Ok ==> {
            let n = replay_step(m, e, res, expected).0;
            &&& m.attempt is None
            &&& e.attempt == Some(m.next_attempt)
            &&& n.attempt == Some(m.next_attempt)
            &&& n.rooms.len() == 0 && n.routes.len() == 0 && n.pending_sections.len() == 0
        },
        e.body is AttemptFinished && replay_step(m, e, res, expected).1 is Ok ==> {
            let n = replay_step(m, e, res, expected).0;
            &&& m.attempt is Some
            &&& m.pending_sections.len() == 0
            &&& n.attempt is None
            &&& n.next_attempt == m.next_attempt + 1
            &&& n.completed_attempt == Some(
                AttemptView {
                    attempt: m.attempt->Some_0,
                    rooms: m.rooms,
                    routes: m.routes,
                    classification: e.body->AttemptFinished_classification@,
                },
            )
        },
{
}

} // verus!
