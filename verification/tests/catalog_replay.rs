use rusty_procgen_preflight::catalog::GridCell;
use rusty_procgen_preflight::catalog_outcome::{
    CatalogAwareAttemptEvidence, CatalogAwareGenerationPolicy, CatalogAwareOutcomeConstraints,
    CatalogAwareOutcomePreferences,
};
use rusty_procgen_preflight::catalog_replay::{
    replay_catalog_generation_trace, CatalogGenerationReplayMachine, CatalogGenerationTraceRequest,
    CatalogReplayResult,
};
use rusty_procgen_preflight::catalog_trace::{
    CatalogGenerationTrace, CatalogGenerationTraceEvent, CatalogGenerationTraceEventBody,
    CatalogGenerationTraceInputHashes, CatalogGenerationTraceLimits, CatalogGenerationTraceRecorder,
    CatalogGenerationTraceRoomCandidate, CatalogGenerationTraceRoomPlacement, CatalogGridBounds,
};

fn hashes() -> CatalogGenerationTraceInputHashes {
    CatalogGenerationTraceInputHashes {
        candidate_hash: "fnv1a64:0000000000000001".to_owned(),
        source_geometry_hash: "fnv1a64:0000000000000002".to_owned(),
        source_plan_hash: "fnv1a64:0000000000000003".to_owned(),
        catalog_hash: "fnv1a64:0000000000000004".to_owned(),
        generation_policy_hash: "fnv1a64:0000000000000005".to_owned(),
        provenance_hash: "fnv1a64:0000000000000006".to_owned(),
    }
}

fn policy() -> CatalogAwareGenerationPolicy {
    CatalogAwareGenerationPolicy {
        kind: "rusty_procgen.catalog_aware_generation_policy.v2".to_owned(),
        schema_version: 2,
        max_generation_attempts: 4,
        initial_room_compaction_cells: 2,
        room_compaction_growth_cells: 3,
        max_room_candidates: 8,
        max_routing_states_per_section: 1_000,
        route_margin_cells: 16,
        guide_distance_weight: 1,
        turn_penalty: 2,
        outcome_constraints: CatalogAwareOutcomeConstraints::default(),
        outcome_preferences: CatalogAwareOutcomePreferences::default(),
    }
}

fn request(seed: u64) -> CatalogGenerationTraceRequest {
    CatalogGenerationTraceRequest {
        input_hashes: hashes(),
        generation_policy: policy(),
        seed,
        trace_limits: CatalogGenerationTraceLimits::default(),
    }
}

fn placement() -> CatalogGenerationTraceRoomPlacement {
    CatalogGenerationTraceRoomPlacement {
        piece_id: "piece.a".to_owned(),
        requirement_kind: "room".to_owned(),
        shape_id: "shape.s".to_owned(),
        transform: "identity".to_owned(),
        origin: GridCell { x: 1, y: 2 },
        occupied_cells: vec![GridCell { x: 1, y: 2 }],
        reserved_cells: vec![],
    }
}

fn attempt_bodies() -> Vec<CatalogGenerationTraceEventBody> {
    vec![
        CatalogGenerationTraceEventBody::AttemptStarted { room_slack_cells: 2 },
        CatalogGenerationTraceEventBody::RoomDomainEvaluated {
            piece_id: "piece.a".to_owned(),
            requirement_kind: "room".to_owned(),
            candidates: vec![CatalogGenerationTraceRoomCandidate {
                shape_id: "shape.s".to_owned(),
                transform: "identity".to_owned(),
                score: 3,
                rank: 0,
            }],
        },
        CatalogGenerationTraceEventBody::RoomPlaced { placement: placement() },
        CatalogGenerationTraceEventBody::SectionRoutingStarted {
            section_id: "sec.1".to_owned(),
            start: GridCell { x: 0, y: 0 },
            goal: GridCell { x: 4, y: 0 },
            guide: vec![],
            bounds: CatalogGridBounds { min_x: -2, max_x: 6, min_y: -2, max_y: 2 },
        },
        CatalogGenerationTraceEventBody::SectionRoutingFinished {
            section_id: "sec.1".to_owned(),
            status: "no_path".to_owned(),
            cells: vec![],
            states_visited: 5,
        },
        CatalogGenerationTraceEventBody::AttemptFinished {
            classification: "generation_infeasibility".to_owned(),
            stage: "routing".to_owned(),
            detail: "section sec.1 has no path".to_owned(),
            rooms_placed: 1,
            sections_routed: 0,
            routing_states: 5,
        },
    ]
}

fn evidence() -> CatalogAwareAttemptEvidence {
    CatalogAwareAttemptEvidence {
        attempt: 0,
        room_compaction_cells: 2,
        classification: "generation_infeasibility".to_owned(),
        stage: "routing".to_owned(),
        detail: "section sec.1 has no path".to_owned(),
        rooms_placed: 1,
        sections_routed: 0,
        routing_states: 5,
        outcome: None,
    }
}

fn exhausted_result() -> CatalogReplayResult {
    CatalogReplayResult {
        ok: false,
        selected_attempt: None,
        final_classification: Some("generation_infeasibility".to_owned()),
        attempts: vec![evidence()],
        output_hash: "fnv1a64:00000000000000aa".to_owned(),
        geometry_validation: None,
        placement_validation: None,
        built_flow_validation: None,
        placement_instances: None,
        plan_link_sections: None,
        geometry_corridors: None,
    }
}

fn recorded_trace() -> CatalogGenerationTrace {
    let mut rec = CatalogGenerationTraceRecorder::new(5, hashes(), policy(), CatalogGenerationTraceLimits::default())
        .expect("recorder");
    for body in attempt_bodies() {
        assert!(rec.record(Some(0), body));
    }
    rec.finish(false, None, Some("generation_infeasibility".to_owned()), "fnv1a64:00000000000000aa".to_owned())
        .expect("trace")
}

fn event(index: u32, attempt: Option<u32>, body: CatalogGenerationTraceEventBody) -> CatalogGenerationTraceEvent {
    CatalogGenerationTraceEvent {
        index,
        attempt,
        previous_hash: String::new(),
        event_hash: String::new(),
        body,
    }
}

#[test]
fn replay_accepts_a_recorded_run_and_rebuilds_its_attempts() {
    let trace = recorded_trace();
    assert_eq!(trace.events.len(), 8);
    let replay = replay_catalog_generation_trace(&trace, &exhausted_result(), &request(5)).expect("replay");
    assert_eq!(replay.attempts.len(), 1);
    let a = &replay.attempts[0];
    assert_eq!(a.attempt, 0);
    assert_eq!(a.classification, "generation_infeasibility");
    assert_eq!(a.rooms.len(), 1);
    assert_eq!(a.rooms[0].piece_id, "piece.a");
    assert_eq!(a.rooms[0].origin, GridCell { x: 1, y: 2 });
    assert!(a.routes.is_empty());
    assert_eq!(replay.final_output_hash, "fnv1a64:00000000000000aa");
    assert_eq!(replay.final_event_hash, trace.final_event_hash);
}

#[test]
fn replay_names_envelope_and_binding_defects() {
    let mut t = recorded_trace();
    t.kind = "other".to_owned();
    let e = replay_catalog_generation_trace(&t, &exhausted_result(), &request(5)).unwrap_err();
    assert_eq!(e.code, "trace_schema_unsupported");

    let mut other = request(5);
    other.input_hashes.catalog_hash = "fnv1a64:00000000000000ff".to_owned();
    let e = replay_catalog_generation_trace(&recorded_trace(), &exhausted_result(), &other).unwrap_err();
    assert_eq!(e.code, "trace_input_hash_mismatch");

    let e = replay_catalog_generation_trace(&recorded_trace(), &exhausted_result(), &request(6)).unwrap_err();
    assert_eq!(e.code, "trace_request_mismatch");

    let mut other = request(5);
    other.generation_policy.turn_penalty = 3;
    let e = replay_catalog_generation_trace(&recorded_trace(), &exhausted_result(), &other).unwrap_err();
    assert_eq!(e.code, "trace_policy_mismatch");

    let mut t = recorded_trace();
    t.root_hash = "fnv1a64:0000000000000000".to_owned();
    let e = replay_catalog_generation_trace(&t, &exhausted_result(), &request(5)).unwrap_err();
    assert_eq!(e.code, "trace_root_hash_mismatch");
}

#[test]
fn replay_compares_attempts_and_output_with_the_result() {
    let mut r = exhausted_result();
    r.attempts[0].routing_states = 6;
    let e = replay_catalog_generation_trace(&recorded_trace(), &r, &request(5)).unwrap_err();
    assert_eq!(e.code, "trace_attempt_evidence_mismatch");
    assert_eq!(e.detail, "attempt 0 evidence does not match the result");

    let mut r = exhausted_result();
    r.output_hash = "fnv1a64:00000000000000bb".to_owned();
    let e = replay_catalog_generation_trace(&recorded_trace(), &r, &request(5)).unwrap_err();
    assert_eq!(e.code, "trace_run_finish_mismatch");

    let mut r = exhausted_result();
    r.attempts.push(evidence());
    let e = replay_catalog_generation_trace(&recorded_trace(), &r, &request(5)).unwrap_err();
    assert_eq!(e.code, "trace_attempt_count_mismatch");
}

#[test]
fn replay_machine_enforces_the_event_grammar() {
    let res = exhausted_result();
    let mut m = CatalogGenerationReplayMachine::new();
    let start = event(0, Some(0), CatalogGenerationTraceEventBody::AttemptStarted { room_slack_cells: 0 });
    let e = m.apply(&start, &res, &hashes()).unwrap_err();
    assert_eq!(e.code, "trace_input_event_missing");
    assert_eq!(e.detail, "event 0 precedes input binding");

    let bind = event(0, None, CatalogGenerationTraceEventBody::InputBound { input_hashes: hashes() });
    assert!(m.apply(&bind, &res, &hashes()).is_ok());
    let again = event(1, None, CatalogGenerationTraceEventBody::InputBound { input_hashes: hashes() });
    assert_eq!(m.apply(&again, &res, &hashes()).unwrap_err().code, "trace_input_event_invalid");

    let late = event(1, Some(1), CatalogGenerationTraceEventBody::AttemptStarted { room_slack_cells: 0 });
    let e = m.apply(&late, &res, &hashes()).unwrap_err();
    assert_eq!(e.code, "trace_attempt_order_invalid");
    assert_eq!(e.detail, "attempt 1 is not the next expected attempt");

    let placed = event(1, Some(0), CatalogGenerationTraceEventBody::RoomPlaced { placement: placement() });
    let e = m.apply(&placed, &res, &hashes()).unwrap_err();
    assert_eq!(e.code, "trace_attempt_not_active");
    assert_eq!(e.detail, "event 1 has no active attempt");

    let first = event(1, Some(0), CatalogGenerationTraceEventBody::AttemptStarted { room_slack_cells: 0 });
    assert!(m.apply(&first, &res, &hashes()).is_ok());
    let e = m.apply(&placed, &res, &hashes()).unwrap_err();
    assert_eq!(e.code, "trace_room_choice_outside_domain");
    assert_eq!(e.detail, "room piece.a placement is absent from its recorded domain");

    let finish = event(
        2,
        Some(0),
        CatalogGenerationTraceEventBody::SectionRoutingFinished {
            section_id: "sec.9".to_owned(),
            status: "found".to_owned(),
            cells: vec![GridCell { x: 0, y: 0 }],
            states_visited: 1,
        },
    );
    let e = m.apply(&finish, &res, &hashes()).unwrap_err();
    assert_eq!(e.code, "trace_section_finish_without_start");
    assert!(m.take_completed_attempt().is_none());
}

fn corridor(section: &str, points: Vec<(i32, i32)>) -> rusty_procgen_preflight::geometry::GeometryCorridor {
    rusty_procgen_preflight::geometry::GeometryCorridor {
        id: "corridor.1".to_owned(),
        physical_section: section.to_owned(),
        source_connector: "conn.1".to_owned(),
        source_edge: "edge.1".to_owned(),
        source_connectors: vec!["conn.1".to_owned()],
        source_edges: vec!["edge.1".to_owned()],
        traversal_refs: vec![],
        from_room: "piece.a".to_owned(),
        to_room: "piece.b".to_owned(),
        traversal_hint: "open".to_owned(),
        semantic_tags: vec![],
        width: 8,
        from_port: "port.a".to_owned(),
        to_port: "port.b".to_owned(),
        points: points.into_iter().map(|(x, y)| rusty_procgen_preflight::geometry::GeometryPoint { x, y }).collect(),
    }
}

fn success_bodies() -> Vec<CatalogGenerationTraceEventBody> {
    let mut bodies = attempt_bodies();
    bodies.truncate(4);
    bodies.push(CatalogGenerationTraceEventBody::SectionRoutingFinished {
        section_id: "sec.1".to_owned(),
        status: "found".to_owned(),
        cells: vec![GridCell { x: 0, y: 0 }, GridCell { x: 1, y: 0 }],
        states_visited: 3,
    });
    bodies.push(CatalogGenerationTraceEventBody::ValidationCompleted {
        stage: "geometry_validation".to_owned(),
        ok: true,
        subject_hash: "fnv1a64:0000000000000042".to_owned(),
        diagnostic_codes: vec![],
    });
    bodies.push(CatalogGenerationTraceEventBody::AttemptFinished {
        classification: "success".to_owned(),
        stage: "outcome_selection".to_owned(),
        detail: "selected".to_owned(),
        rooms_placed: 1,
        sections_routed: 1,
        routing_states: 3,
    });
    bodies
}

fn success_result() -> CatalogReplayResult {
    let mut ev = evidence();
    ev.classification = "success".to_owned();
    ev.stage = "outcome_selection".to_owned();
    ev.detail = "selected".to_owned();
    ev.sections_routed = 1;
    ev.routing_states = 3;
    CatalogReplayResult {
        ok: true,
        selected_attempt: Some(0),
        final_classification: None,
        attempts: vec![ev],
        output_hash: "fnv1a64:00000000000000cc".to_owned(),
        geometry_validation: Some(rusty_procgen_preflight::catalog_replay::ReplayStageEvidence {
            ok: true,
            subject_hash: "fnv1a64:0000000000000042".to_owned(),
            diagnostic_codes: vec![],
        }),
        placement_validation: None,
        built_flow_validation: None,
        placement_instances: Some(vec![placement()]),
        plan_link_sections: Some(vec!["sec.1".to_owned()]),
        geometry_corridors: Some(vec![corridor("sec.1", vec![(0, 0), (8, 0)])]),
    }
}

fn success_trace() -> CatalogGenerationTrace {
    let mut rec = CatalogGenerationTraceRecorder::new(9, hashes(), policy(), CatalogGenerationTraceLimits::default())
        .expect("recorder");
    for body in success_bodies() {
        assert!(rec.record(Some(0), body));
    }
    rec.finish(true, Some(0), None, "fnv1a64:00000000000000cc".to_owned()).expect("trace")
}

#[test]
fn replay_checks_a_successful_attempt_against_the_selected_result() {
    let replay = replay_catalog_generation_trace(&success_trace(), &success_result(), &request(9)).expect("replay");
    assert_eq!(replay.attempts.len(), 1);
    assert_eq!(replay.attempts[0].classification, "success");
    assert_eq!(replay.attempts[0].routes.len(), 1);
    assert_eq!(replay.attempts[0].routes[0].section_id, "sec.1");
    assert_eq!(replay.attempts[0].routes[0].cells, vec![GridCell { x: 0, y: 0 }, GridCell { x: 1, y: 0 }]);

    let mut r = success_result();
    r.geometry_corridors = Some(vec![corridor("sec.1", vec![(0, 0), (0, 8)])]);
    let e = replay_catalog_generation_trace(&success_trace(), &r, &request(9)).unwrap_err();
    assert_eq!(e.code, "trace_selected_route_mismatch");
    assert_eq!(e.detail, "replayed route sec.1 leaves the selected geometry corridor");

    let mut r = success_result();
    r.plan_link_sections = Some(vec!["sec.2".to_owned()]);
    let e = replay_catalog_generation_trace(&success_trace(), &r, &request(9)).unwrap_err();
    assert_eq!(e.code, "trace_selected_sections_mismatch");

    let mut r = success_result();
    r.geometry_validation.as_mut().unwrap().ok = false;
    let e = replay_catalog_generation_trace(&success_trace(), &r, &request(9)).unwrap_err();
    assert_eq!(e.code, "trace_selected_validation_mismatch");
    assert_eq!(e.detail, "trace geometry_validation evidence does not match the selected result");

    let mut r = success_result();
    r.placement_instances = Some(vec![]);
    let e = replay_catalog_generation_trace(&success_trace(), &r, &request(9)).unwrap_err();
    assert_eq!(e.code, "trace_selected_rooms_mismatch");
}
