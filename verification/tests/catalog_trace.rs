use rusty_procgen_preflight::catalog::GridCell;
use rusty_procgen_preflight::catalog_outcome::{
    CatalogAwareGenerationPolicy, CatalogAwareOutcomeConstraints, CatalogAwareOutcomePreferences,
};
use rusty_procgen_preflight::catalog_trace::{
    body_bytes, catalog_generation_trace_event_hash, catalog_generation_trace_root_hash,
    catalog_generation_trace_selection, check_catalog_generation_trace_chain, trace_record_or_error,
    validate_catalog_generation_trace_limits, visual_cell_count, CatalogGenerationTraceEventBody,
    CatalogGenerationTraceInputHashes, CatalogGenerationTraceLimits,
    CatalogGenerationTraceRecorder,
};

fn hashes() -> CatalogGenerationTraceInputHashes {
    CatalogGenerationTraceInputHashes {
        candidate_hash: "fnv1a64:0000000000000001".to_owned(),
        source_geometry_hash: "fnv1a64:0000000000000002".to_owned(),
        source_plan_hash: "fnv1a64:0000000000000003".to_owned(),
        catalog_hash: "fnv1a64:0000000000000004".to_owned(),
        generation_policy_hash: "fnv1a64:0000000000000005".to_owned(),
        provenance_hash: "fnv1a64:0000000000000006".to_owned(),
    }
}

fn policy() -> CatalogAwareGenerationPolicy {
    CatalogAwareGenerationPolicy {
        kind: "rusty_procgen.catalog_aware_generation_policy.v2".to_owned(),
        schema_version: 2,
        max_generation_attempts: 4,
        initial_room_compaction_cells: 2,
        room_compaction_growth_cells: 3,
        max_room_candidates: 8,
        max_routing_states_per_section: 1_000,
        route_margin_cells: 16,
        guide_distance_weight: 1,
        turn_penalty: 2,
        outcome_constraints: CatalogAwareOutcomeConstraints::default(),
        outcome_preferences: CatalogAwareOutcomePreferences::default(),
    }
}

fn limits(events: u32, bytes: u64, cells: u64) -> CatalogGenerationTraceLimits {
    CatalogGenerationTraceLimits { max_events: events, max_event_body_bytes: bytes, max_visual_cells: cells }
}

fn conflict(n: i32) -> CatalogGenerationTraceEventBody {
    CatalogGenerationTraceEventBody::RoomConflict {
        piece_id: "piece.a".to_owned(),
        conflicting_cells: (0..n).map(|x| GridCell { x, y: 0 }).collect(),
    }
}

#[test]
fn trace_limits_default_and_bounds() {
    let d = CatalogGenerationTraceLimits::default();
    assert_eq!((d.max_events, d.max_event_body_bytes, d.max_visual_cells), (1_024, 1_048_576, 131_072));
    assert!(validate_catalog_generation_trace_limits(&d).is_ok());
    let e = validate_catalog_generation_trace_limits(&limits(0, 1, 1)).unwrap_err();
    assert_eq!(e.code, "trace_event_limit_invalid");
    assert_eq!(e.detail, "maxEvents must be from 1 through 4096");
    assert_eq!((e.observed, e.limit), (Some(0), Some(4_096)));
    let e = validate_catalog_generation_trace_limits(&limits(4_097, 1, 1)).unwrap_err();
    assert_eq!(e.code, "trace_event_limit_invalid");
    let e = validate_catalog_generation_trace_limits(&limits(1, 4_194_305, 1)).unwrap_err();
    assert_eq!(e.code, "trace_event_body_byte_limit_invalid");
    assert_eq!((e.observed, e.limit), (Some(4_194_305), Some(4_194_304)));
    let e = validate_catalog_generation_trace_limits(&limits(1, 1, 0)).unwrap_err();
    assert_eq!(e.code, "trace_visual_cell_limit_invalid");
    assert_eq!(e.detail, "maxVisualCells must be from 1 through 1048576");
}

#[test]
fn trace_event_hash_covers_index_attempt_link_and_body() {
    let body = CatalogGenerationTraceEventBody::AttemptStarted { room_slack_cells: 4 };
    assert_eq!(
        String::from_utf8(body_bytes(&body)).unwrap(),
        "{\"type\":\"attempt_started\",\"roomSlackCells\":4}"
    );
    assert_eq!(
        catalog_generation_trace_event_hash(1, Some(0), "fnv1a64:0000000000000000", &body),
        "fnv1a64:38364ddd36e887f3"
    );
    let other = CatalogGenerationTraceEventBody::AttemptStarted { room_slack_cells: -3 };
    assert_eq!(catalog_generation_trace_event_hash(0, None, "r", &other), "fnv1a64:7b88720caa4b83a1");
    assert_ne!(
        catalog_generation_trace_event_hash(1, Some(1), "fnv1a64:0000000000000000", &body),
        catalog_generation_trace_event_hash(1, Some(0), "fnv1a64:0000000000000000", &body)
    );
}

#[test]
fn trace_root_hash_depends_on_seed() {
    let l = CatalogGenerationTraceLimits::default();
    let a = catalog_generation_trace_root_hash(7, &hashes(), &policy(), &l);
    let b = catalog_generation_trace_root_hash(8, &hashes(), &policy(), &l);
    assert!(a.starts_with("fnv1a64:"));
    assert_eq!(a.len(), 24);
    assert_ne!(a, b);
    assert_eq!(a, catalog_generation_trace_root_hash(7, &hashes(), &policy(), &l));
}

#[test]
fn trace_visual_cells_count_shown_cells() {
    assert_eq!(visual_cell_count(&conflict(3)).unwrap(), 3);
    let started = CatalogGenerationTraceEventBody::AttemptStarted { room_slack_cells: 0 };
    assert_eq!(visual_cell_count(&started).unwrap(), 0);
}

#[test]
fn trace_recorder_chains_events_from_the_root() {
    let l = CatalogGenerationTraceLimits::default();
    let mut rec = CatalogGenerationTraceRecorder::new(7, hashes(), policy(), l).expect("recorder");
    assert!(rec.is_active());
    assert_eq!(rec.root_hash, catalog_generation_trace_root_hash(7, &hashes(), &policy(), &l));
    assert_eq!(rec.events.len(), 1);
    assert_eq!(rec.events[0].index, 0);
    assert_eq!(rec.events[0].attempt, None);
    assert_eq!(rec.events[0].previous_hash, rec.root_hash);
    assert!(rec.record(Some(0), CatalogGenerationTraceEventBody::AttemptStarted { room_slack_cells: 2 }));
    assert!(rec.record(Some(0), conflict(2)));
    assert_eq!(rec.events.len(), 3);
    for k in 1..3 {
        assert_eq!(rec.events[k].index as usize, k);
        assert_eq!(rec.events[k].previous_hash, rec.events[k - 1].event_hash);
        assert_eq!(
            rec.events[k].event_hash,
            catalog_generation_trace_event_hash(
                rec.events[k].index,
                rec.events[k].attempt,
                &rec.events[k].previous_hash,
                &rec.events[k].body
            )
        );
    }
    assert_eq!(rec.visual_cell_count, 2);
    let total: usize = rec.events.iter().map(|e| body_bytes(&e.body).len()).sum();
    assert_eq!(rec.event_body_bytes as usize, total);

    let last = rec.events[2].event_hash.clone();
    let trace = rec.finish(true, Some(0), None, "fnv1a64:00000000000000aa".to_owned()).expect("trace");
    assert_eq!(trace.kind, "rusty_procgen.catalog_generation_trace.v1");
    assert_eq!(trace.schema_version, 1);
    assert_eq!(trace.events.len(), 4);
    assert_eq!(trace.events[3].previous_hash, last);
    assert_eq!(trace.final_event_hash, trace.events[3].event_hash);
    assert_eq!(trace.final_output_hash, "fnv1a64:00000000000000aa");
    assert_eq!(trace.selection.selected_attempt, Some(0));
    assert_eq!(trace.selection.classification, "success");
    assert_eq!(trace.selection.reason, "first_successful_attempt");
    match &trace.events[3].body {
        CatalogGenerationTraceEventBody::RunFinished { selected_attempt, classification, reason, output_hash } => {
            assert_eq!(*selected_attempt, Some(0));
            assert_eq!(classification, "success");
            assert_eq!(reason, "first_successful_attempt");
            assert_eq!(output_hash, "fnv1a64:00000000000000aa");
        }
        _ => panic!("last event must close the run"),
    }
}

#[test]
fn trace_event_quota_sets_a_sticky_error() {
    let mut rec = CatalogGenerationTraceRecorder::new(1, hashes(), policy(), limits(2, 1_048_576, 100)).expect("recorder");
    assert!(rec.record(None, CatalogGenerationTraceEventBody::AttemptStarted { room_slack_cells: 0 }));
    assert!(!rec.record(None, CatalogGenerationTraceEventBody::AttemptStarted { room_slack_cells: 1 }));
    let e = rec.error().expect("error");
    assert_eq!(e.code, "trace_event_quota_exceeded");
    assert_eq!(e.detail, "catalog generation trace would contain 3 events, limit 2");
    assert_eq!((e.observed, e.limit), (Some(3), Some(2)));
    assert_eq!(rec.events.len(), 2);
    let again = trace_record_or_error(&mut rec, None, conflict(0)).unwrap_err();
    assert_eq!(again.code, "trace_event_quota_exceeded");
    assert_eq!(rec.events.len(), 2);
    let finished = rec.finish(false, None, Some("routing_infeasibility".to_owned()), "h".to_owned());
    assert_eq!(finished.unwrap_err().code, "trace_event_quota_exceeded");
}

#[test]
fn trace_visual_cell_quota_rejects_large_bodies() {
    let mut rec = CatalogGenerationTraceRecorder::new(1, hashes(), policy(), limits(16, 1_048_576, 4)).expect("recorder");
    assert!(trace_record_or_error(&mut rec, Some(0), conflict(3)).is_ok());
    let e = trace_record_or_error(&mut rec, Some(0), conflict(2)).unwrap_err();
    assert_eq!(e.code, "trace_visual_cell_quota_exceeded");
    assert_eq!(e.detail, "catalog generation trace would retain 5 visual cells, limit 4");
    assert_eq!((e.observed, e.limit), (Some(5), Some(4)));
    assert_eq!(rec.visual_cell_count, 3);
}

#[test]
fn trace_body_byte_quota_refuses_the_recorder() {
    let e = CatalogGenerationTraceRecorder::new(1, hashes(), policy(), limits(16, 10, 4)).err().expect("error");
    assert_eq!(e.code, "trace_event_body_byte_quota_exceeded");
    assert_eq!(e.limit, Some(10));
    let e = CatalogGenerationTraceRecorder::new(1, hashes(), policy(), limits(0, 10, 4)).err().expect("error");
    assert_eq!(e.code, "trace_event_limit_invalid");
}

#[test]
fn trace_disabled_recorder_keeps_nothing() {
    let mut rec = CatalogGenerationTraceRecorder::disabled();
    assert!(!rec.is_active());
    assert!(rec.record(Some(0), conflict(5)));
    assert!(trace_record_or_error(&mut rec, None, conflict(1)).is_ok());
    assert!(rec.events.is_empty());
    assert!(rec.error().is_none());
    let trace = rec.finish(false, None, Some("generation_infeasibility".to_owned()), "h".to_owned()).expect("trace");
    assert!(trace.events.is_empty());
    assert_eq!(trace.final_event_hash, "");
    assert_eq!(trace.selection.classification, "generation_infeasibility");
    assert_eq!(trace.selection.reason, "generation_attempt_budget_exhausted");
}

#[test]
fn trace_selection_requires_its_evidence() {
    let e = catalog_generation_trace_selection(true, None, None).unwrap_err();
    assert_eq!(e.code, "trace_selection_missing");
    assert_eq!(e.detail, "successful result has no selected attempt");
    let e = catalog_generation_trace_selection(false, Some(1), None).unwrap_err();
    assert_eq!(e.code, "trace_exhaustion_missing");
    let s = catalog_generation_trace_selection(false, None, Some("outcome_constraint_miss".to_owned())).unwrap();
    assert_eq!(s.selected_attempt, None);
    assert_eq!(s.classification, "outcome_constraint_miss");
    let rec = CatalogGenerationTraceRecorder::new(1, hashes(), policy(), CatalogGenerationTraceLimits::default()).expect("recorder");
    assert_eq!(rec.finish(true, None, None, "h".to_owned()).unwrap_err().code, "trace_selection_missing");
}

fn finished_trace() -> rusty_procgen_preflight::catalog_trace::CatalogGenerationTrace {
    let mut rec = CatalogGenerationTraceRecorder::new(3, hashes(), policy(), CatalogGenerationTraceLimits::default()).expect("recorder");
    assert!(rec.record(Some(0), CatalogGenerationTraceEventBody::AttemptStarted { room_slack_cells: 2 }));
    assert!(rec.record(Some(0), conflict(4)));
    rec.finish(false, None, Some("generation_infeasibility".to_owned()), "fnv1a64:0000000000000007".to_owned())
        .expect("trace")
}

#[test]
fn trace_chain_check_accepts_a_recorded_trace() {
    let trace = finished_trace();
    assert_eq!(trace.events.len(), 4);
    assert!(check_catalog_generation_trace_chain(&trace).is_ok());
}

#[test]
fn trace_chain_check_names_each_defect() {
    let mut t = finished_trace();
    t.schema_version = 2;
    assert_eq!(check_catalog_generation_trace_chain(&t).unwrap_err().code, "trace_schema_unsupported");

    let mut t = finished_trace();
    t.limits.max_events = 3;
    let e = check_catalog_generation_trace_chain(&t).unwrap_err();
    assert_eq!(e.code, "trace_event_quota_exceeded");
    assert_eq!((e.observed, e.limit), (Some(4), Some(3)));

    let mut t = finished_trace();
    t.events[2].index = 7;
    let e = check_catalog_generation_trace_chain(&t).unwrap_err();
    assert_eq!(e.code, "trace_event_order_invalid");
    assert_eq!(e.detail, "trace event at position 2 declares index 7");

    let mut t = finished_trace();
    t.events[1].previous_hash = "fnv1a64:0000000000000000".to_owned();
    let e = check_catalog_generation_trace_chain(&t).unwrap_err();
    assert_eq!(e.code, "trace_previous_hash_mismatch");
    assert_eq!(e.detail, "trace event 1 does not link to the previous hash");

    let mut t = finished_trace();
    t.events[2].body = conflict(3);
    let e = check_catalog_generation_trace_chain(&t).unwrap_err();
    assert_eq!(e.code, "trace_event_hash_mismatch");
    assert_eq!(e.detail, "trace event 2 body does not match its hash");

    let mut t = finished_trace();
    t.event_body_bytes += 1;
    assert_eq!(check_catalog_generation_trace_chain(&t).unwrap_err().code, "trace_event_body_byte_mismatch");

    let mut t = finished_trace();
    t.visual_cell_count = 5;
    let e = check_catalog_generation_trace_chain(&t).unwrap_err();
    assert_eq!(e.code, "trace_visual_cell_mismatch");
    assert_eq!(e.observed, Some(4));

    let mut t = finished_trace();
    t.final_event_hash = t.root_hash.clone();
    assert_eq!(check_catalog_generation_trace_chain(&t).unwrap_err().code, "trace_final_event_hash_mismatch");
}
