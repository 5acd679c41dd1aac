use rusty_procgen_preflight::catalog::GridCell;
use rusty_procgen_preflight::catalog_geometry::{
    align_geometry_corridor_to_catalog, append_orthogonal_geometry_point,
    catalog_exit_geometry_point, direction_between,
    is_catalog_room_kind, normalize_catalog_geometry_bounds, validate_catalog_geometry_segments,
    MatchedExit,
};
use rusty_procgen_preflight::preview::{
    css_token, escape_attr, escape_html, preview_positions_ok, render_geometry_preview_html,
    room_fill, room_label, validate_preview_inputs,
};
use rusty_procgen_preflight::connection_plan::{
    plan_physical_connections, PhysicalConnectionPlan, PhysicalTraversalRef,
};
use rusty_procgen_preflight::geometry::{
    Geometry2dArtifact, GeometryBounds, GeometryContent, GeometryCorridor,
    GeometryLayoutSearchEvidence, GeometryPoint, GeometryRect, GeometryRoom, GeometryRoomPort,
};
use rusty_procgen_preflight::geometry_policy::{default_geometry_layout_policy, GeometrySpacing};
use rusty_procgen_preflight::geometry_validation::{
    geometry_is_checkable, rasterize_corridor, validate_geometry_2d,
};
use rusty_procgen_preflight::graph::Diagnostic;
use rusty_procgen_preflight::intermediate::{IntermediateBreakdown, IntermediateConnector};
use rusty_procgen_preflight::model::{Candidate, Edge, EdgeKind, IntentGraph, TraversalKind};
use rusty_procgen_preflight::procgen_core::ProcgenCore;
use rusty_procgen_preflight::sorting::sort_by_key;

fn edge(id: &str, traversal: TraversalKind, item: Option<&str>) -> Edge {
    Edge {
        id: id.to_owned(),
        from: "a".to_owned(),
        to: "b".to_owned(),
        kind: EdgeKind::CriticalPath,
        traversal,
        required_item: item.map(str::to_owned),
        tags: Vec::new(),
    }
}

fn graph_candidate(edges: Vec<Edge>) -> Candidate {
    Candidate {
        kind: "rusty_procgen.candidate.v1".to_owned(),
        schema_version: 1,
        candidate_id: "cand".to_owned(),
        seed: 1,
        dimension_model: "topology_graph".to_owned(),
        source_intent: None,
        provenance: Vec::new(),
        graph: IntentGraph { nodes: Vec::new(), edges },
    }
}

fn connector(
    id: &str,
    edge_id: &str,
    from: &str,
    to: &str,
    hint: &str,
    intents: &[&str],
    affordances: &[&str],
) -> IntermediateConnector {
    IntermediateConnector {
        id: id.to_owned(),
        edge_id: edge_id.to_owned(),
        from_region: from.to_owned(),
        to_region: to.to_owned(),
        intents: intents.iter().map(|s| s.to_string()).collect(),
        affordances: affordances.iter().map(|s| s.to_string()).collect(),
        traversal_hint: hint.to_owned(),
        constraint_refs: Vec::new(),
    }
}

fn breakdown(candidate_id: &str, connectors: Vec<IntermediateConnector>) -> IntermediateBreakdown {
    IntermediateBreakdown {
        kind: "rusty_procgen.intermediate.v1".to_owned(),
        schema_version: 1,
        candidate_id: candidate_id.to_owned(),
        state_hash: String::new(),
        annotation_ref: String::new(),
        regions: Vec::new(),
        connectors,
        constraints: Vec::new(),
    }
}

fn demo_plan() -> Result<PhysicalConnectionPlan, String> {
    let candidate = graph_candidate(vec![
        edge("e1", TraversalKind::Open, None),
        edge("e2", TraversalKind::Open, None),
        edge("e3", TraversalKind::Locked, Some("key")),
    ]);
    let intermediate = breakdown(
        "cand",
        vec![
            connector("c_b", "e2", "region.b", "region.a", "open", &["x"], &[]),
            connector("c_a", "e1", "region.a", "region.b", "open", &[], &[]),
            connector("c_lock", "e3", "region.a", "region.b", "locked", &[], &["locked_threshold"]),
        ],
    );
    ProcgenCore::plan_connections(&candidate, &intermediate)
}

#[test]
fn open_connectors_between_two_regions_share_a_section() {
    let plan = demo_plan().unwrap();
    assert_eq!(plan.kind, "rusty_procgen.physical_connection_plan.v1");
    assert_eq!(plan.plan_id, "physical_connections.cand");
    assert_eq!(plan.source_candidate_ref, "memory/candidate.json");
    assert_eq!(plan.source_intermediate_ref, "memory/intermediate.json");
    let ids: Vec<&str> = plan.sections.iter().map(|s| s.id.as_str()).collect();
    assert_eq!(ids, vec!["section.region_a.region_b.c_lock", "section.region_a.region_b.open"]);
    let locked = &plan.sections[0];
    assert_eq!(locked.topology, "corridor_2");
    assert_eq!(locked.terminal_regions, vec!["region.a", "region.b"]);
    assert_eq!(locked.source_connectors, vec!["c_lock"]);
    assert_eq!(locked.width, 18);
    assert_eq!(locked.semantic_tags, vec!["locked", "locked_threshold"]);
    assert_eq!(locked.traversal_refs[0].traversal, "locked");
    assert_eq!(locked.traversal_refs[0].required_item.as_deref(), Some("key"));
    let open = &plan.sections[1];
    assert_eq!(open.source_connectors, vec!["c_a", "c_b"]);
    assert_eq!(open.source_edges, vec!["e1", "e2"]);
    assert_eq!(open.width, 12);
    assert_eq!(open.semantic_tags, vec!["open", "x"]);
    let refs: Vec<&str> = open.traversal_refs.iter().map(|r| r.connector_id.as_str()).collect();
    assert_eq!(refs, vec!["c_a", "c_b"]);
    let mappings: Vec<(&str, &str, &str)> = plan
        .edge_mappings
        .iter()
        .map(|m| (m.edge_id.as_str(), m.connector_id.as_str(), m.section_id.as_str()))
        .collect();
    assert_eq!(
        mappings,
        vec![
            ("e1", "c_a", "section.region_a.region_b.open"),
            ("e2", "c_b", "section.region_a.region_b.open"),
            ("e3", "c_lock", "section.region_a.region_b.c_lock"),
        ]
    );
    assert_eq!(plan.edge_mappings[1].from_region, "region.b");
}

#[test]
fn plan_refuses_a_breakdown_of_another_candidate() {
    let candidate = graph_candidate(vec![edge("e1", TraversalKind::Open, None)]);
    let intermediate = breakdown("other", Vec::new());
    let error = plan_physical_connections(&candidate, &intermediate, "c.json", "i.json").unwrap_err();
    assert_eq!(error, "intermediate candidate other does not match candidate cand");
}

#[test]
fn plan_refuses_a_connector_without_its_edge() {
    let candidate = graph_candidate(vec![edge("e1", TraversalKind::Open, None)]);
    let intermediate = breakdown(
        "cand",
        vec![connector("c_x", "nope", "region.a", "region.b", "open", &[], &[])],
    );
    let error = plan_physical_connections(&candidate, &intermediate, "c.json", "i.json").unwrap_err();
    assert_eq!(error, "connector c_x references missing edge nope");
}

#[test]
fn plan_refuses_a_section_with_one_terminal() {
    let candidate = graph_candidate(vec![edge("e1", TraversalKind::Locked, Some("key"))]);
    let intermediate = breakdown(
        "cand",
        vec![connector("c_self", "e1", "region.a", "region.a", "locked", &[], &[])],
    );
    let error = plan_physical_connections(&candidate, &intermediate, "c.json", "i.json").unwrap_err();
    assert_eq!(
        error,
        "physical connection group edge:c_self requires exactly two terminals; found 1"
    );
}

#[test]
fn equal_keys_keep_their_order_when_sorted() {
    let refs: Vec<PhysicalTraversalRef> = ["b", "a", "b", "a"]
        .iter()
        .enumerate()
        .map(|(i, e)| PhysicalTraversalRef {
            connector_id: format!("c{i}"),
            edge_id: e.to_string(),
            from_region: String::new(),
            to_region: String::new(),
            traversal: "open".to_owned(),
            required_item: None,
        })
        .collect();
    let sorted = sort_by_key(refs);
    let order: Vec<&str> = sorted.iter().map(|r| r.connector_id.as_str()).collect();
    assert_eq!(order, vec!["c1", "c3", "c0", "c2"]);
}

fn port(id: &str, section: &str, side: &str, x: i32, y: i32) -> GeometryRoomPort {
    GeometryRoomPort {
        id: id.to_owned(),
        section_id: section.to_owned(),
        side: side.to_owned(),
        point: GeometryPoint { x, y },
        width: 12,
    }
}

fn room(id: &str, region: &str, node: &str, role: &str, rect: GeometryRect, ports: Vec<GeometryRoomPort>) -> GeometryRoom {
    GeometryRoom {
        id: id.to_owned(),
        source_region: region.to_owned(),
        source_nodes: vec![node.to_owned()],
        role: role.to_owned(),
        geometry_role: "chamber".to_owned(),
        footprint_class: "standard".to_owned(),
        rect,
        ports,
        style_tags: vec![role.to_owned()],
    }
}

fn search() -> GeometryLayoutSearchEvidence {
    GeometryLayoutSearchEvidence {
        spacing_tier: 0,
        room_order_attempt: 0,
        port_order_attempt: 0,
        route_order_attempt: 0,
        search_attempts: 1,
        effective_spacing: GeometrySpacing { room_margin: 96, column_gap: 144, row_gap: 64 },
        embedding_kind: "depth_columns".to_owned(),
        embedding_id: "emb".to_owned(),
        embedding_faces: 0,
        embedding_target_faces: 0,
        embedding_search_steps: 0,
        route_decisions: 0,
        route_backtracks: 0,
        route_path_alternatives: 0,
        route_repairs: 0,
        route_grid_expansions: 0,
        route_path_expansion_exhaustions: 0,
        route_last_failed_section: String::new(),
        route_blocking_owners: Vec::new(),
        valid_layout_candidates: 1,
        compactness_portal_capacity_penalty: 0,
        compactness_envelope_area: 307200,
        compactness_corridor_centerline_length: 80,
        compactness_routed_shell_cost: 960,
        compactness_bend_count: 0,
    }
}

fn corridor() -> GeometryCorridor {
    GeometryCorridor {
        id: "corridor.s1".to_owned(),
        physical_section: "s1".to_owned(),
        source_connector: "c1".to_owned(),
        source_edge: "e1".to_owned(),
        source_connectors: vec!["c1".to_owned()],
        source_edges: vec!["e1".to_owned()],
        traversal_refs: vec![PhysicalTraversalRef {
            connector_id: "c1".to_owned(),
            edge_id: "e1".to_owned(),
            from_region: "region.start".to_owned(),
            to_region: "region.goal".to_owned(),
            traversal: "open".to_owned(),
            required_item: None,
        }],
        from_room: "room.start".to_owned(),
        to_room: "room.goal".to_owned(),
        traversal_hint: "open".to_owned(),
        semantic_tags: vec!["open".to_owned()],
        width: 12,
        from_port: "port.a".to_owned(),
        to_port: "port.b".to_owned(),
        points: vec![GeometryPoint { x: 80, y: 40 }, GeometryPoint { x: 160, y: 40 }],
    }
}

fn geometry() -> Geometry2dArtifact {
    Geometry2dArtifact {
        kind: "rusty_procgen.geometry_2d.v1".to_owned(),
        schema_version: 1,
        geometry_id: "geometry.demo".to_owned(),
        candidate_id: "demo".to_owned(),
        seed: 7,
        source_candidate_ref: "memory/candidate.json".to_owned(),
        source_intermediate_ref: "memory/intermediate.json".to_owned(),
        source_connection_plan_ref: "memory/plan.json".to_owned(),
        connection_plan_id: "plan.1".to_owned(),
        layout_policy: default_geometry_layout_policy(),
        layout_search: search(),
        bounds: GeometryBounds { width: 640, height: 480, grid: 8 },
        rooms: vec![
            room(
                "room.start",
                "region.start",
                "start",
                "start",
                GeometryRect { x: 0, y: 0, width: 80, height: 80 },
                vec![port("port.a", "s1", "east", 80, 40)],
            ),
            room(
                "room.goal",
                "region.goal",
                "goal",
                "goal",
                GeometryRect { x: 160, y: 0, width: 80, height: 80 },
                vec![port("port.b", "s1", "west", 160, 40)],
            ),
        ],
        corridors: vec![corridor()],
        contents: vec![GeometryContent {
            id: "content.1".to_owned(),
            room_id: "room.goal".to_owned(),
            source_ref: "goal".to_owned(),
            kind: "marker".to_owned(),
            label: "Goal".to_owned(),
            tags: Vec::new(),
        }],
        skipped_connectors: Vec::new(),
    }
}

fn codes(d: &[Diagnostic]) -> Vec<&str> {
    d.iter().map(|x| x.code.as_str()).collect()
}

#[test]
fn a_consistent_geometry_passes() {
    let g = geometry();
    assert!(geometry_is_checkable(&g));
    let report = ProcgenCore::validate_geometry(&g);
    assert_eq!(report.kind, "rusty_procgen.validation.geometry_2d.v1");
    assert_eq!(codes(&report.diagnostics), Vec::<&str>::new());
    assert!(report.ok);
    assert_eq!(report.fatal_count, 0);
    assert_eq!(report.state_hash, "fnv1a64:40d822594cfecb1e");
}

#[test]
fn corridor_cells_follow_grid_steps() {
    let mut c = corridor();
    c.points = vec![
        GeometryPoint { x: 0, y: 0 },
        GeometryPoint { x: 16, y: 16 },
        GeometryPoint { x: 16, y: 16 },
        GeometryPoint { x: 16, y: 0 },
    ];
    let cells: Vec<(i32, i32)> = rasterize_corridor(&c).iter().map(|p| (p.x, p.y)).collect();
    assert_eq!(cells, vec![(0, 0), (8, 8), (16, 16), (16, 8), (16, 0)]);
}

#[test]
fn a_corridor_through_an_unrelated_room_is_reported_per_cell() {
    let mut g = geometry();
    g.rooms.push(room(
        "room.mid",
        "region.mid",
        "mid",
        "reward",
        GeometryRect { x: 100, y: 20, width: 40, height: 40 },
        Vec::new(),
    ));
    let report = validate_geometry_2d(&g);
    assert_eq!(codes(&report.diagnostics), vec!["geometry_corridor_room_intrusion"; 5]);
    assert_eq!(report.diagnostics[0].node.as_deref(), Some("mid"));
    assert_eq!(report.diagnostics[0].edge.as_deref(), Some("corridor.s1"));
    assert_eq!(
        report.diagnostics[0].detail,
        "Physical section s1 enters unrelated room room.mid."
    );
    assert!(!report.ok);
    assert_eq!(report.fatal_count, 5);
}

#[test]
fn an_empty_artifact_reports_header_reachability_and_evidence() {
    let mut g = geometry();
    g.kind = "bad".to_owned();
    g.bounds = GeometryBounds { width: 0, height: 0, grid: 0 };
    g.connection_plan_id = String::new();
    g.layout_search.search_attempts = 0;
    g.layout_search.valid_layout_candidates = 0;
    g.rooms.clear();
    g.corridors.clear();
    g.contents.clear();
    let report = validate_geometry_2d(&g);
    assert_eq!(
        codes(&report.diagnostics),
        vec![
            "geometry_kind_invalid",
            "geometry_bounds_invalid",
            "geometry_connection_plan_ref_missing",
            "geometry_layout_search_evidence_invalid",
            "geometry_start_missing",
            "geometry_goal_missing",
            "geometry_compactness_evidence_invalid",
        ]
    );
}

#[test]
fn a_goal_behind_a_reversed_corridor_is_unreachable() {
    let mut g = geometry();
    g.corridors[0].traversal_refs[0].from_region = "region.goal".to_owned();
    g.corridors[0].traversal_refs[0].to_region = "region.start".to_owned();
    let report = validate_geometry_2d(&g);
    assert_eq!(codes(&report.diagnostics), vec!["geometry_goal_unreachable"]);
}

#[test]
fn close_parallel_sections_are_reported_once() {
    let mut g = geometry();
    let mut second = corridor();
    second.id = "corridor.s2".to_owned();
    second.physical_section = "s2".to_owned();
    second.source_connectors = vec!["c2".to_owned()];
    second.source_edges = vec!["e2".to_owned()];
    second.traversal_refs[0].connector_id = "c2".to_owned();
    second.traversal_refs[0].edge_id = "e2".to_owned();
    second.from_port = "port.c".to_owned();
    second.to_port = "port.d".to_owned();
    second.points = vec![GeometryPoint { x: 80, y: 56 }, GeometryPoint { x: 160, y: 56 }];
    g.rooms[0].ports.push(port("port.c", "s2", "east", 80, 56));
    g.rooms[1].ports.push(port("port.d", "s2", "west", 160, 56));
    g.corridors.push(second);
    g.layout_search.compactness_corridor_centerline_length = 160;
    g.layout_search.compactness_routed_shell_cost = 1920;
    let report = validate_geometry_2d(&g);
    assert_eq!(codes(&report.diagnostics), vec!["geometry_physical_section_contact"]);
    assert_eq!(
        report.diagnostics[0].detail,
        "Unrelated physical sections s1 and s2 violate separation."
    );
}

#[test]
fn an_off_grid_segment_cannot_be_checked() {
    let mut g = geometry();
    g.corridors[0].points = vec![GeometryPoint { x: 80, y: 40 }, GeometryPoint { x: 164, y: 40 }];
    assert!(!geometry_is_checkable(&g));
}

#[test]
fn catalog_bounds_enclose_rooms_and_corridors_with_margin() {
    let mut g = geometry();
    normalize_catalog_geometry_bounds(&mut g);
    assert_eq!((g.bounds.width, g.bounds.height), (272, 112));
    let mut g = geometry();
    g.corridors[0].points.push(GeometryPoint { x: 250, y: 40 });
    normalize_catalog_geometry_bounds(&mut g);
    assert_eq!((g.bounds.width, g.bounds.height), (288, 112));
    let mut empty = geometry();
    empty.rooms.clear();
    empty.corridors.clear();
    normalize_catalog_geometry_bounds(&mut empty);
    assert_eq!((empty.bounds.width, empty.bounds.height), (672, 512));
}

#[test]
fn catalog_segments_must_be_orthogonal_grid_steps() {
    assert!(validate_catalog_geometry_segments(&geometry()).is_ok());
    let mut g = geometry();
    g.corridors[0].points.push(GeometryPoint { x: 170, y: 50 });
    assert_eq!(
        validate_catalog_geometry_segments(&g).unwrap_err(),
        format!("Catalog corridor {} contains a non-orthogonal grid segment 160,40 -> 170,50.", g.corridors[0].id)
    );
    let mut g = geometry();
    g.corridors[0].points = vec![GeometryPoint { x: -8, y: 0 }, GeometryPoint { x: -4, y: 0 }];
    assert_eq!(
        validate_catalog_geometry_segments(&g).unwrap_err(),
        format!("Catalog corridor {} contains a non-orthogonal grid segment -8,0 -> -4,0.", g.corridors[0].id)
    );
}

#[test]
fn catalog_polylines_gain_elbows_on_diagonal_moves() {
    let mut points = Vec::new();
    append_orthogonal_geometry_point(&mut points, GeometryPoint { x: 0, y: 0 });
    append_orthogonal_geometry_point(&mut points, GeometryPoint { x: 0, y: 0 });
    append_orthogonal_geometry_point(&mut points, GeometryPoint { x: 16, y: 8 });
    append_orthogonal_geometry_point(&mut points, GeometryPoint { x: 16, y: 24 });
    let got: Vec<(i32, i32)> = points.iter().map(|p| (p.x, p.y)).collect();
    assert_eq!(got, vec![(0, 0), (16, 0), (16, 8), (16, 24)]);
}

#[test]
fn catalog_exit_points_and_directions() {
    let exit = |d: &str| MatchedExit {
        requirement_exit_id: "a".to_owned(),
        catalog_exit_id: "b".to_owned(),
        x: 1,
        y: 2,
        direction: d.to_owned(),
        width: 1,
    };
    let origin = GridCell { x: 3, y: 4 };
    let p = catalog_exit_geometry_point(&exit("west"), &origin);
    assert_eq!((p.x, p.y), (40, 48));
    let p = catalog_exit_geometry_point(&exit("north"), &origin);
    assert_eq!((p.x, p.y), (32, 56));
    let p = catalog_exit_geometry_point(&exit("east"), &origin);
    assert_eq!((p.x, p.y), (32, 48));
    let o = GridCell { x: 0, y: 0 };
    assert_eq!(direction_between(&o, &GridCell { x: 0, y: -1 }), "north");
    assert_eq!(direction_between(&o, &GridCell { x: 1, y: 0 }), "east");
    assert_eq!(direction_between(&o, &GridCell { x: 0, y: 1 }), "south");
    assert_eq!(direction_between(&o, &GridCell { x: -1, y: 0 }), "west");
    assert_eq!(direction_between(&o, &GridCell { x: 2, y: 0 }), "unknown");
    assert!(is_catalog_room_kind("room"));
    assert!(!is_catalog_room_kind("corridor"));
    assert!(!is_catalog_room_kind("junction"));
}

#[test]
fn preview_text_escapes_and_tokens() {
    assert_eq!(escape_html("a<b>&\"c\""), "a&lt;b&gt;&amp;\"c\"");
    assert_eq!(escape_attr("a<b>&\"c\""), "a&lt;b&gt;&amp;&quot;c&quot;");
    assert_eq!(css_token("One Way_Return"), "one-way-return");
    assert_eq!(css_token("***"), "fork");
    let mut r = room("room.a", "region.a", "a", "start", GeometryRect { x: 0, y: 0, width: 8, height: 8 }, Vec::new());
    assert_eq!(room_fill(&r), "#1f5f89");
    assert_eq!(room_label(&r), "start / chamber");
    r.role = "vault".to_owned();
    r.geometry_role = "secret_room".to_owned();
    assert_eq!(room_fill(&r), "#563d72");
    r.geometry_role = "vault".to_owned();
    assert_eq!(room_fill(&r), "#2d3a47");
    assert_eq!(room_label(&r), "vault");
}

#[test]
fn preview_page_shows_plan_status_and_diagnostics() {
    let g = geometry();
    let report = ProcgenCore::validate_geometry(&g);
    assert!(validate_preview_inputs(&g, &report, false).is_ok());
    assert!(preview_positions_ok(&g));
    let html = render_geometry_preview_html(&g, &report, "geo.json", "val.json");
    assert!(html.starts_with("<!doctype html>\n<html lang=\"en\">\n"));
    assert!(html.ends_with("</body>\n</html>\n"));
    assert!(html.contains("min-width: 640px; min-height: 480px;"));
    assert!(html.contains("viewBox=\"0 0 640 480\""));
    assert!(html.contains("<polyline class=\"corridor corridor-open\" data-source-edge=\"e1\" points=\"80,40 160,40\" stroke-width=\"12\" />\n"));
    assert!(html.contains("<g class=\"room room-goal\" data-room-id=\"room.goal\" data-role=\"goal\">\n  <rect x=\"160\" y=\"0\" width=\"80\" height=\"80\" rx=\"6\" fill=\"#1f5f89\" />\n  <text class=\"room-label\" x=\"170\" y=\"20\">goal / chamber</text>\n  <text class=\"content-label content-marker\" x=\"170\" y=\"38\">Goal</text>\n</g>\n"));
    assert!(html.contains("<p class=\"status-ok\">Validation: ok</p>"));
    assert!(html.contains("<p>Geometry: <code>geo.json</code></p>\n<p>Validation: <code>val.json</code></p>"));
    assert!(html.contains("<p>Rooms: 2 \u{b7} Corridors: 1 \u{b7} Contents: 1</p>"));
    assert!(html.contains("<ul>\n<li>No diagnostics.</li>\n</ul>"));
}

#[test]
fn preview_inputs_must_match_and_pass() {
    let g = geometry();
    let mut report = ProcgenCore::validate_geometry(&g);
    report.ok = false;
    report.fatal_count = 2;
    assert_eq!(
        validate_preview_inputs(&g, &report, false).unwrap_err(),
        "preview html refused invalid geometry with 2 fatal diagnostic(s); pass --allow-invalid to render diagnostics"
    );
    assert!(validate_preview_inputs(&g, &report, true).is_ok());
    report.state_hash = "fnv1a64:0000000000000000".to_owned();
    assert_eq!(
        validate_preview_inputs(&g, &report, true).unwrap_err(),
        "preview html validation hash does not match geometry input"
    );
    report.kind = "other".to_owned();
    assert_eq!(
        validate_preview_inputs(&g, &report, true).unwrap_err(),
        "preview html requires geometry validation kind rusty_procgen.validation.geometry_2d.v1, got other"
    );
    let mut tall = geometry();
    tall.rooms[1].rect.y = i32::MAX - 30;
    assert!(!preview_positions_ok(&tall));
}

#[test]
fn catalog_corridor_is_redrawn_along_its_routed_cells() {
    let exit = |d: &str, x: i32| MatchedExit {
        requirement_exit_id: "a".to_owned(),
        catalog_exit_id: "b".to_owned(),
        x,
        y: 0,
        direction: d.to_owned(),
        width: 1,
    };
    let cells = vec![GridCell { x: 11, y: 4 }, GridCell { x: 12, y: 5 }];
    let mut g = geometry();
    align_geometry_corridor_to_catalog(
        &mut g,
        "s1",
        &cells,
        &GridCell { x: 9, y: 4 },
        &exit("east", 1),
        &GridCell { x: 19, y: 5 },
        &exit("west", 0),
    );
    let got: Vec<(i32, i32)> = g.corridors[0].points.iter().map(|p| (p.x, p.y)).collect();
    assert_eq!(got, vec![(80, 32), (88, 32), (96, 32), (96, 40), (160, 40)]);
    assert_eq!(g.corridors[0].id, "corridor.s1");
    let mut other = geometry();
    align_geometry_corridor_to_catalog(
        &mut other,
        "s9",
        &cells,
        &GridCell { x: 9, y: 4 },
        &exit("east", 1),
        &GridCell { x: 19, y: 5 },
        &exit("west", 0),
    );
    let kept: Vec<(i32, i32)> = other.corridors[0].points.iter().map(|p| (p.x, p.y)).collect();
    assert_eq!(kept, vec![(80, 40), (160, 40)]);
}
