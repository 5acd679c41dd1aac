use rusty_procgen_preflight::batch::{
    batch_profile_sequence, check_batch_profile, receipt, selection_rejection_code, BatchProfile,
    BatchProfileSequence,
};
use rusty_procgen_preflight::catalog::{
    inspect_shape_catalog, validate_catalog_search_policy, validate_piece_placement_policy,
    CatalogExit, CatalogSearchPolicy, CatalogShape, FeatureSocket, GridCell, PieceContactPolicy,
    PiecePlacementPolicy, SceneSocket, SceneSocketContent, ShapeCatalog,
};
use rusty_procgen_preflight::geometry_policy::{
    default_geometry_layout_policy, geometry_spacing_for_tier, validate_geometry_layout_policy,
    GeometrySpacing,
};
use rusty_procgen_preflight::model::{GraphRule, SceneFacing};
use rusty_procgen_preflight::procgen_core::ProcgenCore;
use rusty_procgen_preflight::rule_metadata::rule_metadata_report;
use rusty_procgen_preflight::text_set::{dedupe_strings, text_less};

fn shape(id: &str, kinds: &[&str], tags: &[&str]) -> CatalogShape {
    CatalogShape {
        shape_id: id.to_owned(),
        label: id.to_owned(),
        piece_kinds: kinds.iter().map(|s| s.to_string()).collect(),
        footprint: vec![GridCell { x: 0, y: 0 }, GridCell { x: 1, y: 0 }],
        reserved_cells: vec![GridCell { x: 2, y: 0 }],
        exits: vec![CatalogExit {
            id: "e".to_owned(),
            x: 0,
            y: 0,
            direction: "north".to_owned(),
            width: 1,
            tags: Vec::new(),
        }],
        allowed_transforms: vec!["identity".to_owned(), "rotate_90".to_owned()],
        feature_sockets: vec![
            FeatureSocket { id: "a".to_owned(), kind: "torch".to_owned(), x: 0, y: 0, tags: Vec::new() },
            FeatureSocket { id: "b".to_owned(), kind: "chest".to_owned(), x: 1, y: 0, tags: Vec::new() },
            FeatureSocket { id: "c".to_owned(), kind: "torch".to_owned(), x: 1, y: 0, tags: Vec::new() },
        ],
        scene_sockets: vec![SceneSocket {
            id: "s".to_owned(),
            x: 0,
            y: 0,
            facing: SceneFacing::North,
            tags: Vec::new(),
            content: SceneSocketContent::PointLight {
                color_rgb: "ffffff".to_owned(),
                intensity_milli: 500,
                range_cells: 3,
            },
        }],
        tags: tags.iter().map(|s| s.to_string()).collect(),
    }
}

fn catalog() -> ShapeCatalog {
    ShapeCatalog {
        kind: "rusty_procgen.shape_catalog.v1".to_owned(),
        schema_version: 1,
        catalog_id: "basic".to_owned(),
        cell_size: 32,
        placement_policy: PiecePlacementPolicy::default(),
        catalog_search_policy: CatalogSearchPolicy::default(),
        shapes: vec![
            shape("room.a", &["room"], &[]),
            shape("hall.b", &["corridor", "room"], &[]),
        ],
    }
}

#[test]
fn default_policies() {
    let p = PiecePlacementPolicy::default();
    assert_eq!(p.minimum_clearance_cells, 3);
    assert_eq!(p.contact_policy, PieceContactPolicy::GluedExitsOnly);
    let s = CatalogSearchPolicy::default();
    assert_eq!(s.max_decisions, 50_000);
    assert_eq!(s.max_room_rotation_alternatives, 4);
    let mut d = Vec::new();
    validate_piece_placement_policy(&p, &mut d);
    validate_catalog_search_policy(&s, &mut d);
    assert!(d.is_empty());
}

#[test]
fn catalog_inspection_summarizes_shapes() {
    let report = inspect_shape_catalog(&catalog(), "fixtures/catalog.json");
    assert!(report.diagnostics.is_empty(), "{:?}", report.diagnostics);
    assert_eq!(report.kind, "rusty_procgen.catalog_inspection.v1");
    assert_eq!(report.catalog_ref, "fixtures/catalog.json");
    assert_eq!(report.shape_count, 2);
    assert_eq!(report.piece_kinds, vec!["corridor", "room"]);
    assert_eq!(report.feature_sockets, vec!["chest", "torch"]);
    assert_eq!(report.scene_socket_kinds, vec!["point_light"]);
    assert_eq!(report.exit_directions, vec!["north"]);
    assert_eq!(report.transforms, vec!["identity", "rotate_90"]);
    let s = &report.shapes[1];
    assert_eq!(s.shape_id, "hall.b");
    assert_eq!(s.footprint_cells, 2);
    assert_eq!(s.reserved_cells, 1);
    assert_eq!(s.exit_count, 1);
    assert_eq!(s.feature_socket_kinds, vec!["chest", "torch"]);
    assert_eq!(s.scene_socket_count, 1);
    assert_eq!(ProcgenCore::inspect_catalog(&catalog()).catalog_ref, "memory/shape-catalog.json");
}

#[test]
fn catalog_inspection_reports_problems() {
    let mut c = catalog();
    c.kind = "other".to_owned();
    c.cell_size = 0;
    c.placement_policy.doorway_width_cells = 2;
    c.placement_policy.minimum_clearance_cells = 2;
    c.catalog_search_policy.max_room_rotation_alternatives = 5;
    c.shapes.push(shape("room.a", &["junction"], &[]));
    c.shapes[2].exits.clear();
    let report = inspect_shape_catalog(&c, "x");
    let codes: Vec<&str> = report.diagnostics.iter().map(|d| d.code.as_str()).collect();
    assert_eq!(
        codes,
        vec![
            "catalog_kind_invalid",
            "catalog_cell_size_invalid",
            "catalog_minimum_clearance_too_small_for_walls",
            "catalog_doorway_width_invalid",
            "catalog_doorway_width_unsupported",
            "catalog_search_policy_invalid",
            "catalog_shape_duplicate",
            "catalog_shape_exit_missing",
            "catalog_junction_ownership_tag_missing",
        ]
    );
    assert_eq!(report.diagnostics[0].detail, "Expected rusty_procgen.shape_catalog.v1, got other.");
    assert_eq!(
        report.diagnostics[2].detail,
        "Placement policy minimumClearanceCells must be at least twice wallThicknessCells plus one (minimum 3 for wall thickness 1)."
    );
    assert_eq!(report.diagnostics[6].detail, "Duplicate shape id room.a.");
    assert_eq!(
        report.diagnostics[8].detail,
        "Junction shape room.a must be explicitly tagged planned_junction."
    );
}

#[test]
fn placement_policy_negative_values() {
    let p = PiecePlacementPolicy {
        schema_version: 2,
        minimum_clearance_cells: -1,
        contact_policy: PieceContactPolicy::GluedExitsOnly,
        wall_thickness_cells: -3,
        doorway_width_cells: 1,
        preserve_piece_boundaries: false,
    };
    let mut d = Vec::new();
    validate_piece_placement_policy(&p, &mut d);
    let codes: Vec<&str> = d.iter().map(|d| d.code.as_str()).collect();
    assert_eq!(
        codes,
        vec![
            "catalog_placement_policy_schema_invalid",
            "catalog_minimum_clearance_invalid",
            "catalog_wall_thickness_invalid",
            "catalog_piece_boundary_preservation_required",
        ]
    );
    assert_eq!(d[0].detail, "Placement policy schemaVersion must be 1, got 2.");
}

#[test]
fn geometry_policy_defaults_validate_and_spacing_grows() {
    let p = default_geometry_layout_policy();
    assert_eq!(validate_geometry_layout_policy(&p), Ok(()));
    assert_eq!(ProcgenCore::default_geometry_policy(), p);
    assert_eq!(
        geometry_spacing_for_tier(&p, 2),
        Ok(GeometrySpacing { room_margin: 192, column_gap: 288, row_gap: 144 })
    );
    assert_eq!(
        geometry_spacing_for_tier(&p, 100),
        Err("geometry layout policy effective spacing exceeds 2048 units".to_owned())
    );
    assert_eq!(
        geometry_spacing_for_tier(&p, u32::MAX),
        Err("geometry layout policy room margin overflowed".to_owned())
    );
}

#[test]
fn geometry_policy_rejections() {
    let mut p = default_geometry_layout_policy();
    p.initial_room_margin = 30;
    assert_eq!(
        validate_geometry_layout_policy(&p),
        Err("geometry layout policy initialRoomMargin must be a multiple of 8 from 32 through 1024".to_owned())
    );
    let mut p = default_geometry_layout_policy();
    p.max_search_attempts = 81;
    assert_eq!(
        ProcgenCore::validate_geometry_policy(&p),
        Err("geometry layout policy maxSearchAttempts must be from 1 through 80".to_owned())
    );
    let mut p = default_geometry_layout_policy();
    p.max_spacing_tiers = 8;
    p.room_margin_growth = 512;
    assert_eq!(
        validate_geometry_layout_policy(&p),
        Err("geometry layout policy roomMargin exceeds 2048 units at the final tier".to_owned())
    );
    let mut p = default_geometry_layout_policy();
    p.kind = "v2".to_owned();
    assert!(validate_geometry_layout_policy(&p).unwrap_err().starts_with("unsupported"));
    let mut p = default_geometry_layout_policy();
    p.room_order_attempts_per_tier = 0;
    assert_eq!(
        validate_geometry_layout_policy(&p),
        Err("geometry layout policy roomOrderAttemptsPerTier must be from 1 through 32".to_owned())
    );
}

#[test]
fn text_order_and_dedupe() {
    assert!(text_less("a", "b"));
    assert!(text_less("ab", "abc"));
    assert!(!text_less("abc", "ab"));
    assert!(!text_less("x", "x"));
    let values = vec!["pear".to_owned(), "apple".to_owned(), "pear".to_owned(), "fig".to_owned()];
    assert_eq!(dedupe_strings(values), vec!["apple", "fig", "pear"]);
}

#[test]
fn batch_profiles_and_rejection_codes() {
    let profile = BatchProfile {
        kind: "rusty_procgen.batch_profile.v1".to_owned(),
        schema_version: 1,
        profile_id: "p".to_owned(),
        description: "d".to_owned(),
        budgets: None,
        sequences: vec![
            BatchProfileSequence { label: "a".to_owned(), rules: vec![GraphRule::LockKeyLoop] },
            BatchProfileSequence { label: "b".to_owned(), rules: vec![GraphRule::SecretBypass] },
        ],
    };
    assert_eq!(check_batch_profile(&profile, "p.json"), Ok(()));
    assert_eq!(batch_profile_sequence(&profile, 3).unwrap().label, "b");
    let mut bad = profile.clone();
    bad.sequences[1].rules.clear();
    assert_eq!(
        check_batch_profile(&bad, "p.json"),
        Err("batch profile p.json sequence b has no rules".to_owned())
    );
    bad.sequences.clear();
    assert_eq!(
        batch_profile_sequence(&bad, 0).unwrap_err(),
        "batch profile has no sequences"
    );
    assert_eq!(
        selection_rejection_code("geometry search exhausted after 3 tiers"),
        "selection_geometry_route_search_exhausted"
    );
    assert_eq!(
        selection_rejection_code("room port allocation exhausted"),
        "selection_geometry_port_allocation_exhausted"
    );
    assert_eq!(
        selection_rejection_code("piece route search exhausted"),
        "selection_piece_route_clearance_exhausted"
    );
    assert_eq!(selection_rejection_code("boom"), "selection_physical_embedding_validation_failed");
    let r = receipt("init", Some(5), Some("h1"), None, Some("out.json"), Vec::new());
    assert_eq!(r.status, "ok");
    assert_eq!(r.output_ref.as_deref(), Some("out.json"));
}

#[test]
fn rule_metadata_lists_every_rule_in_order() {
    let report = rule_metadata_report();
    assert_eq!(report.kind, "rusty_procgen.rule_metadata.v1");
    assert_eq!(report.rules.len(), 10);
    assert_eq!(report.rules[0].id, "lock_key_loop");
    assert_eq!(report.rules[0].duplicate_markers, vec!["gate.locked_1"]);
    assert_eq!(report.rules[5].required_patterns, vec!["lock_key_loop"]);
    assert_eq!(report.rules[9].id, "branch_merge_shortcut");
    assert!(report.rules[1].duplicate_markers.is_empty());
}
