//! Shape catalogs: the pieces that catalog-aware realization places, the
//! placement and search policies that bound it, and the inspection that
//! summarizes a catalog and reports what it lacks.

use vstd::prelude::*;
use vstd::string::*;

use crate::graph::{diagnostic_lit, diagnostic_views, fatal, Diagnostic, DiagnosticView};
use crate::model::{owned, texts, SceneFacing, Severity};
use crate::text::{dec_text, int_text, push_dec_text, push_int_text, str_eq};
use crate::text_set::{dedupe_strings, insert_text, sorted_texts, texts_sorted};

verus! {

pub const SHAPE_CATALOG_KIND: &'static str = "rusty_procgen.shape_catalog.v1";

#[derive(Clone, Copy, Debug, PartialEq, Eq, Structural)]
pub enum PieceContactPolicy {
    GluedExitsOnly,
}

impl Default for PieceContactPolicy {
    fn default() -> (r: Self)
        ensures
            r == PieceContactPolicy::GluedExitsOnly,
    {
        PieceContactPolicy::GluedExitsOnly
    }
}

/// Bounds on the catalog-aware search.
#[derive(Clone, Copy, Debug, PartialEq, Eq, Structural)]
pub struct CatalogSearchPolicy {
    pub schema_version: u32,
    pub max_decisions: u32,
    pub max_backtracks: u32,
    pub max_chain_expansions_per_section: u32,
    pub max_room_origin_alternatives: u32,
    pub max_room_rotation_alternatives: u32,
}

impl Default for CatalogSearchPolicy {
    fn default() -> (r: Self)
        ensures
            r == (CatalogSearchPolicy {
                schema_version: 1,
                max_decisions: 50_000,
                max_backtracks: 10_000,
                max_chain_expansions_per_section: 4_096,
                max_room_origin_alternatives: 8,
                max_room_rotation_alternatives: 4,
            }),
    {
        CatalogSearchPolicy {
            schema_version: 1,
            max_decisions: 50_000,
            max_backtracks: 10_000,
            max_chain_expansions_per_section: 4_096,
            max_room_origin_alternatives: 8,
            max_room_rotation_alternatives: 4,
        }
    }
}

/// How pieces may be placed next to each other.
#[derive(Clone, Copy, Debug, PartialEq, Eq, Structural)]
pub struct PiecePlacementPolicy {
    pub schema_version: u32,
    pub minimum_clearance_cells: i32,
    pub contact_policy: PieceContactPolicy,
    pub wall_thickness_cells: i32,
    pub doorway_width_cells: i32,
    pub preserve_piece_boundaries: bool,
}

impl Default for PiecePlacementPolicy {
    fn default() -> (r: Self)
        ensures
            r == (PiecePlacementPolicy {
                schema_version: 1,
                minimum_clearance_cells: 3,
                contact_policy: PieceContactPolicy::GluedExitsOnly,
                wall_thickness_cells: 1,
                doorway_width_cells: 1,
                preserve_piece_boundaries: true,
            }),
    {
        PiecePlacementPolicy {
            schema_version: 1,
            minimum_clearance_cells: 3,
            contact_policy: PieceContactPolicy::GluedExitsOnly,
            wall_thickness_cells: 1,
            doorway_width_cells: 1,
            preserve_piece_boundaries: true,
        }
    }
}

#[derive(Clone, Copy, Debug, PartialEq, Eq, Structural)]
pub struct GridCell {
    pub x: i32,
    pub y: i32,
}

#[derive(Clone, Debug)]
pub struct CatalogExit {
    pub id: String,
    pub x: i32,
    pub y: i32,
    pub direction: String,
    pub width: i32,
    pub tags: Vec<String>,
}

#[derive(Clone, Debug)]
pub struct FeatureSocket {
    pub id: String,
    pub kind: String,
    pub x: i32,
    pub y: i32,
    pub tags: Vec<String>,
}

/// Asset-agnostic scene content attached to a catalog shape.
#[derive(Clone, Debug)]
pub enum SceneSocketContent {
    Prop { content_id: String },
    PointLight { color_rgb: String, intensity_milli: u32, range_cells: u32 },
}

#[derive(Clone, Debug)]
pub struct SceneSocket {
    pub id: String,
    pub x: i32,
    pub y: i32,
    pub facing: SceneFacing,
    pub tags: Vec<String>,
    pub content: SceneSocketContent,
}

/// Absolute, transformed scene placement emitted for one piece instance.
#[derive(Clone, Debug)]
pub struct ScenePlacement {
    pub id: String,
    pub instance_id: String,
    pub source_socket_id: String,
    pub x: i32,
    pub y: i32,
    pub facing: SceneFacing,
    pub tags: Vec<String>,
    pub content: SceneSocketContent,
}

#[derive(Clone, Debug)]
pub struct CatalogShape {
    pub shape_id: String,
    pub label: String,
    pub piece_kinds: Vec<String>,
    pub footprint: Vec<GridCell>,
    pub reserved_cells: Vec<GridCell>,
    pub exits: Vec<CatalogExit>,
    pub allowed_transforms: Vec<String>,
    pub feature_sockets: Vec<FeatureSocket>,
    pub scene_sockets: Vec<SceneSocket>,
    pub tags: Vec<String>,
}

#[derive(Clone, Debug)]
pub struct ShapeCatalog {
    pub kind: String,
    pub schema_version: u32,
    pub catalog_id: String,
    pub cell_size: i32,
    pub placement_policy: PiecePlacementPolicy,
    pub catalog_search_policy: CatalogSearchPolicy,
    pub shapes: Vec<CatalogShape>,
}

#[derive(Clone, Debug)]
pub struct CatalogShapeSummary {
    pub shape_id: String,
    pub piece_kinds: Vec<String>,
    pub footprint_cells: usize,
    pub reserved_cells: usize,
    pub exit_count: usize,
    pub feature_socket_kinds: Vec<String>,
    pub scene_socket_count: usize,
    pub allowed_transforms: Vec<String>,
    pub tags: Vec<String>,
}

#[derive(Clone, Debug)]
pub struct CatalogInspectionReport {
    pub kind: String,
    pub schema_version: u32,
    pub catalog_id: String,
    pub catalog_ref: String,
    pub shape_count: usize,
    pub placement_policy: PiecePlacementPolicy,
    pub catalog_search_policy: CatalogSearchPolicy,
    pub piece_kinds: Vec<String>,
    pub feature_sockets: Vec<String>,
    pub scene_socket_kinds: Vec<String>,
    pub exit_directions: Vec<String>,
    pub transforms: Vec<String>,
    pub shapes: Vec<CatalogShapeSummary>,
    pub diagnostics: Vec<Diagnostic>,
}

/// A fatal diagnostic without node, edge or repair hint.
pub open spec fn catalog_fatal(code: &str, detail: Seq<char>) -> DiagnosticView {
    DiagnosticView {
        code: code@,
        severity: Severity::Fatal,
        node: None,
        edge: None,
        detail,
        repair_hint: None,
    }
}

pub open spec fn fatal_when(c: bool, code: &str, detail: Seq<char>) -> Seq<DiagnosticView> {
    if c {
        seq![catalog_fatal(code, detail)]
    } else {
        Seq::empty()
    }
}

/// Whether a wall thickness keeps `2 * thickness + 1` within `i32`.
pub open spec fn wall_thickness_in_range(t: i32) -> bool {
    -1_073_741_824 <= t <= 1_073_741_823
}

/// The diagnostics of a placement policy, in check order.
pub open spec fn placement_policy_diagnostics(p: PiecePlacementPolicy) -> Seq<DiagnosticView> {
    spacing_policy_diagnostics(p) + doorway_policy_diagnostics(p)
}

/// The schema, clearance and wall checks of a placement policy.
pub open spec fn spacing_policy_diagnostics(p: PiecePlacementPolicy) -> Seq<DiagnosticView> {
    fatal_when(
        p.schema_version != 1,
        "catalog_placement_policy_schema_invalid",
        "Placement policy schemaVersion must be 1, got "@ + dec_text(p.schema_version as nat) + "."@,
    ) + fatal_when(
        p.minimum_clearance_cells < 0,
        "catalog_minimum_clearance_invalid",
        "Placement policy minimumClearanceCells must be non-negative."@,
    ) + fatal_when(
        p.wall_thickness_cells <= 0,
        "catalog_wall_thickness_invalid",
        "Placement policy wallThicknessCells must be positive."@,
    ) + fatal_when(
        p.minimum_clearance_cells < p.wall_thickness_cells * 2 + 1,
        "catalog_minimum_clearance_too_small_for_walls",
        "Placement policy minimumClearanceCells must be at least twice wallThicknessCells plus one (minimum "@
            + int_text(p.wall_thickness_cells * 2 + 1) + " for wall thickness "@ + int_text(
            p.wall_thickness_cells as int,
        ) + ")."@,
    )
}

/// The doorway and boundary checks of a placement policy.
pub open spec fn doorway_policy_diagnostics(p: PiecePlacementPolicy) -> Seq<DiagnosticView> {
    fatal_when(
        p.doorway_width_cells <= 0 || p.doorway_width_cells % 2 == 0,
        "catalog_doorway_width_invalid",
        "Placement policy doorwayWidthCells must be a positive odd number."@,
    ) + fatal_when(
        p.doorway_width_cells != 1,
        "catalog_doorway_width_unsupported",
        "Placement policy schemaVersion 1 supports doorwayWidthCells=1 only; wider openings require authoritative oriented-footprint routing."@,
    ) + fatal_when(
        !p.preserve_piece_boundaries,
        "catalog_piece_boundary_preservation_required",
        "Placement policy schemaVersion 1 requires preservePieceBoundaries=true."@,
    )
}

fn push_fatal(diagnostics: &mut Vec<Diagnostic>, code: &str, detail: String)
    ensures
        diagnostic_views(final(diagnostics)@) == diagnostic_views(old(diagnostics)@).push(
            catalog_fatal(code, detail@),
        ),
{
    let d = Diagnostic {
        code: owned(code),
        severity: Severity::Fatal,
        node: None,
        edge: None,
        detail,
        repair_hint: None,
    };
    let ghost dv = d@;
    diagnostics.push(d);
    assert(diagnostic_views(diagnostics@) =~= diagnostic_views(old(diagnostics)@).push(dv));
}

fn check_spacing_policy(policy: &PiecePlacementPolicy, diagnostics: &mut Vec<Diagnostic>)
    requires
        wall_thickness_in_range(policy.wall_thickness_cells),
    ensures
        diagnostic_views(final(diagnostics)@) == diagnostic_views(old(diagnostics)@)
            + spacing_policy_diagnostics(*policy),
{
    let ghost start = diagnostic_views(diagnostics@);
    if policy.schema_version != 1 {
        let mut detail = owned("Placement policy schemaVersion must be 1, got ");
        push_dec_text(&mut detail, policy.schema_version as u64);
        detail.append(".");
        push_fatal(diagnostics, "catalog_placement_policy_schema_invalid", detail);
    }
    if policy.minimum_clearance_cells < 0 {
        push_fatal(
            diagnostics,
            "catalog_minimum_clearance_invalid",
            owned("Placement policy minimumClearanceCells must be non-negative."),
        );
    }
    if policy.wall_thickness_cells <= 0 {
        push_fatal(
            diagnostics,
            "catalog_wall_thickness_invalid",
            owned("Placement policy wallThicknessCells must be positive."),
        );
    }
    let minimum = policy.wall_thickness_cells * 2 + 1;
    if policy.minimum_clearance_cells < minimum {
        let mut detail = owned(
            "Placement policy minimumClearanceCells must be at least twice wallThicknessCells plus one (minimum ",
        );
        push_int_text(&mut detail, minimum as i64);
        detail.append(" for wall thickness ");
        push_int_text(&mut detail, policy.wall_thickness_cells as i64);
        detail.append(").");
        push_fatal(diagnostics, "catalog_minimum_clearance_too_small_for_walls", detail);
    }
    assert(diagnostic_views(diagnostics@) =~= start + spacing_policy_diagnostics(*policy));
}

fn check_doorway_policy(policy: &PiecePlacementPolicy, diagnostics: &mut Vec<Diagnostic>)
    ensures
        diagnostic_views(final(diagnostics)@) == diagnostic_views(old(diagnostics)@)
            + doorway_policy_diagnostics(*policy),
{
    let ghost start = diagnostic_views(diagnostics@);
    if policy.doorway_width_cells <= 0 || policy.doorway_width_cells % 2 == 0 {
        push_fatal(
            diagnostics,
            "catalog_doorway_width_invalid",
            owned("Placement policy doorwayWidthCells must be a positive odd number."),
        );
    }
    if policy.doorway_width_cells != 1 {
        push_fatal(
            diagnostics,
            "catalog_doorway_width_unsupported",
            owned(
                "Placement policy schemaVersion 1 supports doorwayWidthCells=1 only; wider openings require authoritative oriented-footprint routing.",
            ),
        );
    }
    if !policy.preserve_piece_boundaries {
        push_fatal(
            diagnostics,
            "catalog_piece_boundary_preservation_required",
            owned("Placement policy schemaVersion 1 requires preservePieceBoundaries=true."),
        );
    }
    assert(diagnostic_views(diagnostics@) =~= start + doorway_policy_diagnostics(*policy));
}

/// Appends the diagnostics of a placement policy.
pub fn validate_piece_placement_policy(policy: &PiecePlacementPolicy, diagnostics: &mut Vec<Diagnostic>)
    requires
        wall_thickness_in_range(policy.wall_thickness_cells),
    ensures
        diagnostic_views(final(diagnostics)@) == diagnostic_views(old(diagnostics)@)
            + placement_policy_diagnostics(*policy),
{
    let ghost start = diagnostic_views(diagnostics@);
    check_spacing_policy(policy, diagnostics);
    check_doorway_policy(policy, diagnostics);
    assert(diagnostic_views(diagnostics@) =~= start + placement_policy_diagnostics(*policy));
}

/// A search policy that is valid: schema 1, positive budgets, at most four
/// room rotations.
pub open spec fn search_policy_valid(p: CatalogSearchPolicy) -> bool {
    !(p.schema_version != 1 || p.max_decisions == 0 || p.max_backtracks == 0
        || p.max_chain_expansions_per_section == 0 || p.max_room_origin_alternatives == 0
        || p.max_room_rotation_alternatives == 0 || p.max_room_rotation_alternatives > 4)
}

pub open spec fn search_policy_diagnostics(p: CatalogSearchPolicy) -> Seq<DiagnosticView> {
    fatal_when(
        !search_policy_valid(p),
        "catalog_search_policy_invalid",
        "Catalog search policy must use schemaVersion 1 with positive bounded budgets and at most four 90-degree room rotations."@,
    )
}

/// Appends the diagnostic of an invalid search policy.
pub fn validate_catalog_search_policy(policy: &CatalogSearchPolicy, diagnostics: &mut Vec<Diagnostic>)
    ensures
        diagnostic_views(final(diagnostics)@) == diagnostic_views(old(diagnostics)@)
            + search_policy_diagnostics(*policy),
{
    if policy.schema_version != 1 || policy.max_decisions == 0 || policy.max_backtracks == 0
        || policy.max_chain_expansions_per_section == 0 || policy.max_room_origin_alternatives == 0
        || policy.max_room_rotation_alternatives == 0 || policy.max_room_rotation_alternatives > 4 {
        push_fatal(
            diagnostics,
            "catalog_search_policy_invalid",
            owned(
                "Catalog search policy must use schemaVersion 1 with positive bounded budgets and at most four 90-degree room rotations.",
            ),
        );
    }
    assert(diagnostic_views(diagnostics@) =~= diagnostic_views(old(diagnostics)@)
        + search_policy_diagnostics(*policy));
}


/// The texts of a list of lists, flattened in order.
pub open spec fn flatten_texts(ls: Seq<Seq<Seq<char>>>) -> Seq<Seq<char>>
    decreases ls.len(),
{
    if ls.len() == 0 {
        Seq::empty()
    } else {
        flatten_texts(ls.drop_last()) + ls.last()
    }
}

/// The kind of a scene socket's content, as its serialized tag names it.
pub open spec fn scene_content_kind(c: SceneSocketContent) -> &'static str {
    match c {
        SceneSocketContent::Prop { .. } => "prop",
        SceneSocketContent::PointLight { .. } => "point_light",
    }
}

pub open spec fn exit_directions_of(sh: CatalogShape) -> Seq<Seq<char>> {
    sh.exits@.map_values(|e: CatalogExit| e.direction@)
}

pub open spec fn socket_kinds_of(sh: CatalogShape) -> Seq<Seq<char>> {
    sh.feature_sockets@.map_values(|f: FeatureSocket| f.kind@)
}

pub open spec fn scene_kinds_of(sh: CatalogShape) -> Seq<Seq<char>> {
    sh.scene_sockets@.map_values(|s: SceneSocket| scene_content_kind(s.content)@)
}

/// The distinct piece kinds of all shapes, in order.
pub open spec fn catalog_piece_kinds(shapes: Seq<CatalogShape>) -> Seq<Seq<char>> {
    sorted_texts(flatten_texts(shapes.map_values(|sh: CatalogShape| texts(sh.piece_kinds@))).to_set())
}

pub open spec fn catalog_transforms(shapes: Seq<CatalogShape>) -> Seq<Seq<char>> {
    sorted_texts(
        flatten_texts(shapes.map_values(|sh: CatalogShape| texts(sh.allowed_transforms@))).to_set(),
    )
}

pub open spec fn catalog_exit_directions(shapes: Seq<CatalogShape>) -> Seq<Seq<char>> {
    sorted_texts(flatten_texts(shapes.map_values(|sh: CatalogShape| exit_directions_of(sh))).to_set())
}

pub open spec fn catalog_socket_kinds(shapes: Seq<CatalogShape>) -> Seq<Seq<char>> {
    sorted_texts(flatten_texts(shapes.map_values(|sh: CatalogShape| socket_kinds_of(sh))).to_set())
}

pub open spec fn catalog_scene_kinds(shapes: Seq<CatalogShape>) -> Seq<Seq<char>> {
    sorted_texts(flatten_texts(shapes.map_values(|sh: CatalogShape| scene_kinds_of(sh))).to_set())
}

pub open spec fn has_text(vs: Seq<Seq<char>>, t: &str) -> bool {
    exists|i: int| 0 <= i < vs.len() && #[trigger] vs[i] == t@
}

/// The diagnostics of the shape at `i`, in check order.
pub open spec fn shape_diagnostics(shapes: Seq<CatalogShape>, i: int) -> Seq<DiagnosticView> {
    let sh = shapes[i];
    let id = sh.shape_id@;
    fatal_when(
        exists|j: int| 0 <= j < i && #[trigger] shapes[j].shape_id@ == id,
        "catalog_shape_duplicate",
        "Duplicate shape id "@ + id + "."@,
    ) + fatal_when(
        sh.piece_kinds@.len() == 0,
        "catalog_shape_piece_kind_missing",
        "Shape "@ + id + " has no piece kinds."@,
    ) + fatal_when(
        sh.footprint@.len() == 0,
        "catalog_shape_footprint_missing",
        "Shape "@ + id + " has no footprint cells."@,
    ) + fatal_when(sh.exits@.len() == 0, "catalog_shape_exit_missing", "Shape "@ + id + " has no exits."@)
        + fatal_when(
        sh.allowed_transforms@.len() == 0,
        "catalog_shape_transform_missing",
        "Shape "@ + id + " has no allowed transforms."@,
    ) + fatal_when(
        has_text(texts(sh.piece_kinds@), "junction") && !has_text(texts(sh.tags@), "planned_junction"),
        "catalog_junction_ownership_tag_missing",
        "Junction shape "@ + id + " must be explicitly tagged planned_junction."@,
    )
}

pub open spec fn shapes_diagnostics(shapes: Seq<CatalogShape>, n: int) -> Seq<DiagnosticView>
    decreases n,
{
    if n <= 0 {
        Seq::empty()
    } else {
        shapes_diagnostics(shapes, n - 1) + shape_diagnostics(shapes, n - 1)
    }
}

/// Every diagnostic of a catalog, in check order.
pub open spec fn catalog_diagnostics(c: ShapeCatalog) -> Seq<DiagnosticView> {
    fatal_when(
        c.kind@ != SHAPE_CATALOG_KIND@,
        "catalog_kind_invalid",
        "Expected rusty_procgen.shape_catalog.v1, got "@ + c.kind@ + "."@,
    ) + fatal_when(c.cell_size <= 0, "catalog_cell_size_invalid", "Catalog cellSize must be positive."@)
        + placement_policy_diagnostics(c.placement_policy) + search_policy_diagnostics(
        c.catalog_search_policy,
    ) + shapes_diagnostics(c.shapes@, c.shapes@.len() as int)
}

/// `s` summarizes `sh`.
pub open spec fn summarizes(s: CatalogShapeSummary, sh: CatalogShape) -> bool {
    &&& s.shape_id@ == sh.shape_id@
    &&& texts(s.piece_kinds@) == texts(sh.piece_kinds@)
    &&& s.footprint_cells == sh.footprint@.len()
    &&& s.reserved_cells == sh.reserved_cells@.len()
    &&& s.exit_count == sh.exits@.len()
    &&& texts(s.feature_socket_kinds@) == sorted_texts(socket_kinds_of(sh).to_set())
    &&& s.scene_socket_count == sh.scene_sockets@.len()
    &&& texts(s.allowed_transforms@) == texts(sh.allowed_transforms@)
    &&& texts(s.tags@) == texts(sh.tags@)
}

/// A copy of a list of strings.
pub fn copy_texts(v: &Vec<String>) -> (r: Vec<String>)
    ensures
        texts(r@) == texts(v@),
{
    let mut r: Vec<String> = Vec::new();
    append_texts(&mut r, v);
    assert(texts(r@) =~= texts(v@));
    r
}

/// Appends copies of the strings of `items`.
pub fn append_texts(out: &mut Vec<String>, items: &Vec<String>)
    ensures
        texts(final(out)@) == texts(old(out)@) + texts(items@),
{
    let ghost start = texts(out@);
    let mut i: usize = 0;
    while i < items.len()
        invariant
            i <= items@.len(),
            out@.len() == start.len() + i,
            texts(out@) == start + texts(items@).take(i as int),
        decreases items@.len() - i,
    {
        let ghost prev = out@;
        let t = items[i].clone();
        out.push(t);
        proof {
            assert forall|m: int| 0 <= m < out@.len() implies #[trigger] texts(out@)[m] == (start
                + texts(items@).take(i + 1))[m] by {
                if m < prev.len() {
                    assert(out@[m] == prev[m]);
                    assert(texts(prev)[m] == (start + texts(items@).take(i as int))[m]);
                }
            }
        }
        i = i + 1;
        assert(texts(out@) =~= start + texts(items@).take(i as int));
    }
    assert(texts(items@).take(items@.len() as int) =~= texts(items@));
}

fn exit_directions(sh: &CatalogShape) -> (r: Vec<String>)
    ensures
        texts(r@) == exit_directions_of(*sh),
{
    let mut r: Vec<String> = Vec::new();
    let mut i: usize = 0;
    while i < sh.exits.len()
        invariant
            i <= sh.exits@.len(),
            texts(r@) =~= exit_directions_of(*sh).take(i as int),
            r@.len() == i,
        decreases sh.exits@.len() - i,
    {
        let ghost prev = r@;
        r.push(sh.exits[i].direction.clone());
        proof {
            assert forall|m: int| 0 <= m < r@.len() implies #[trigger] texts(r@)[m]
                == exit_directions_of(*sh).take(i + 1)[m] by {
                if m < prev.len() {
                    assert(r@[m] == prev[m]);
                    assert(texts(prev)[m] == exit_directions_of(*sh).take(i as int)[m]);
                }
            }
        }
        i = i + 1;
    }
    assert(exit_directions_of(*sh).take(sh.exits@.len() as int) =~= exit_directions_of(*sh));
    r
}

fn socket_kinds(sh: &CatalogShape) -> (r: Vec<String>)
    ensures
        texts(r@) == socket_kinds_of(*sh),
{
    let mut r: Vec<String> = Vec::new();
    let mut i: usize = 0;
    while i < sh.feature_sockets.len()
        invariant
            i <= sh.feature_sockets@.len(),
            texts(r@) =~= socket_kinds_of(*sh).take(i as int),
            r@.len() == i,
        decreases sh.feature_sockets@.len() - i,
    {
        let ghost prev = r@;
        r.push(sh.feature_sockets[i].kind.clone());
        proof {
            assert forall|m: int| 0 <= m < r@.len() implies #[trigger] texts(r@)[m]
                == socket_kinds_of(*sh).take(i + 1)[m] by {
                if m < prev.len() {
                    assert(r@[m] == prev[m]);
                    assert(texts(prev)[m] == socket_kinds_of(*sh).take(i as int)[m]);
                }
            }
        }
        i = i + 1;
    }
    assert(socket_kinds_of(*sh).take(sh.feature_sockets@.len() as int) =~= socket_kinds_of(*sh));
    r
}

fn scene_kind(c: &SceneSocketContent) -> (r: &'static str)
    ensures
        r == scene_content_kind(*c),
{
    match c {
        SceneSocketContent::Prop { .. } => "prop",
        SceneSocketContent::PointLight { .. } => "point_light",
    }
}

fn scene_kinds(sh: &CatalogShape) -> (r: Vec<String>)
    ensures
        texts(r@) == scene_kinds_of(*sh),
{
    let mut r: Vec<String> = Vec::new();
    let mut i: usize = 0;
    while i < sh.scene_sockets.len()
        invariant
            i <= sh.scene_sockets@.len(),
            texts(r@) =~= scene_kinds_of(*sh).take(i as int),
            r@.len() == i,
        decreases sh.scene_sockets@.len() - i,
    {
        let ghost prev = r@;
        r.push(owned(scene_kind(&sh.scene_sockets[i].content)));
        proof {
            assert forall|m: int| 0 <= m < r@.len() implies #[trigger] texts(r@)[m]
                == scene_kinds_of(*sh).take(i + 1)[m] by {
                if m < prev.len() {
                    assert(r@[m] == prev[m]);
                    assert(texts(prev)[m] == scene_kinds_of(*sh).take(i as int)[m]);
                }
            }
        }
        i = i + 1;
    }
    assert(scene_kinds_of(*sh).take(sh.scene_sockets@.len() as int) =~= scene_kinds_of(*sh));
    r
}

fn any_text(vs: &Vec<String>, t: &str) -> (r: bool)
    ensures
        r == has_text(texts(vs@), t),
{
    let mut i: usize = 0;
    while i < vs.len()
        invariant
            i <= vs@.len(),
            forall|j: int| 0 <= j < i ==> #[trigger] texts(vs@)[j] != t@,
        decreases vs@.len() - i,
    {
        if str_eq(vs[i].as_str(), t) {
            assert(texts(vs@)[i as int] == t@);
            return true;
        }
        i = i + 1;
    }
    false
}

fn shape_seen_before(shapes: &Vec<CatalogShape>, i: usize) -> (r: bool)
    requires
        i < shapes@.len(),
    ensures
        r == exists|j: int| 0 <= j < i && #[trigger] shapes@[j].shape_id@ == shapes@[i as int].shape_id@,
{
    let mut j: usize = 0;
    while j < i
        invariant
            j <= i < shapes@.len(),
            forall|k: int| 0 <= k < j ==> #[trigger] shapes@[k].shape_id@ != shapes@[i as int].shape_id@,
        decreases i - j,
    {
        if str_eq(shapes[j].shape_id.as_str(), shapes[i].shape_id.as_str()) {
            return true;
        }
        j = j + 1;
    }
    false
}

fn check_shape(diagnostics: &mut Vec<Diagnostic>, shapes: &Vec<CatalogShape>, i: usize)
    requires
        i < shapes@.len(),
    ensures
        diagnostic_views(final(diagnostics)@) == diagnostic_views(old(diagnostics)@)
            + shape_diagnostics(shapes@, i as int),
{
    let ghost start = diagnostic_views(diagnostics@);
    let sh = &shapes[i];
    let id = sh.shape_id.as_str();
    if shape_seen_before(shapes, i) {
        let mut d = owned("Duplicate shape id ");
        d.append(id);
        d.append(".");
        push_fatal(diagnostics, "catalog_shape_duplicate", d);
    }
    if sh.piece_kinds.len() == 0 {
        let mut d = owned("Shape ");
        d.append(id);
        d.append(" has no piece kinds.");
        push_fatal(diagnostics, "catalog_shape_piece_kind_missing", d);
    }
    if sh.footprint.len() == 0 {
        let mut d = owned("Shape ");
        d.append(id);
        d.append(" has no footprint cells.");
        push_fatal(diagnostics, "catalog_shape_footprint_missing", d);
    }
    if sh.exits.len() == 0 {
        let mut d = owned("Shape ");
        d.append(id);
        d.append(" has no exits.");
        push_fatal(diagnostics, "catalog_shape_exit_missing", d);
    }
    if sh.allowed_transforms.len() == 0 {
        let mut d = owned("Shape ");
        d.append(id);
        d.append(" has no allowed transforms.");
        push_fatal(diagnostics, "catalog_shape_transform_missing", d);
    }
    if any_text(&sh.piece_kinds, "junction") && !any_text(&sh.tags, "planned_junction") {
        let mut d = owned("Junction shape ");
        d.append(id);
        d.append(" must be explicitly tagged planned_junction.");
        push_fatal(diagnostics, "catalog_junction_ownership_tag_missing", d);
    }
    assert(diagnostic_views(diagnostics@) =~= start + shape_diagnostics(shapes@, i as int));
}

fn summarize_shape(sh: &CatalogShape) -> (s: CatalogShapeSummary)
    ensures
        summarizes(s, *sh),
{
    CatalogShapeSummary {
        shape_id: sh.shape_id.clone(),
        piece_kinds: copy_texts(&sh.piece_kinds),
        footprint_cells: sh.footprint.len(),
        reserved_cells: sh.reserved_cells.len(),
        exit_count: sh.exits.len(),
        feature_socket_kinds: dedupe_strings(socket_kinds(sh)),
        scene_socket_count: sh.scene_sockets.len(),
        allowed_transforms: copy_texts(&sh.allowed_transforms),
        tags: copy_texts(&sh.tags),
    }
}

/// Inspects a catalog: its diagnostics, the distinct piece kinds, feature
/// socket kinds, scene socket kinds, exit directions and transforms of all
/// its shapes, and a summary per shape.
pub fn inspect_shape_catalog(catalog: &ShapeCatalog, catalog_ref: &str) -> (r: CatalogInspectionReport)
    requires
        wall_thickness_in_range(catalog.placement_policy.wall_thickness_cells),
    ensures
        r.kind@ == "rusty_procgen.catalog_inspection.v1"@,
        r.schema_version == 1,
        r.catalog_id == catalog.catalog_id,
        r.catalog_ref@ == catalog_ref@,
        r.shape_count == catalog.shapes@.len(),
        r.placement_policy == catalog.placement_policy,
        r.catalog_search_policy == catalog.catalog_search_policy,
        texts(r.piece_kinds@) == catalog_piece_kinds(catalog.shapes@),
        texts(r.feature_sockets@) == catalog_socket_kinds(catalog.shapes@),
        texts(r.scene_socket_kinds@) == catalog_scene_kinds(catalog.shapes@),
        texts(r.exit_directions@) == catalog_exit_directions(catalog.shapes@),
        texts(r.transforms@) == catalog_transforms(catalog.shapes@),
        r.shapes@.len() == catalog.shapes@.len(),
        forall|i: int| 0 <= i < catalog.shapes@.len() ==> summarizes(#[trigger] r.shapes@[i], catalog.shapes@[i]),
        diagnostic_views(r.diagnostics@) == catalog_diagnostics(*catalog),
{
    let mut diagnostics: Vec<Diagnostic> = Vec::new();
    assert(diagnostic_views(diagnostics@) =~= Seq::<DiagnosticView>::empty());
    if !str_eq(catalog.kind.as_str(), SHAPE_CATALOG_KIND) {
        let mut d = owned("Expected rusty_procgen.shape_catalog.v1, got ");
        d.append(catalog.kind.as_str());
        d.append(".");
        push_fatal(&mut diagnostics, "catalog_kind_invalid", d);
    }
    if catalog.cell_size <= 0 {
        push_fatal(&mut diagnostics, "catalog_cell_size_invalid", owned("Catalog cellSize must be positive."));
    }
    validate_piece_placement_policy(&catalog.placement_policy, &mut diagnostics);
    validate_catalog_search_policy(&catalog.catalog_search_policy, &mut diagnostics);
    let ghost head = diagnostic_views(diagnostics@);
    let shapes = &catalog.shapes;
    let ghost sv = shapes@;
    let ghost kinds_of = sv.map_values(|sh: CatalogShape| texts(sh.piece_kinds@));
    let ghost transforms_of = sv.map_values(|sh: CatalogShape| texts(sh.allowed_transforms@));
    let ghost exits_of = sv.map_values(|sh: CatalogShape| exit_directions_of(sh));
    let ghost sockets_of = sv.map_values(|sh: CatalogShape| socket_kinds_of(sh));
    let ghost scenes_of = sv.map_values(|sh: CatalogShape| scene_kinds_of(sh));
    let mut kinds: Vec<String> = Vec::new();
    let mut transforms: Vec<String> = Vec::new();
    let mut exits: Vec<String> = Vec::new();
    let mut sockets: Vec<String> = Vec::new();
    let mut scenes: Vec<String> = Vec::new();
    let mut summaries: Vec<CatalogShapeSummary> = Vec::new();
    assert(texts(kinds@) =~= Seq::<Seq<char>>::empty());
    assert(texts(transforms@) =~= Seq::<Seq<char>>::empty());
    assert(texts(exits@) =~= Seq::<Seq<char>>::empty());
    assert(texts(sockets@) =~= Seq::<Seq<char>>::empty());
    assert(texts(scenes@) =~= Seq::<Seq<char>>::empty());
    let mut i: usize = 0;
    while i < shapes.len()
        invariant
            i <= sv.len(),
            sv == shapes@,
            shapes@ == catalog.shapes@,
            kinds_of == sv.map_values(|sh: CatalogShape| texts(sh.piece_kinds@)),
            transforms_of == sv.map_values(|sh: CatalogShape| texts(sh.allowed_transforms@)),
            exits_of == sv.map_values(|sh: CatalogShape| exit_directions_of(sh)),
            sockets_of == sv.map_values(|sh: CatalogShape| socket_kinds_of(sh)),
            scenes_of == sv.map_values(|sh: CatalogShape| scene_kinds_of(sh)),
            diagnostic_views(diagnostics@) == head + shapes_diagnostics(sv, i as int),
            texts(kinds@) == flatten_texts(kinds_of.take(i as int)),
            texts(transforms@) == flatten_texts(transforms_of.take(i as int)),
            texts(exits@) == flatten_texts(exits_of.take(i as int)),
            texts(sockets@) == flatten_texts(sockets_of.take(i as int)),
            texts(scenes@) == flatten_texts(scenes_of.take(i as int)),
            summaries@.len() == i,
            forall|k: int| 0 <= k < i ==> summarizes(#[trigger] summaries@[k], sv[k]),
        decreases sv.len() - i,
    {
        check_shape(&mut diagnostics, shapes, i);
        let sh = &shapes[i];
        proof {
            assert(kinds_of.take(i + 1).drop_last() =~= kinds_of.take(i as int));
            assert(transforms_of.take(i + 1).drop_last() =~= transforms_of.take(i as int));
            assert(exits_of.take(i + 1).drop_last() =~= exits_of.take(i as int));
            assert(sockets_of.take(i + 1).drop_last() =~= sockets_of.take(i as int));
            assert(scenes_of.take(i + 1).drop_last() =~= scenes_of.take(i as int));
        }
        append_texts(&mut kinds, &sh.piece_kinds);
        append_texts(&mut transforms, &sh.allowed_transforms);
        let ex = exit_directions(sh);
        append_texts(&mut exits, &ex);
        let so = socket_kinds(sh);
        append_texts(&mut sockets, &so);
        let sc = scene_kinds(sh);
        append_texts(&mut scenes, &sc);
        summaries.push(summarize_shape(sh));
        i = i + 1;
    }
    proof {
        assert(kinds_of.take(sv.len() as int) =~= kinds_of);
        assert(transforms_of.take(sv.len() as int) =~= transforms_of);
        assert(exits_of.take(sv.len() as int) =~= exits_of);
        assert(sockets_of.take(sv.len() as int) =~= sockets_of);
        assert(scenes_of.take(sv.len() as int) =~= scenes_of);
    }
    assert(diagnostic_views(diagnostics@) =~= catalog_diagnostics(*catalog));
    CatalogInspectionReport {
        kind: owned("rusty_procgen.catalog_inspection.v1"),
        schema_version: 1,
        catalog_id: catalog.catalog_id.clone(),
        catalog_ref: owned(catalog_ref),
        shape_count: catalog.shapes.len(),
        placement_policy: catalog.placement_policy,
        catalog_search_policy: catalog.catalog_search_policy,
        piece_kinds: dedupe_strings(kinds),
        feature_sockets: dedupe_strings(sockets),
        scene_socket_kinds: dedupe_strings(scenes),
        exit_directions: dedupe_strings(exits),
        transforms: dedupe_strings(transforms),
        shapes: summaries,
        diagnostics,
    }
}

} // verus!
