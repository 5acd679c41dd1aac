//! The in-memory facade: typed values in, typed values out, no file read or
//! written.

use vstd::prelude::*;
use vstd::string::*;

use crate::candidate::{create_initial_candidate, fork_candidate, fork_id, fork_step, initial_candidate_id, initial_edges, initial_nodes};
use crate::geometry_policy::{
    default_geometry_layout_policy, policy_check, validate_geometry_layout_policy,
    GeometryLayoutPolicy, GEOMETRY_LAYOUT_POLICY_KIND,
};
use crate::graph::Diagnostic;
use crate::graph_reports::{all_rules, compatibility, compatible_rules_report, RuleCompatibilityReport};
use crate::json::{candidate_json, hash_of};
use crate::graph::diagnostic_views;
use crate::intermediate::{breakdown_json, connector_views, region_views, IntermediateBreakdown, ValidationReport};
use crate::intermediate_validation::{intermediate_diagnostics, validate_intermediate_breakdown};
use crate::model::{texts, Severity};
use crate::catalog::{
    catalog_diagnostics, catalog_exit_directions, catalog_piece_kinds, catalog_scene_kinds,
    catalog_socket_kinds, catalog_transforms, inspect_shape_catalog, summarizes,
    wall_thickness_in_range, CatalogInspectionReport, ShapeCatalog,
};
use crate::breakdown::{breakdown_spec, intermediate_breakdown};
use crate::geometry::{geometry_json, Geometry2dArtifact};
use crate::geometry_validation::{geometry_checkable, geometry_diagnostics, validate_geometry_2d};
use crate::connection_plan::{
    plan_physical_connections, plan_result_view, plan_spec, PhysicalConnectionPlan,
};
use crate::spatial::{annotation_views, edge_annotations, node_annotations, spatial_intent_report, SpatialIntentReport};
use crate::model::{edge_views, node_views, opt_text, provenance_views, Candidate, SeedIntent};

verus! {

/// Whether a requested transformation was accepted.
#[derive(Clone, Copy, Debug, PartialEq, Eq, Structural)]
pub enum RuleDisposition {
    /// The rule was applied and the returned candidate includes provenance.
    Accepted,
    /// The rule was rejected and the returned candidate equals the input.
    Rejected,
}

/// The result of applying one graph rule without changing the caller's
/// candidate.
#[derive(Clone, Debug)]
pub struct RuleApplication {
    pub disposition: RuleDisposition,
    pub candidate: Candidate,
    pub diagnostics: Vec<Diagnostic>,
}

impl RuleApplication {
    pub fn accepted(&self) -> (r: bool)
        ensures
            r == (self.disposition == RuleDisposition::Accepted),
    {
        self.disposition == RuleDisposition::Accepted
    }
}

/// Stateless entry point for deterministic in-memory operations.
#[derive(Clone, Copy, Debug, Default)]
pub struct ProcgenCore;

impl ProcgenCore {
    /// The initial candidate of a seed intent.
    pub fn create_candidate(intent: &SeedIntent, seed: u64) -> (c: Candidate)
        ensures
            c.kind@ == "rusty_procgen.candidate.v1"@,
            c.schema_version == 1,
            c.candidate_id@ == initial_candidate_id(intent.id@, seed),
            c.seed == seed,
            c.dimension_model@ == "topology_graph"@,
            opt_text(c.source_intent) == Some(intent.id@),
            c.provenance@.len() == 0,
            node_views(c.graph.nodes@) == initial_nodes(),
            edge_views(c.graph.edges@) == initial_edges(),
    {
        create_initial_candidate(intent, seed)
    }

    /// A fork of a candidate under a new label and seed.
    pub fn fork_candidate(candidate: Candidate, label: &str, seed: u64) -> (c: Candidate)
        requires
            candidate.provenance@.len() < u32::MAX,
        ensures
            c.candidate_id@ == fork_id(candidate.candidate_id@, label@, seed),
            c.seed == seed,
            provenance_views(c.provenance@) == provenance_views(candidate.provenance@).push(
                fork_step(
                    (candidate.provenance@.len() + 1) as u32,
                    candidate.candidate_id@,
                    label@,
                    seed,
                ),
            ),
            c.kind == candidate.kind,
            c.schema_version == candidate.schema_version,
            c.dimension_model == candidate.dimension_model,
            c.source_intent == candidate.source_intent,
            c.graph == candidate.graph,
    {
        fork_candidate(candidate, label, seed)
    }

    /// The default geometry layout policy.
    pub fn default_geometry_policy() -> (p: GeometryLayoutPolicy)
        ensures
            p.kind@ == GEOMETRY_LAYOUT_POLICY_KIND@,
            p.schema_version == 1,
            p.initial_room_margin == 96,
            p.initial_column_gap == 144,
            p.initial_row_gap == 64,
            p.room_margin_growth == 48,
            p.column_gap_growth == 72,
            p.row_gap_growth == 40,
            p.max_spacing_tiers == 5,
            p.room_order_attempts_per_tier == 4,
            p.max_search_attempts == 80,
    {
        default_geometry_layout_policy()
    }

    /// Checks a geometry layout policy.
    pub fn validate_geometry_policy(layout_policy: &GeometryLayoutPolicy) -> (r: Result<
        (),
        String,
    >)
        ensures
            match r {
                Ok(()) => policy_check(*layout_policy) is Ok,
                Err(m) => policy_check(*layout_policy) == Err::<(), Seq<char>>(m@),
            },
    {
        validate_geometry_layout_policy(layout_policy)
    }

    /// The compatibility of every graph rule with a candidate.
    pub fn compatible_rules(candidate: &Candidate) -> (r: Result<RuleCompatibilityReport, String>)
        ensures
            r matches Ok(report) && {
                &&& report.kind@ == "rusty_procgen.rule_compatibility.v1"@
                &&& report.schema_version == 1
                &&& report.candidate_id == candidate.candidate_id
                &&& report.state_hash@ == hash_of(candidate_json(*candidate))
                &&& report.rules@.len() == all_rules().len()
                &&& forall|i: int|
                    0 <= i < all_rules().len() ==> #[trigger] report.rules@[i]@ == compatibility(
                        node_views(candidate.graph.nodes@),
                        edge_views(candidate.graph.edges@),
                        all_rules()[i],
                    )
            },
    {
        compatible_rules_report(candidate)
    }

    /// Checks an intermediate breakdown.
    pub fn validate_intermediate(breakdown: &IntermediateBreakdown) -> (r: ValidationReport)
        ensures
            r.kind@ == "rusty_procgen.validation.intermediate.v1"@,
            r.schema_version == 1,
            r.state_hash@ == hash_of(breakdown_json(*breakdown)),
            diagnostic_views(r.diagnostics@) == intermediate_diagnostics(
                region_views(breakdown.regions@),
                connector_views(breakdown.connectors@),
            ),
            forall|i: int|
                0 <= i < r.diagnostics@.len() ==> #[trigger] r.diagnostics@[i].severity
                    == Severity::Fatal,
            r.fatal_count == r.diagnostics@.len(),
            r.ok == (r.fatal_count == 0),
    {
        validate_intermediate_breakdown(breakdown)
    }

    /// The spatial intent of a candidate's nodes and edges.
    pub fn annotate_spatial_intent(candidate: &Candidate) -> (r: Result<SpatialIntentReport, String>)
        ensures
            r matches Ok(report) && {
                &&& report.kind@ == "rusty_procgen.spatial_intent.v1"@
                &&& report.schema_version == 1
                &&& report.candidate_id == candidate.candidate_id
                &&& report.state_hash@ == hash_of(candidate_json(*candidate))
                &&& report.analysis_ref is None
                &&& annotation_views(report.annotations@) == node_annotations(
                    node_views(candidate.graph.nodes@),
                ) + edge_annotations(edge_views(candidate.graph.edges@))
            },
    {
        spatial_intent_report(candidate, None)
    }

    /// The intermediate breakdown of a candidate under its spatial intent.
    pub fn breakdown(candidate: &Candidate, annotations: &SpatialIntentReport) -> (r: Result<
        IntermediateBreakdown,
        String,
    >)
        ensures
            r matches Ok(b) && breakdown_spec(
                *candidate,
                annotations.annotations@,
                "memory/spatial-intent.json"@,
                b,
            ),
    {
        intermediate_breakdown(candidate, annotations, "memory/spatial-intent.json")
    }

    /// The physical connection plan of a candidate and its intermediate
    /// breakdown.
    pub fn plan_connections(candidate: &Candidate, intermediate: &IntermediateBreakdown) -> (r:
        Result<PhysicalConnectionPlan, String>)
        ensures
            plan_result_view(r) == plan_spec(
                candidate.candidate_id@,
                edge_views(candidate.graph.edges@),
                intermediate.candidate_id@,
                connector_views(intermediate.connectors@),
                "memory/candidate.json"@,
                "memory/intermediate.json"@,
            ),
    {
        plan_physical_connections(
            candidate,
            intermediate,
            "memory/candidate.json",
            "memory/intermediate.json",
        )
    }

    /// The validation report of a geometry artifact.
    pub fn validate_geometry(geometry: &Geometry2dArtifact) -> (r: ValidationReport)
        requires
            geometry_checkable(*geometry),
        ensures
            r.kind@ == "rusty_procgen.validation.geometry_2d.v1"@,
            r.schema_version == 1,
            r.state_hash@ == hash_of(geometry_json(*geometry)),
            diagnostic_views(r.diagnostics@) == geometry_diagnostics(*geometry),
            r.fatal_count == r.diagnostics@.len(),
            r.ok == (r.fatal_count == 0),
    {
        validate_geometry_2d(geometry)
    }

    /// Inspects a shape catalog.
    pub fn inspect_catalog(catalog: &ShapeCatalog) -> (r: CatalogInspectionReport)
        requires
            wall_thickness_in_range(catalog.placement_policy.wall_thickness_cells),
        ensures
            r.kind@ == "rusty_procgen.catalog_inspection.v1"@,
            r.schema_version == 1,
            r.catalog_id == catalog.catalog_id,
            r.catalog_ref@ == "memory/shape-catalog.json"@,
            r.shape_count == catalog.shapes@.len(),
            r.placement_policy == catalog.placement_policy,
            r.catalog_search_policy == catalog.catalog_search_policy,
            texts(r.piece_kinds@) == catalog_piece_kinds(catalog.shapes@),
            texts(r.feature_sockets@) == catalog_socket_kinds(catalog.shapes@),
            texts(r.scene_socket_kinds@) == catalog_scene_kinds(catalog.shapes@),
            texts(r.exit_directions@) == catalog_exit_directions(catalog.shapes@),
            texts(r.transforms@) == catalog_transforms(catalog.shapes@),
            r.shapes@.len() == catalog.shapes@.len(),
            forall|i: int|
                0 <= i < catalog.shapes@.len() ==> summarizes(
                    #[trigger] r.shapes@[i],
                    catalog.shapes@[i],
                ),
            diagnostic_views(r.diagnostics@) == catalog_diagnostics(*catalog),
    {
        inspect_shape_catalog(catalog, "memory/shape-catalog.json")
    }
}

} // verus!
