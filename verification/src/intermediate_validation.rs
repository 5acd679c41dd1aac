//! The checks an intermediate breakdown must pass: start and goal regions,
//! complete geometry preparation, bound connectors with the affordances
//! their intents promise, and no vertical or 3D claim.

use vstd::prelude::*;
use vstd::string::*;
use vstd::utf8::encode_utf8;

use crate::graph::{diagnostic_views, fatal, opt_lit, Diagnostic, DiagnosticView};
use crate::intermediate::{
    breakdown_json, connector_views, hash_breakdown, region_views, ConnectorView,
    IntermediateBreakdown, IntermediateConnector, IntermediateRegion, RegionView, ValidationReport,
};
use crate::json::hash_of;
use crate::model::{owned, texts, Severity};
use crate::text::str_eq;

verus! {

/// `needle` occurs in `hay` as a contiguous run of bytes.
pub open spec fn contains_bytes(hay: Seq<u8>, needle: Seq<u8>) -> bool {
    exists|i: int|
        0 <= i && i + needle.len() <= hay.len() && #[trigger] hay.subrange(i, i + needle.len())
            == needle
}

/// `needle` occurs in `hay` (as `str::contains` tests it, on UTF-8 bytes).
pub open spec fn text_contains(hay: Seq<char>, needle: &str) -> bool {
    contains_bytes(encode_utf8(hay), needle.spec_bytes())
}

fn matches_at(h: &[u8], n: &[u8], i: usize) -> (r: bool)
    requires
        i + n@.len() <= h@.len(),
    ensures
        r == (h@.subrange(i as int, i + n@.len()) == n@),
{
    let hl = h.len();
    let mut j: usize = 0;
    while j < n.len()
        invariant
            hl == h@.len(),
            i + n@.len() <= h@.len(),
            j <= n@.len(),
            forall|m: int| 0 <= m < j ==> h@[i + m] == n@[m],
        decreases n@.len() - j,
    {
        if h[i + j] != n[j] {
            assert(h@.subrange(i as int, i + n@.len())[j as int] != n@[j as int]);
            return false;
        }
        j = j + 1;
    }
    assert(h@.subrange(i as int, i + n@.len()) =~= n@);
    true
}

/// Whether `hay` holds `needle`.
pub fn str_contains(hay: &str, needle: &str) -> (r: bool)
    ensures
        r == contains_bytes(hay.spec_bytes(), needle.spec_bytes()),
{
    let h = hay.as_bytes();
    let n = needle.as_bytes();
    if n.len() > h.len() {
        assert forall|i: int| 0 <= i && i + n@.len() <= h@.len() implies #[trigger] h@.subrange(
            i,
            i + n@.len(),
        ) != n@ by {}
        return false;
    }
    let hl = h.len();
    let last = hl - n.len();
    let mut i: usize = 0;
    while i <= last
        invariant
            hl == h@.len(),
            h@ == hay.spec_bytes(),
            n@ == needle.spec_bytes(),
            last == h@.len() - n@.len(),
            i <= last + 1,
            forall|k: int| 0 <= k < i ==> #[trigger] h@.subrange(k, k + n@.len()) != n@,
        decreases last + 1 - i,
    {
        if matches_at(h, n, i) {
            return true;
        }
        assert(n@.len() > 0) by {
            if n@.len() == 0 {
                assert(h@.subrange(i as int, i as int) =~= n@);
            }
        }
        i = i + 1;
    }
    assert forall|k: int| 0 <= k && k + n@.len() <= h@.len() implies #[trigger] h@.subrange(
        k,
        k + n@.len(),
    ) != n@ by {
        assert(k < i);
    }
    false
}

/// A value that claims vertical or 3D geometry.
pub open spec fn claims_3d(v: Seq<char>) -> bool {
    text_contains(v, "vertical") || text_contains(v, "3d") || text_contains(v, "three_d")
        || text_contains(v, "stair") || text_contains(v, "shaft")
}

pub fn contains_unsupported_3d_claim(value: &str) -> (r: bool)
    ensures
        r == claims_3d(value@),
{
    str_contains(value, "vertical") || str_contains(value, "3d") || str_contains(value, "three_d")
        || str_contains(value, "stair") || str_contains(value, "shaft")
}

pub open spec fn any_claims_3d(vs: Seq<Seq<char>>) -> bool {
    exists|i: int| 0 <= i < vs.len() && #[trigger] claims_3d(vs[i])
}

fn any_unsupported_3d_claim(vs: &Vec<String>) -> (r: bool)
    ensures
        r == any_claims_3d(texts(vs@)),
{
    let mut i: usize = 0;
    while i < vs.len()
        invariant
            i <= vs@.len(),
            forall|j: int| 0 <= j < i ==> !claims_3d(#[trigger] texts(vs@)[j]),
        decreases vs@.len() - i,
    {
        if contains_unsupported_3d_claim(vs[i].as_str()) {
            assert(claims_3d(texts(vs@)[i as int]));
            return true;
        }
        i = i + 1;
    }
    false
}

pub open spec fn region_claims_3d(r: RegionView) -> bool {
    claims_3d(r.geometry_role) || claims_3d(r.footprint_class) || claims_3d(r.scale_band)
        || any_claims_3d(r.entrance_expectations)
}

pub open spec fn connector_claims_3d(c: ConnectorView) -> bool {
    any_claims_3d(c.affordances) || claims_3d(c.traversal_hint)
}

pub fn region_has_unsupported_3d_claim(region: &IntermediateRegion) -> (r: bool)
    ensures
        r == region_claims_3d(region@),
{
    contains_unsupported_3d_claim(region.geometry_role.as_str()) || contains_unsupported_3d_claim(
        region.footprint_class.as_str(),
    ) || contains_unsupported_3d_claim(region.scale_band.as_str()) || any_unsupported_3d_claim(
        &region.entrance_expectations,
    )
}

pub fn connector_has_unsupported_3d_claim(connector: &IntermediateConnector) -> (r: bool)
    ensures
        r == connector_claims_3d(connector@),
{
    any_unsupported_3d_claim(&connector.affordances) || contains_unsupported_3d_claim(
        connector.traversal_hint.as_str(),
    )
}

/// A fatal diagnostic without a repair hint.
pub open spec fn fatal_view(
    code: &str,
    node: Option<Seq<char>>,
    edge: Option<Seq<char>>,
    detail: &str,
) -> DiagnosticView {
    DiagnosticView {
        code: code@,
        severity: Severity::Fatal,
        node,
        edge,
        detail: detail@,
        repair_hint: None,
    }
}

/// `d` if `c` holds, else nothing.
pub open spec fn when(c: bool, d: DiagnosticView) -> Seq<DiagnosticView> {
    if c {
        seq![d]
    } else {
        Seq::empty()
    }
}

pub open spec fn has_text(vs: Seq<Seq<char>>, t: &str) -> bool {
    exists|i: int| 0 <= i < vs.len() && #[trigger] vs[i] == t@
}

pub open spec fn first_node(r: RegionView) -> Option<Seq<char>> {
    if r.node_ids.len() > 0 {
        Some(r.node_ids[0])
    } else {
        None
    }
}

/// The diagnostics of one region, in check order.
pub open spec fn region_diagnostics(r: RegionView) -> Seq<DiagnosticView> {
    let node = first_node(r);
    when(
        r.geometry_role.len() == 0 || r.footprint_class.len() == 0 || r.scale_band.len() == 0
            || r.anchor_quality.len() == 0,
        fatal_view(
            "intermediate_region_geometry_prep_missing",
            node,
            None,
            "Region is missing geometry-prep role, footprint, scale, or anchor quality.",
        ),
    ) + when(
        !(r.scale_band == ""@ || r.scale_band == "small"@ || r.scale_band == "medium"@
            || r.scale_band == "large"@),
        fatal_view(
            "intermediate_region_scale_invalid",
            node,
            None,
            "Region scale band must be small, medium, or large.",
        ),
    ) + when(
        r.role == "landmark_hub"@ && r.anchor_node is None,
        fatal_view(
            "intermediate_anchor_missing",
            node,
            None,
            "Landmark hub region must declare an anchor node.",
        ),
    ) + when(
        r.role == "landmark_hub"@ && r.geometry_role != "landmark_junction"@,
        fatal_view(
            "intermediate_landmark_geometry_role_missing",
            node,
            None,
            "Landmark hub region must preserve a landmark geometry role.",
        ),
    ) + when(
        region_claims_3d(r),
        fatal_view(
            "intermediate_3d_claim_unsupported",
            node,
            None,
            "Region declares vertical or 3D geometry before a geometry-capable schema exists.",
        ),
    )
}

pub open spec fn has_region(regions: Seq<RegionView>, id: Seq<char>) -> bool {
    exists|i: int| 0 <= i < regions.len() && #[trigger] regions[i].id == id
}

pub open spec fn refs_contain(vs: Seq<Seq<char>>, needle: &str) -> bool {
    exists|i: int| 0 <= i < vs.len() && #[trigger] text_contains(vs[i], needle)
}

/// The binding checks of a connector: edge, endpoints, affordances, hint.
pub open spec fn connector_binding_diagnostics(c: ConnectorView, regions: Seq<RegionView>) -> Seq<
    DiagnosticView,
> {
    let edge = Some(c.id);
    when(
        c.edge_id.len() == 0,
        fatal_view(
            "intermediate_connector_unbound",
            None,
            edge,
            "Connector must be bound to a graph edge id.",
        ),
    ) + when(
        !has_region(regions, c.from_region) || !has_region(regions, c.to_region),
        fatal_view(
            "intermediate_connector_endpoint_missing",
            None,
            edge,
            "Connector references a missing source or target region.",
        ),
    ) + when(
        c.affordances.len() == 0,
        fatal_view(
            "intermediate_connector_affordance_missing",
            None,
            edge,
            "Connector must declare at least one geometry-prep affordance.",
        ),
    ) + when(
        c.traversal_hint.len() == 0,
        fatal_view(
            "intermediate_connector_traversal_hint_missing",
            None,
            edge,
            "Connector must declare a traversal hint.",
        ),
    )
}

/// The intent checks of a connector: constraints and affordances that its
/// intents promise, and no vertical claim.
pub open spec fn connector_intent_diagnostics(c: ConnectorView) -> Seq<DiagnosticView> {
    let edge = Some(c.id);
    when(
        (has_text(c.intents, "visible_before_reachable") || has_text(c.intents, "gated_connector"))
            && !(refs_contain(c.constraint_refs, "preserve_lock_preview") || refs_contain(
            c.constraint_refs,
            "preserve_gated_connector",
        )),
        fatal_view(
            "intermediate_gated_constraint_missing",
            None,
            edge,
            "Gated connectors must preserve lock preview or gated connector constraints.",
        ),
    ) + when(
        has_text(c.intents, "hidden_route") && !has_text(c.affordances, "hidden_passage"),
        fatal_view(
            "intermediate_hidden_affordance_missing",
            None,
            edge,
            "Hidden routes must declare a hidden_passage affordance.",
        ),
    ) + when(
        has_text(c.intents, "shortcut_connector") && !has_text(c.affordances, "shortcut_link"),
        fatal_view(
            "intermediate_shortcut_affordance_missing",
            None,
            edge,
            "Shortcut connectors must declare a shortcut_link affordance.",
        ),
    ) + when(
        has_text(c.intents, "one_way_drop") && !has_text(c.affordances, "one_way_return"),
        fatal_view(
            "intermediate_one_way_affordance_missing",
            None,
            edge,
            "One-way connectors must declare a one_way_return affordance.",
        ),
    ) + when(
        has_text(c.intents, "vertical_candidate"),
        fatal_view(
            "intermediate_vertical_candidate_unsupported",
            None,
            edge,
            "Vertical candidates require a later geometry-capable schema.",
        ),
    ) + when(
        connector_claims_3d(c),
        fatal_view(
            "intermediate_3d_claim_unsupported",
            None,
            edge,
            "Connector declares vertical or 3D geometry before a geometry-capable schema exists.",
        ),
    )
}

/// The diagnostics of one connector, in check order.
pub open spec fn connector_diagnostics(c: ConnectorView, regions: Seq<RegionView>) -> Seq<
    DiagnosticView,
> {
    connector_binding_diagnostics(c, regions) + connector_intent_diagnostics(c)
}

pub open spec fn regions_diagnostics(rs: Seq<RegionView>) -> Seq<DiagnosticView>
    decreases rs.len(),
{
    if rs.len() == 0 {
        Seq::empty()
    } else {
        regions_diagnostics(rs.drop_last()) + region_diagnostics(rs.last())
    }
}

pub open spec fn connectors_diagnostics(cs: Seq<ConnectorView>, regions: Seq<RegionView>) -> Seq<
    DiagnosticView,
>
    decreases cs.len(),
{
    if cs.len() == 0 {
        Seq::empty()
    } else {
        connectors_diagnostics(cs.drop_last(), regions) + connector_diagnostics(cs.last(), regions)
    }
}

pub open spec fn has_role(regions: Seq<RegionView>, role: &str) -> bool {
    exists|i: int| 0 <= i < regions.len() && #[trigger] regions[i].role == role@
}

/// Every diagnostic of a breakdown, in check order.
pub open spec fn intermediate_diagnostics(
    regions: Seq<RegionView>,
    connectors: Seq<ConnectorView>,
) -> Seq<DiagnosticView> {
    when(
        !has_role(regions, "start"),
        fatal_view(
            "intermediate_start_missing",
            Some("start"@),
            None,
            "Intermediate breakdown must contain a start region.",
        ),
    ) + when(
        !has_role(regions, "goal"),
        fatal_view(
            "intermediate_goal_missing",
            Some("goal"@),
            None,
            "Intermediate breakdown must contain a goal region.",
        ),
    ) + regions_diagnostics(regions) + connectors_diagnostics(connectors, regions)
}

fn push_diag(diags: &mut Vec<Diagnostic>, d: Diagnostic)
    ensures
        diagnostic_views(final(diags)@) == diagnostic_views(old(diags)@).push(d@),
        final(diags)@ == old(diags)@.push(d),
{
    let ghost v = d@;
    diags.push(d);
    assert(diagnostic_views(diags@) =~= diagnostic_views(old(diags)@).push(v));
}

pub fn any_text(vs: &Vec<String>, t: &str) -> (r: bool)
    ensures
        r == has_text(texts(vs@), t),
{
    let mut i: usize = 0;
    while i < vs.len()
        invariant
            i <= vs@.len(),
            forall|j: int| 0 <= j < i ==> #[trigger] texts(vs@)[j] != t@,
        decreases vs@.len() - i,
    {
        if str_eq(vs[i].as_str(), t) {
            assert(texts(vs@)[i as int] == t@);
            return true;
        }
        i = i + 1;
    }
    false
}

fn any_contains(vs: &Vec<String>, needle: &str) -> (r: bool)
    ensures
        r == refs_contain(texts(vs@), needle),
{
    let mut i: usize = 0;
    while i < vs.len()
        invariant
            i <= vs@.len(),
            forall|j: int| 0 <= j < i ==> !text_contains(#[trigger] texts(vs@)[j], needle),
        decreases vs@.len() - i,
    {
        if str_contains(vs[i].as_str(), needle) {
            assert(text_contains(texts(vs@)[i as int], needle));
            return true;
        }
        i = i + 1;
    }
    false
}

fn region_exists(regions: &Vec<IntermediateRegion>, id: &String) -> (r: bool)
    ensures
        r == has_region(region_views(regions@), id@),
{
    let mut i: usize = 0;
    while i < regions.len()
        invariant
            i <= regions@.len(),
            forall|j: int| 0 <= j < i ==> #[trigger] region_views(regions@)[j].id != id@,
        decreases regions@.len() - i,
    {
        if str_eq(regions[i].id.as_str(), id.as_str()) {
            assert(region_views(regions@)[i as int].id == id@);
            return true;
        }
        i = i + 1;
    }
    false
}

fn role_exists(regions: &Vec<IntermediateRegion>, role: &str) -> (r: bool)
    ensures
        r == has_role(region_views(regions@), role),
{
    let mut i: usize = 0;
    while i < regions.len()
        invariant
            i <= regions@.len(),
            forall|j: int| 0 <= j < i ==> #[trigger] region_views(regions@)[j].role != role@,
        decreases regions@.len() - i,
    {
        if str_eq(regions[i].role.as_str(), role) {
            assert(region_views(regions@)[i as int].role == role@);
            return true;
        }
        i = i + 1;
    }
    false
}

fn check_region(diags: &mut Vec<Diagnostic>, region: &IntermediateRegion)
    requires
        forall|i: int| 0 <= i < old(diags)@.len() ==> #[trigger] old(diags)@[i].severity == Severity::Fatal,
    ensures
        forall|i: int| 0 <= i < final(diags)@.len() ==> #[trigger] final(diags)@[i].severity == Severity::Fatal,
        diagnostic_views(final(diags)@) == diagnostic_views(old(diags)@) + region_diagnostics(
            region@,
        ),
{
    let ghost start = diagnostic_views(diags@);
    let node: Option<&str> = if region.node_ids.len() > 0 {
        Some(region.node_ids[0].as_str())
    } else {
        None
    };
    assert(opt_lit(node) == first_node(region@));
    if region.geometry_role.as_str().is_empty() || region.footprint_class.as_str().is_empty()
        || region.scale_band.as_str().is_empty() || region.anchor_quality.as_str().is_empty() {
        push_diag(
            diags,
            fatal(
                "intermediate_region_geometry_prep_missing",
                node,
                None,
                "Region is missing geometry-prep role, footprint, scale, or anchor quality.",
            ),
        );
    }
    let ghost d1 = diagnostic_views(diags@);
    let scale = region.scale_band.as_str();
    if !(str_eq(scale, "") || str_eq(scale, "small") || str_eq(scale, "medium") || str_eq(
        scale,
        "large",
    )) {
        push_diag(
            diags,
            fatal(
                "intermediate_region_scale_invalid",
                node,
                None,
                "Region scale band must be small, medium, or large.",
            ),
        );
    }
    let ghost d2 = diagnostic_views(diags@);
    let hub = str_eq(region.role.as_str(), "landmark_hub");
    if hub && region.anchor_node.is_none() {
        push_diag(
            diags,
            fatal(
                "intermediate_anchor_missing",
                node,
                None,
                "Landmark hub region must declare an anchor node.",
            ),
        );
    }
    let ghost d3 = diagnostic_views(diags@);
    if hub && !str_eq(region.geometry_role.as_str(), "landmark_junction") {
        push_diag(
            diags,
            fatal(
                "intermediate_landmark_geometry_role_missing",
                node,
                None,
                "Landmark hub region must preserve a landmark geometry role.",
            ),
        );
    }
    let ghost d4 = diagnostic_views(diags@);
    if region_has_unsupported_3d_claim(region) {
        push_diag(
            diags,
            fatal(
                "intermediate_3d_claim_unsupported",
                node,
                None,
                "Region declares vertical or 3D geometry before a geometry-capable schema exists.",
            ),
        );
    }
    assert(diagnostic_views(diags@) =~= start + region_diagnostics(region@));
}

fn check_connector_binding(
    diags: &mut Vec<Diagnostic>,
    connector: &IntermediateConnector,
    regions: &Vec<IntermediateRegion>,
)
    requires
        forall|i: int| 0 <= i < old(diags)@.len() ==> #[trigger] old(diags)@[i].severity == Severity::Fatal,
    ensures
        forall|i: int| 0 <= i < final(diags)@.len() ==> #[trigger] final(diags)@[i].severity == Severity::Fatal,
        diagnostic_views(final(diags)@) == diagnostic_views(old(diags)@) + connector_binding_diagnostics(
            connector@,
            region_views(regions@),
        ),
{
    let ghost start = diagnostic_views(diags@);
    let edge: Option<&str> = Some(connector.id.as_str());
    if connector.edge_id.as_str().is_empty() {
        push_diag(
            diags,
            fatal(
                "intermediate_connector_unbound",
                None,
                edge,
                "Connector must be bound to a graph edge id.",
            ),
        );
    }
    if !region_exists(regions, &connector.from_region) || !region_exists(
        regions,
        &connector.to_region,
    ) {
        push_diag(
            diags,
            fatal(
                "intermediate_connector_endpoint_missing",
                None,
                edge,
                "Connector references a missing source or target region.",
            ),
        );
    }
    if connector.affordances.len() == 0 {
        push_diag(
            diags,
            fatal(
                "intermediate_connector_affordance_missing",
                None,
                edge,
                "Connector must declare at least one geometry-prep affordance.",
            ),
        );
    }
    if connector.traversal_hint.as_str().is_empty() {
        push_diag(
            diags,
            fatal(
                "intermediate_connector_traversal_hint_missing",
                None,
                edge,
                "Connector must declare a traversal hint.",
            ),
        );
    }
    assert(diagnostic_views(diags@) =~= start + connector_binding_diagnostics(
        connector@,
        region_views(regions@),
    ));
}

fn check_connector_intents(
    diags: &mut Vec<Diagnostic>,
    connector: &IntermediateConnector,
)
    requires
        forall|i: int| 0 <= i < old(diags)@.len() ==> #[trigger] old(diags)@[i].severity == Severity::Fatal,
    ensures
        forall|i: int| 0 <= i < final(diags)@.len() ==> #[trigger] final(diags)@[i].severity == Severity::Fatal,
        diagnostic_views(final(diags)@) == diagnostic_views(old(diags)@) + connector_intent_diagnostics(connector@),
{
    let ghost start = diagnostic_views(diags@);
    let edge: Option<&str> = Some(connector.id.as_str());
    if (any_text(&connector.intents, "visible_before_reachable") || any_text(
        &connector.intents,
        "gated_connector",
    )) && !(any_contains(&connector.constraint_refs, "preserve_lock_preview") || any_contains(
        &connector.constraint_refs,
        "preserve_gated_connector",
    )) {
        push_diag(
            diags,
            fatal(
                "intermediate_gated_constraint_missing",
                None,
                edge,
                "Gated connectors must preserve lock preview or gated connector constraints.",
            ),
        );
    }
    if any_text(&connector.intents, "hidden_route") && !any_text(
        &connector.affordances,
        "hidden_passage",
    ) {
        push_diag(
            diags,
            fatal(
                "intermediate_hidden_affordance_missing",
                None,
                edge,
                "Hidden routes must declare a hidden_passage affordance.",
            ),
        );
    }
    if any_text(&connector.intents, "shortcut_connector") && !any_text(
        &connector.affordances,
        "shortcut_link",
    ) {
        push_diag(
            diags,
            fatal(
                "intermediate_shortcut_affordance_missing",
                None,
                edge,
                "Shortcut connectors must declare a shortcut_link affordance.",
            ),
        );
    }
    if any_text(&connector.intents, "one_way_drop") && !any_text(
        &connector.affordances,
        "one_way_return",
    ) {
        push_diag(
            diags,
            fatal(
                "intermediate_one_way_affordance_missing",
                None,
                edge,
                "One-way connectors must declare a one_way_return affordance.",
            ),
        );
    }
    if any_text(&connector.intents, "vertical_candidate") {
        push_diag(
            diags,
            fatal(
                "intermediate_vertical_candidate_unsupported",
                None,
                edge,
                "Vertical candidates require a later geometry-capable schema.",
            ),
        );
    }
    if connector_has_unsupported_3d_claim(connector) {
        push_diag(
            diags,
            fatal(
                "intermediate_3d_claim_unsupported",
                None,
                edge,
                "Connector declares vertical or 3D geometry before a geometry-capable schema exists.",
            ),
        );
    }
    assert(diagnostic_views(diags@) =~= start + connector_intent_diagnostics(connector@));
}

fn check_connector(
    diags: &mut Vec<Diagnostic>,
    connector: &IntermediateConnector,
    regions: &Vec<IntermediateRegion>,
)
    requires
        forall|i: int| 0 <= i < old(diags)@.len() ==> #[trigger] old(diags)@[i].severity == Severity::Fatal,
    ensures
        forall|i: int| 0 <= i < final(diags)@.len() ==> #[trigger] final(diags)@[i].severity == Severity::Fatal,
        diagnostic_views(final(diags)@) == diagnostic_views(old(diags)@) + connector_diagnostics(
            connector@,
            region_views(regions@),
        ),
{
    let ghost start = diagnostic_views(diags@);
    check_connector_binding(diags, connector, regions);
    check_connector_intents(diags, connector);
    assert(diagnostic_views(diags@) =~= start + connector_diagnostics(
        connector@,
        region_views(regions@),
    ));
}

/// Checks a breakdown: each diagnostic of `intermediate_diagnostics`, the
/// count of fatal ones, and the breakdown's state hash.
pub fn validate_intermediate_breakdown(breakdown: &IntermediateBreakdown) -> (r: ValidationReport)
    ensures
        r.kind@ == "rusty_procgen.validation.intermediate.v1"@,
        r.schema_version == 1,
        r.state_hash@ == hash_of(breakdown_json(*breakdown)),
        diagnostic_views(r.diagnostics@) == intermediate_diagnostics(
            region_views(breakdown.regions@),
            connector_views(breakdown.connectors@),
        ),
        forall|i: int|
            0 <= i < r.diagnostics@.len() ==> #[trigger] r.diagnostics@[i].severity
                == Severity::Fatal,
        r.fatal_count == r.diagnostics@.len(),
        r.ok == (r.fatal_count == 0),
{
    let ghost rv = region_views(breakdown.regions@);
    let ghost cv = connector_views(breakdown.connectors@);
    let mut diags: Vec<Diagnostic> = Vec::new();
    assert(diagnostic_views(diags@) =~= Seq::<DiagnosticView>::empty());
    if !role_exists(&breakdown.regions, "start") {
        push_diag(
            &mut diags,
            fatal(
                "intermediate_start_missing",
                Some("start"),
                None,
                "Intermediate breakdown must contain a start region.",
            ),
        );
    }
    if !role_exists(&breakdown.regions, "goal") {
        push_diag(
            &mut diags,
            fatal(
                "intermediate_goal_missing",
                Some("goal"),
                None,
                "Intermediate breakdown must contain a goal region.",
            ),
        );
    }
    let ghost head = diagnostic_views(diags@);
    let mut i: usize = 0;
    while i < breakdown.regions.len()
        invariant
            i <= breakdown.regions@.len(),
            rv == region_views(breakdown.regions@),
            diagnostic_views(diags@) == head + regions_diagnostics(rv.take(i as int)),
            forall|j: int| 0 <= j < diags@.len() ==> #[trigger] diags@[j].severity == Severity::Fatal,
        decreases breakdown.regions@.len() - i,
    {
        check_region(&mut diags, &breakdown.regions[i]);
        proof {
            assert(rv.take(i + 1).drop_last() =~= rv.take(i as int));
            assert(rv[i as int] == breakdown.regions@[i as int]@);
        }
        i = i + 1;
        assert(diagnostic_views(diags@) =~= head + regions_diagnostics(rv.take(i as int)));
    }
    assert(rv.take(rv.len() as int) =~= rv);
    let ghost mid = diagnostic_views(diags@);
    let mut k: usize = 0;
    while k < breakdown.connectors.len()
        invariant
            k <= breakdown.connectors@.len(),
            rv == region_views(breakdown.regions@),
            cv == connector_views(breakdown.connectors@),
            diagnostic_views(diags@) == mid + connectors_diagnostics(cv.take(k as int), rv),
            forall|j: int| 0 <= j < diags@.len() ==> #[trigger] diags@[j].severity == Severity::Fatal,
        decreases breakdown.connectors@.len() - k,
    {
        check_connector(&mut diags, &breakdown.connectors[k], &breakdown.regions);
        proof {
            assert(cv.take(k + 1).drop_last() =~= cv.take(k as int));
            assert(cv[k as int] == breakdown.connectors@[k as int]@);
        }
        k = k + 1;
        assert(diagnostic_views(diags@) =~= mid + connectors_diagnostics(cv.take(k as int), rv));
    }
    assert(cv.take(cv.len() as int) =~= cv);
    assert(diagnostic_views(diags@) =~= intermediate_diagnostics(rv, cv));
    let fatal_count = diags.len();
    ValidationReport {
        kind: owned("rusty_procgen.validation.intermediate.v1"),
        schema_version: 1,
        state_hash: hash_breakdown(breakdown),
        ok: fatal_count == 0,
        fatal_count,
        diagnostics: diags,
    }
}

} // verus!
