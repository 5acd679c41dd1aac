//! The catalog-aware generation policy and the judgement of a validated
//! outcome: its metrics, the hard constraints it misses, how it compares
//! with the incumbent, and the evidence an attempt leaves.

use std::cmp::Ordering;

use vstd::prelude::*;
use vstd::string::*;

use crate::catalog::GridCell;
use crate::model::owned;
use crate::text::{dec_text, push_dec_text, str_eq};

verus! {

pub const CATALOG_AWARE_POLICY_KIND: &'static str = "rusty_procgen.catalog_aware_generation_policy.v2";

#[derive(Clone, Copy, Debug, PartialEq, Eq, Structural)]
pub struct CatalogAwareOutcomeConstraints {
    pub max_placement_width_cells: u64,
    pub max_placement_height_cells: u64,
    pub max_placement_area_cells: u64,
    pub max_routed_catalog_cells: u64,
}

impl Default for CatalogAwareOutcomeConstraints {
    fn default() -> (r: Self)
        ensures
            r == (CatalogAwareOutcomeConstraints {
                max_placement_width_cells: 4_096,
                max_placement_height_cells: 4_096,
                max_placement_area_cells: 16_777_216,
                max_routed_catalog_cells: 1_048_576,
            }),
    {
        CatalogAwareOutcomeConstraints {
            max_placement_width_cells: 4_096,
            max_placement_height_cells: 4_096,
            max_placement_area_cells: 16_777_216,
            max_routed_catalog_cells: 1_048_576,
        }
    }
}

#[derive(Clone, Copy, Debug, PartialEq, Eq, Structural)]
pub enum CatalogAwareOutcomeMetric {
    PlacementSpan,
    PlacementArea,
    RoutedCatalogCells,
}

#[derive(Clone, Copy, Debug, PartialEq, Eq, Structural)]
pub struct CatalogAwareOutcomePreferences {
    pub primary_metric: CatalogAwareOutcomeMetric,
    pub preferred_maximum: u64,
}

impl Default for CatalogAwareOutcomePreferences {
    fn default() -> (r: Self)
        ensures
            r == (CatalogAwareOutcomePreferences {
                primary_metric: CatalogAwareOutcomeMetric::PlacementSpan,
                preferred_maximum: 286,
            }),
    {
        CatalogAwareOutcomePreferences {
            primary_metric: CatalogAwareOutcomeMetric::PlacementSpan,
            preferred_maximum: 286,
        }
    }
}

#[derive(Clone, Debug)]
pub struct CatalogAwareGenerationPolicy {
    pub kind: String,
    pub schema_version: u32,
    pub max_generation_attempts: u32,
    pub initial_room_compaction_cells: i32,
    pub room_compaction_growth_cells: i32,
    pub max_room_candidates: u32,
    pub max_routing_states_per_section: u32,
    pub route_margin_cells: i32,
    pub guide_distance_weight: u32,
    pub turn_penalty: u32,
    pub outcome_constraints: CatalogAwareOutcomeConstraints,
    pub outcome_preferences: CatalogAwareOutcomePreferences,
}

#[derive(Clone, Copy, Debug, PartialEq, Eq, Structural)]
pub struct CatalogAwareOutcomeMetrics {
    pub placement_width_cells: u64,
    pub placement_height_cells: u64,
    pub placement_span_cells: u64,
    pub placement_area_cells: u64,
    pub routed_catalog_cells: u64,
    pub route_bends: u64,
    pub routing_states: u64,
}

#[derive(Clone, Debug)]
pub struct CatalogAwareConstraintMiss {
    pub metric: String,
    pub actual: u64,
    pub limit: u64,
}

#[derive(Clone, Debug)]
pub struct CatalogAwareOutcomeComparison {
    pub incumbent_attempt: Option<u32>,
    pub ordering: String,
    pub decisive_metric: String,
}

#[derive(Clone, Debug)]
pub struct CatalogAwareOutcomeEvaluation {
    pub metrics: CatalogAwareOutcomeMetrics,
    pub constraint_misses: Vec<CatalogAwareConstraintMiss>,
    pub admissible: bool,
    pub preference_satisfied: bool,
    pub comparison: CatalogAwareOutcomeComparison,
}

#[derive(Clone, Debug)]
pub struct CatalogAwareAttemptEvidence {
    pub attempt: u32,
    pub room_compaction_cells: i32,
    pub classification: String,
    pub stage: String,
    pub detail: String,
    pub rooms_placed: usize,
    pub sections_routed: usize,
    pub routing_states: u32,
    pub outcome: Option<CatalogAwareOutcomeEvaluation>,
}

/// Stable artifact labels that a catalog-aware run copies into provenance.
#[derive(Clone, Debug)]
pub struct CatalogAwareGenerationProvenance {
    pub candidate_ref: String,
    pub geometry_ref: String,
    pub piece_plan_ref: String,
    pub catalog_ref: String,
    pub result_ref: String,
}

/// `v` capped to the `i32` range from above.
pub open spec fn sat_i32(v: int) -> int {
    if v > i32::MAX {
        i32::MAX as int
    } else {
        v
    }
}

/// The compaction the last attempt would use.
pub open spec fn final_compaction(p: CatalogAwareGenerationPolicy) -> int {
    sat_i32(
        p.initial_room_compaction_cells + sat_i32(
            p.room_compaction_growth_cells * (p.max_generation_attempts - 1),
        ),
    )
}

/// The first bound a catalog-aware policy breaks, if any.
pub open spec fn catalog_policy_check(p: CatalogAwareGenerationPolicy) -> Result<(), Seq<char>> {
    let c = p.outcome_constraints;
    if p.kind@ != CATALOG_AWARE_POLICY_KIND@ || p.schema_version != 2 {
        Err("unsupported catalog-aware generation policy"@)
    } else if p.max_generation_attempts == 0 || p.max_generation_attempts > 16 {
        Err("maxGenerationAttempts must be from 1 through 16"@)
    } else if p.initial_room_compaction_cells < 0 || p.room_compaction_growth_cells < 0
        || final_compaction(p) > 128 {
        Err("catalog-aware room compaction must remain from 0 through 128 cells"@)
    } else if p.max_room_candidates == 0 || p.max_room_candidates > 64 {
        Err("maxRoomCandidates must be from 1 through 64"@)
    } else if p.max_routing_states_per_section < 100 || p.max_routing_states_per_section
        > 1_000_000 {
        Err("maxRoutingStatesPerSection must be from 100 through 1000000"@)
    } else if p.route_margin_cells < 8 || p.route_margin_cells > 256 {
        Err("routeMarginCells must be from 8 through 256"@)
    } else if c.max_placement_width_cells == 0 || c.max_placement_width_cells > 4_294_967_296 {
        Err("maxPlacementWidthCells must be from 1 through 4294967296"@)
    } else if c.max_placement_height_cells == 0 || c.max_placement_height_cells > 4_294_967_296 {
        Err("maxPlacementHeightCells must be from 1 through 4294967296"@)
    } else if c.max_placement_area_cells == 0 || c.max_placement_area_cells
        > 9_007_199_254_740_991 {
        Err("maxPlacementAreaCells must be from 1 through 9007199254740991"@)
    } else if c.max_routed_catalog_cells == 0 || c.max_routed_catalog_cells > 1_048_576 {
        Err("maxRoutedCatalogCells must be from 1 through 1048576"@)
    } else if p.outcome_preferences.preferred_maximum == 0 || p.outcome_preferences.preferred_maximum
        > 9_007_199_254_740_991 {
        Err("preferredMaximum must be from 1 through 9007199254740991"@)
    } else {
        Ok(())
    }
}

fn err_text(s: &str) -> (r: Result<(), String>)
    ensures
        r matches Err(e) && e@ == s@,
{
    Err(owned(s))
}

/// Checks a catalog-aware policy against its bounds.
pub fn validate_catalog_aware_policy(policy: &CatalogAwareGenerationPolicy) -> (r: Result<
    (),
    String,
>)
    ensures
        match r {
            Ok(()) => catalog_policy_check(*policy) is Ok,
            Err(e) => catalog_policy_check(*policy) == Err::<(), Seq<char>>(e@),
        },
{
    let p = policy;
    let c = &p.outcome_constraints;
    if !str_eq(p.kind.as_str(), CATALOG_AWARE_POLICY_KIND) || p.schema_version != 2 {
        return err_text("unsupported catalog-aware generation policy");
    }
    if p.max_generation_attempts == 0 || p.max_generation_attempts > 16 {
        return err_text("maxGenerationAttempts must be from 1 through 16");
    }
    if p.initial_room_compaction_cells < 0 || p.room_compaction_growth_cells < 0 {
        return err_text("catalog-aware room compaction must remain from 0 through 128 cells");
    }
    let steps: i64 = (p.max_generation_attempts - 1) as i64;
    let growth: i64 = p.room_compaction_growth_cells as i64;
    assert(growth * steps <= 0x7fff_ffff * 15) by (nonlinear_arith)
        requires
            0 <= growth <= 0x7fff_ffff,
            0 <= steps <= 15,
    ;
    assert(growth * steps >= 0) by (nonlinear_arith)
        requires
            0 <= growth,
            0 <= steps,
    ;
    let grown: i64 = growth * steps;
    let grown_sat: i64 = if grown > 0x7fff_ffff {
        0x7fff_ffff
    } else {
        grown
    };
    let total: i64 = p.initial_room_compaction_cells as i64 + grown_sat;
    let total_sat: i64 = if total > 0x7fff_ffff {
        0x7fff_ffff
    } else {
        total
    };
    assert(total_sat == final_compaction(*p));
    if total_sat > 128 {
        return err_text("catalog-aware room compaction must remain from 0 through 128 cells");
    }
    if p.max_room_candidates == 0 || p.max_room_candidates > 64 {
        return err_text("maxRoomCandidates must be from 1 through 64");
    }
    if p.max_routing_states_per_section < 100 || p.max_routing_states_per_section > 1_000_000 {
        return err_text("maxRoutingStatesPerSection must be from 100 through 1000000");
    }
    if p.route_margin_cells < 8 || p.route_margin_cells > 256 {
        return err_text("routeMarginCells must be from 8 through 256");
    }
    if c.max_placement_width_cells == 0 || c.max_placement_width_cells > 4_294_967_296 {
        return err_text("maxPlacementWidthCells must be from 1 through 4294967296");
    }
    if c.max_placement_height_cells == 0 || c.max_placement_height_cells > 4_294_967_296 {
        return err_text("maxPlacementHeightCells must be from 1 through 4294967296");
    }
    if c.max_placement_area_cells == 0 || c.max_placement_area_cells > 9_007_199_254_740_991 {
        return err_text("maxPlacementAreaCells must be from 1 through 9007199254740991");
    }
    if c.max_routed_catalog_cells == 0 || c.max_routed_catalog_cells > 1_048_576 {
        return err_text("maxRoutedCatalogCells must be from 1 through 1048576");
    }
    if p.outcome_preferences.preferred_maximum == 0 || p.outcome_preferences.preferred_maximum
        > 9_007_199_254_740_991 {
        return err_text("preferredMaximum must be from 1 through 9007199254740991");
    }
    Ok(())
}

/// The metrics of an outcome from its parts: span is width plus height,
/// area is width times height; an error when either overflows.
pub open spec fn metrics_from_parts_spec(w: u64, h: u64, routed: u64, bends: u64, states: u64) -> Result<
    CatalogAwareOutcomeMetrics,
    Seq<char>,
> {
    if w + h > u64::MAX {
        Err("placement span arithmetic overflowed"@)
    } else if w * h > u64::MAX {
        Err("placement area arithmetic overflowed"@)
    } else {
        Ok(
            CatalogAwareOutcomeMetrics {
                placement_width_cells: w,
                placement_height_cells: h,
                placement_span_cells: (w + h) as u64,
                placement_area_cells: (w * h) as u64,
                routed_catalog_cells: routed,
                route_bends: bends,
                routing_states: states,
            },
        )
    }
}

pub fn catalog_outcome_metrics_from_parts(
    placement_width_cells: u64,
    placement_height_cells: u64,
    routed_catalog_cells: u64,
    route_bends: u64,
    routing_states: u64,
) -> (r: Result<CatalogAwareOutcomeMetrics, String>)
    ensures
        match r {
            Ok(m) => metrics_from_parts_spec(
                placement_width_cells,
                placement_height_cells,
                routed_catalog_cells,
                route_bends,
                routing_states,
            ) == Ok::<CatalogAwareOutcomeMetrics, Seq<char>>(m),
            Err(e) => metrics_from_parts_spec(
                placement_width_cells,
                placement_height_cells,
                routed_catalog_cells,
                route_bends,
                routing_states,
            ) == Err::<CatalogAwareOutcomeMetrics, Seq<char>>(e@),
        },
{
    let span = match placement_width_cells.checked_add(placement_height_cells) {
        Some(s) => s,
        None => return Err(owned("placement span arithmetic overflowed")),
    };
    let area = match placement_width_cells.checked_mul(placement_height_cells) {
        Some(a) => a,
        None => return Err(owned("placement area arithmetic overflowed")),
    };
    Ok(
        CatalogAwareOutcomeMetrics {
            placement_width_cells,
            placement_height_cells,
            placement_span_cells: span,
            placement_area_cells: area,
            routed_catalog_cells,
            route_bends,
            routing_states,
        },
    )
}

/// The width (or height) of a placement: the extent of its cells, 0
/// without cells.
pub open spec fn extent(vs: Seq<i32>) -> nat {
    if vs.len() == 0 {
        0
    } else {
        (max_of(vs) - min_of(vs) + 1) as nat
    }
}

pub open spec fn max_of(vs: Seq<i32>) -> int
    decreases vs.len(),
{
    if vs.len() <= 1 {
        if vs.len() == 1 {
            vs[0] as int
        } else {
            0
        }
    } else {
        let m = max_of(vs.drop_last());
        if vs.last() > m {
            vs.last() as int
        } else {
            m
        }
    }
}

pub open spec fn min_of(vs: Seq<i32>) -> int
    decreases vs.len(),
{
    if vs.len() <= 1 {
        if vs.len() == 1 {
            vs[0] as int
        } else {
            0
        }
    } else {
        let m = min_of(vs.drop_last());
        if vs.last() < m {
            vs.last() as int
        } else {
            m
        }
    }
}

pub open spec fn xs_of(cells: Seq<GridCell>) -> Seq<i32> {
    cells.map_values(|c: GridCell| c.x)
}

pub open spec fn ys_of(cells: Seq<GridCell>) -> Seq<i32> {
    cells.map_values(|c: GridCell| c.y)
}

proof fn lemma_min_le_max(vs: Seq<i32>)
    requires
        vs.len() > 0,
    ensures
        min_of(vs) <= max_of(vs),
        i32::MIN <= min_of(vs),
        max_of(vs) <= i32::MAX,
    decreases vs.len(),
{
    if vs.len() > 1 {
        lemma_min_le_max(vs.drop_last());
    }
}

fn extent_of(vs: &Vec<i32>) -> (r: u64)
    ensures
        r == extent(vs@),
{
    if vs.len() == 0 {
        return 0;
    }
    let mut lo: i32 = vs[0];
    let mut hi: i32 = vs[0];
    let mut i: usize = 1;
    assert(vs@.take(1) =~= seq![vs@[0]]);
    while i < vs.len()
        invariant
            1 <= i <= vs@.len(),
            lo == min_of(vs@.take(i as int)),
            hi == max_of(vs@.take(i as int)),
        decreases vs@.len() - i,
    {
        proof {
            assert(vs@.take(i + 1).drop_last() =~= vs@.take(i as int));
            assert(vs@.take(i + 1).last() == vs@[i as int]);
        }
        if vs[i] > hi {
            hi = vs[i];
        }
        if vs[i] < lo {
            lo = vs[i];
        }
        i = i + 1;
    }
    assert(vs@.take(i as int) =~= vs@);
    proof {
        lemma_min_le_max(vs@);
    }
    ((hi as i64) - (lo as i64) + 1) as u64
}

/// The metrics of a validated outcome from its placement's occupied cells
/// and its routing totals.
pub fn catalog_outcome_metrics(
    occupied_cells: &Vec<GridCell>,
    routed_catalog_cells: u64,
    route_bends: u64,
    routing_states: u32,
) -> (r: Result<CatalogAwareOutcomeMetrics, String>)
    ensures
        match r {
            Ok(m) => metrics_from_parts_spec(
                extent(xs_of(occupied_cells@)) as u64,
                extent(ys_of(occupied_cells@)) as u64,
                routed_catalog_cells,
                route_bends,
                routing_states as u64,
            ) == Ok::<CatalogAwareOutcomeMetrics, Seq<char>>(m),
            Err(e) => metrics_from_parts_spec(
                extent(xs_of(occupied_cells@)) as u64,
                extent(ys_of(occupied_cells@)) as u64,
                routed_catalog_cells,
                route_bends,
                routing_states as u64,
            ) == Err::<CatalogAwareOutcomeMetrics, Seq<char>>(e@),
        },
{
    let mut xs: Vec<i32> = Vec::new();
    let mut ys: Vec<i32> = Vec::new();
    let mut i: usize = 0;
    while i < occupied_cells.len()
        invariant
            i <= occupied_cells@.len(),
            xs@ == xs_of(occupied_cells@).take(i as int),
            ys@ == ys_of(occupied_cells@).take(i as int),
        decreases occupied_cells@.len() - i,
    {
        xs.push(occupied_cells[i].x);
        ys.push(occupied_cells[i].y);
        i = i + 1;
        assert(xs@ =~= xs_of(occupied_cells@).take(i as int));
        assert(ys@ =~= ys_of(occupied_cells@).take(i as int));
    }
    assert(xs_of(occupied_cells@).take(i as int) =~= xs_of(occupied_cells@));
    assert(ys_of(occupied_cells@).take(i as int) =~= ys_of(occupied_cells@));
    let w = extent_of(&xs);
    let h = extent_of(&ys);
    catalog_outcome_metrics_from_parts(w, h, routed_catalog_cells, route_bends, routing_states as u64)
}

/// The hard constraints a metric set misses, in the order width, height,
/// area, routed cells.
pub open spec fn constraint_misses_spec(m: CatalogAwareOutcomeMetrics, c: CatalogAwareOutcomeConstraints) -> Seq<
    (Seq<char>, u64, u64),
> {
    (if m.placement_width_cells > c.max_placement_width_cells {
        seq![("placement_width_cells"@, m.placement_width_cells, c.max_placement_width_cells)]
    } else {
        Seq::empty()
    }) + (if m.placement_height_cells > c.max_placement_height_cells {
        seq![("placement_height_cells"@, m.placement_height_cells, c.max_placement_height_cells)]
    } else {
        Seq::empty()
    }) + (if m.placement_area_cells > c.max_placement_area_cells {
        seq![("placement_area_cells"@, m.placement_area_cells, c.max_placement_area_cells)]
    } else {
        Seq::empty()
    }) + (if m.routed_catalog_cells > c.max_routed_catalog_cells {
        seq![("routed_catalog_cells"@, m.routed_catalog_cells, c.max_routed_catalog_cells)]
    } else {
        Seq::empty()
    })
}

pub open spec fn miss_views(v: Seq<CatalogAwareConstraintMiss>) -> Seq<(Seq<char>, u64, u64)> {
    v.map_values(|m: CatalogAwareConstraintMiss| (m.metric@, m.actual, m.limit))
}

fn push_miss(out: &mut Vec<CatalogAwareConstraintMiss>, metric: &str, actual: u64, limit: u64)
    ensures
        miss_views(final(out)@) == miss_views(old(out)@).push((metric@, actual, limit)),
{
    out.push(CatalogAwareConstraintMiss { metric: owned(metric), actual, limit });
    assert(miss_views(out@) =~= miss_views(old(out)@).push((metric@, actual, limit)));
}

/// The hard constraints that the metrics exceed.
pub fn catalog_outcome_constraint_misses(
    metrics: &CatalogAwareOutcomeMetrics,
    constraints: &CatalogAwareOutcomeConstraints,
) -> (r: Vec<CatalogAwareConstraintMiss>)
    ensures
        miss_views(r@) == constraint_misses_spec(*metrics, *constraints),
{
    let mut out: Vec<CatalogAwareConstraintMiss> = Vec::new();
    assert(miss_views(out@) =~= Seq::<(Seq<char>, u64, u64)>::empty());
    if metrics.placement_width_cells > constraints.max_placement_width_cells {
        push_miss(
            &mut out,
            "placement_width_cells",
            metrics.placement_width_cells,
            constraints.max_placement_width_cells,
        );
    }
    if metrics.placement_height_cells > constraints.max_placement_height_cells {
        push_miss(
            &mut out,
            "placement_height_cells",
            metrics.placement_height_cells,
            constraints.max_placement_height_cells,
        );
    }
    if metrics.placement_area_cells > constraints.max_placement_area_cells {
        push_miss(
            &mut out,
            "placement_area_cells",
            metrics.placement_area_cells,
            constraints.max_placement_area_cells,
        );
    }
    if metrics.routed_catalog_cells > constraints.max_routed_catalog_cells {
        push_miss(
            &mut out,
            "routed_catalog_cells",
            metrics.routed_catalog_cells,
            constraints.max_routed_catalog_cells,
        );
    }
    assert(miss_views(out@) =~= constraint_misses_spec(*metrics, *constraints));
    out
}

/// The value of a named metric, 0 for an unknown name.
pub open spec fn metric_value_spec(m: CatalogAwareOutcomeMetrics, name: Seq<char>) -> u64 {
    if name == "placement_span_cells"@ {
        m.placement_span_cells
    } else if name == "placement_area_cells"@ {
        m.placement_area_cells
    } else if name == "routed_catalog_cells"@ {
        m.routed_catalog_cells
    } else if name == "route_bends"@ {
        m.route_bends
    } else if name == "routing_states"@ {
        m.routing_states
    } else {
        0
    }
}

pub fn catalog_outcome_metric_value(metrics: &CatalogAwareOutcomeMetrics, metric: &str) -> (r: u64)
    ensures
        r == metric_value_spec(*metrics, metric@),
{
    if str_eq(metric, "placement_span_cells") {
        metrics.placement_span_cells
    } else if str_eq(metric, "placement_area_cells") {
        metrics.placement_area_cells
    } else if str_eq(metric, "routed_catalog_cells") {
        metrics.routed_catalog_cells
    } else if str_eq(metric, "route_bends") {
        metrics.route_bends
    } else if str_eq(metric, "routing_states") {
        metrics.routing_states
    } else {
        0
    }
}

pub open spec fn primary_name(metric: CatalogAwareOutcomeMetric) -> &'static str {
    match metric {
        CatalogAwareOutcomeMetric::PlacementSpan => "placement_span_cells",
        CatalogAwareOutcomeMetric::PlacementArea => "placement_area_cells",
        CatalogAwareOutcomeMetric::RoutedCatalogCells => "routed_catalog_cells",
    }
}

/// The name of the metric an outcome preference ranks by first.
pub fn catalog_primary_metric_name(metric: CatalogAwareOutcomeMetric) -> (r: &'static str)
    ensures
        r == primary_name(metric),
{
    match metric {
        CatalogAwareOutcomeMetric::PlacementSpan => "placement_span_cells",
        CatalogAwareOutcomeMetric::PlacementArea => "placement_area_cells",
        CatalogAwareOutcomeMetric::RoutedCatalogCells => "routed_catalog_cells",
    }
}

/// The metrics in the order they decide a comparison.
pub open spec fn metric_order(primary: CatalogAwareOutcomeMetric) -> Seq<Seq<char>> {
    match primary {
        CatalogAwareOutcomeMetric::PlacementSpan => seq![
            "placement_span_cells"@,
            "placement_area_cells"@,
            "routed_catalog_cells"@,
            "route_bends"@,
            "routing_states"@,
        ],
        CatalogAwareOutcomeMetric::PlacementArea => seq![
            "placement_area_cells"@,
            "placement_span_cells"@,
            "routed_catalog_cells"@,
            "route_bends"@,
            "routing_states"@,
        ],
        CatalogAwareOutcomeMetric::RoutedCatalogCells => seq![
            "routed_catalog_cells"@,
            "placement_span_cells"@,
            "placement_area_cells"@,
            "route_bends"@,
            "routing_states"@,
        ],
    }
}

/// Whether the contender is smaller, equal or larger.
pub open spec fn order_u64(a: u64, b: u64) -> Ordering {
    if a < b {
        Ordering::Less
    } else if a == b {
        Ordering::Equal
    } else {
        Ordering::Greater
    }
}

/// The first metric in `names` on which the two differ, and how; `Equal`
/// and `attempt_order` when none does.
pub open spec fn decide(
    contender: CatalogAwareOutcomeMetrics,
    incumbent: CatalogAwareOutcomeMetrics,
    names: Seq<Seq<char>>,
) -> (Ordering, Seq<char>)
    decreases names.len(),
{
    if names.len() == 0 {
        (Ordering::Equal, "attempt_order"@)
    } else if metric_value_spec(contender, names[0]) != metric_value_spec(incumbent, names[0]) {
        (
            order_u64(metric_value_spec(contender, names[0]), metric_value_spec(incumbent, names[0])),
            names[0],
        )
    } else {
        decide(contender, incumbent, names.drop_first())
    }
}

fn order_names(primary: CatalogAwareOutcomeMetric) -> (r: Vec<&'static str>)
    ensures
        r@.map_values(|s: &'static str| s@) == metric_order(primary),
{
    let r = match primary {
        CatalogAwareOutcomeMetric::PlacementSpan => vec![
            "placement_span_cells",
            "placement_area_cells",
            "routed_catalog_cells",
            "route_bends",
            "routing_states",
        ],
        CatalogAwareOutcomeMetric::PlacementArea => vec![
            "placement_area_cells",
            "placement_span_cells",
            "routed_catalog_cells",
            "route_bends",
            "routing_states",
        ],
        CatalogAwareOutcomeMetric::RoutedCatalogCells => vec![
            "routed_catalog_cells",
            "placement_span_cells",
            "placement_area_cells",
            "route_bends",
            "routing_states",
        ],
    };
    assert(r@.map_values(|s: &'static str| s@) =~= metric_order(primary));
    r
}

/// The metric names from position `i` on.
pub open spec fn names_from(all: Seq<Seq<char>>, i: usize) -> Seq<Seq<char>> {
    all.skip(i as int)
}

proof fn lemma_names_start(all: Seq<Seq<char>>)
    ensures
        names_from(all, 0) == all,
{
    assert(all.skip(0) =~= all);
}

proof fn lemma_names_step(names: Seq<&'static str>, all: Seq<Seq<char>>, i: usize)
    requires
        names.map_values(|s: &'static str| s@) == all,
        i < names.len(),
        i < usize::MAX,
    ensures
        names_from(all, i).len() > 0,
        names_from(all, i)[0] == names[i as int]@,
        names_from(all, i).drop_first() == names_from(all, (i + 1) as usize),
{
    assert(all[i as int] == names[i as int]@);
    assert(all.skip(i as int).drop_first() =~= all.skip(i + 1));
}

proof fn lemma_names_end(names: Seq<&'static str>, all: Seq<Seq<char>>, i: usize)
    requires
        names.map_values(|s: &'static str| s@) == all,
        i >= names.len(),
        i <= names.len(),
    ensures
        names_from(all, i).len() == 0,
{
}

/// How a contender compares with the incumbent: the first metric, in the
/// primary metric's order, on which they differ.
pub fn catalog_outcome_ordering(
    contender: &CatalogAwareOutcomeMetrics,
    incumbent: &CatalogAwareOutcomeMetrics,
    primary: CatalogAwareOutcomeMetric,
) -> (r: (Ordering, &'static str))
    ensures
        r.0 == decide(*contender, *incumbent, metric_order(primary)).0,
        r.1@ == decide(*contender, *incumbent, metric_order(primary)).1,
{
    let names = order_names(primary);
    let ghost all = metric_order(primary);
    let mut i: usize = 0;
    proof {
        lemma_names_start(all);
    }
    while i < names.len()
        invariant
            i <= names@.len(),
            names@.map_values(|s: &'static str| s@) == all,
            all == metric_order(primary),
            decide(*contender, *incumbent, all) == decide(*contender, *incumbent, names_from(all, i)),
        decreases names@.len() - i,
    {
        let name = names[i];
        let a = catalog_outcome_metric_value(contender, name);
        let b = catalog_outcome_metric_value(incumbent, name);
        proof {
            lemma_names_step(names@, all, i);
            let rest = names_from(all, i);
            assert(rest[0] == name@);
            assert(metric_value_spec(*contender, rest[0]) == a);
            assert(metric_value_spec(*incumbent, rest[0]) == b);
        }
        if a < b {
            return (Ordering::Less, name);
        } else if a > b {
            return (Ordering::Greater, name);
        }
        i = i + 1;
    }
    proof {
        lemma_names_end(names@, all, i);
    }
    (Ordering::Equal, "attempt_order")
}

pub open spec fn reverse_order(o: Ordering) -> Ordering {
    match o {
        Ordering::Less => Ordering::Greater,
        Ordering::Equal => Ordering::Equal,
        Ordering::Greater => Ordering::Less,
    }
}

/// Comparing the other way round reverses the ordering and names the same
/// deciding metric.
pub proof fn lemma_outcome_ordering_reverses(
    a: CatalogAwareOutcomeMetrics,
    b: CatalogAwareOutcomeMetrics,
    names: Seq<Seq<char>>,
)
    ensures
        decide(a, b, names).0 == reverse_order(decide(b, a, names).0),
        decide(a, b, names).1 == decide(b, a, names).1,
    decreases names.len(),
{
    if names.len() > 0 {
        lemma_outcome_ordering_reverses(a, b, names.drop_first());
    }
}

/// Two outcomes compare equal exactly when every ranked metric is equal.
pub proof fn lemma_outcome_ordering_equal(
    a: CatalogAwareOutcomeMetrics,
    b: CatalogAwareOutcomeMetrics,
    names: Seq<Seq<char>>,
)
    ensures
        decide(a, b, names).0 == Ordering::Equal <==> forall|i: int|
            0 <= i < names.len() ==> metric_value_spec(a, #[trigger] names[i])
                == metric_value_spec(b, names[i]),
    decreases names.len(),
{
    if names.len() > 0 {
        lemma_outcome_ordering_equal(a, b, names.drop_first());
        let d = names.drop_first();
        if metric_value_spec(a, names[0]) == metric_value_spec(b, names[0]) {
            assert forall|i: int| 0 < i < names.len() implies names[i] == d[i - 1] by {}
            if forall|i: int|
                0 <= i < d.len() ==> metric_value_spec(a, #[trigger] d[i]) == metric_value_spec(b, d[i]) {
                assert forall|i: int| 0 <= i < names.len() implies metric_value_spec(a, #[trigger] names[i])
                    == metric_value_spec(b, names[i]) by {
                    if i > 0 {
                        assert(names[i] == d[i - 1]);
                    }
                }
            } else {
                let j = choose|j: int|
                    0 <= j < d.len() && metric_value_spec(a, #[trigger] d[j]) != metric_value_spec(b, d[j]);
                assert(names[j + 1] == d[j]);
            }
        }
    }
}

/// The direction from one cell to the next, or `None` when it overflows.
pub open spec fn step_of(a: GridCell, b: GridCell) -> Option<(int, int)> {
    let dx = b.x - a.x;
    let dy = b.y - a.y;
    if i32::MIN <= dx <= i32::MAX && i32::MIN <= dy <= i32::MAX {
        Some((dx, dy))
    } else {
        None
    }
}

/// The bends along a route: each inner cell where the direction changes;
/// `None` when a direction overflows.
pub open spec fn route_bends_spec(cells: Seq<GridCell>) -> Option<u64>
    decreases cells.len(),
{
    if cells.len() < 3 {
        Some(0)
    } else {
        let n = cells.len();
        match route_bends_spec(cells.drop_last()) {
            None => None,
            Some(total) => match (step_of(cells[n - 3], cells[n - 2]), step_of(cells[n - 2], cells[n - 1])) {
                (Some(prior), Some(next)) => if prior != next {
                    if total + 1 > u64::MAX {
                        None
                    } else {
                        Some((total + 1) as u64)
                    }
                } else {
                    Some(total)
                },
                _ => None,
            },
        }
    }
}

pub fn catalog_route_bends(cells: &Vec<GridCell>) -> (r: Option<u64>)
    ensures
        r == route_bends_spec(cells@),
{
    let n = cells.len();
    if n < 3 {
        return Some(0);
    }
    let mut total: u64 = 0;
    let mut i: usize = 2;
    assert(cells@.take(2).len() < 3);
    assert(route_bends_spec(cells@.take(2)) == Some(0u64));
    while i < n
        invariant
            2 <= i <= n,
            n == cells@.len(),
            route_bends_spec(cells@.take(i as int)) == Some(total),
        decreases n - i,
    {
        let ghost t = cells@.take(i + 1);
        proof {
            assert(t.drop_last() =~= cells@.take(i as int));
        }
        let a = cells[i - 2];
        let b = cells[i - 1];
        let c = cells[i];
        proof {
            assert(t[t.len() - 3] == a && t[t.len() - 2] == b && t[t.len() - 1] == c);
        }
        let p1 = match b.x.checked_sub(a.x) {
            Some(v) => v,
            None => {
                proof {
                    lemma_bends_none_sticks(cells@, i + 1);
                }
                return None;
            },
        };
        let p2 = match b.y.checked_sub(a.y) {
            Some(v) => v,
            None => {
                proof {
                    lemma_bends_none_sticks(cells@, i + 1);
                }
                return None;
            },
        };
        let n1 = match c.x.checked_sub(b.x) {
            Some(v) => v,
            None => {
                proof {
                    lemma_bends_none_sticks(cells@, i + 1);
                }
                return None;
            },
        };
        let n2 = match c.y.checked_sub(b.y) {
            Some(v) => v,
            None => {
                proof {
                    lemma_bends_none_sticks(cells@, i + 1);
                }
                return None;
            },
        };
        if p1 != n1 || p2 != n2 {
            if total == u64::MAX {
                proof {
                    lemma_bends_none_sticks(cells@, i + 1);
                }
                return None;
            }
            total = total + 1;
        }
        i = i + 1;
    }
    assert(cells@.take(n as int) =~= cells@);
    Some(total)
}

proof fn lemma_bends_none_sticks(cells: Seq<GridCell>, k: int)
    requires
        3 <= k <= cells.len(),
        route_bends_spec(cells.take(k)) is None,
    ensures
        route_bends_spec(cells) is None,
    decreases cells.len() - k,
{
    if k < cells.len() {
        assert(cells.take(k + 1).drop_last() =~= cells.take(k));
        lemma_bends_none_sticks(cells, k + 1);
    } else {
        assert(cells.take(k) =~= cells);
    }
}

/// An outcome evaluation as plain values.
#[verifier::ext_equal]
pub struct EvaluationView {
    pub metrics: CatalogAwareOutcomeMetrics,
    pub constraint_misses: Seq<(Seq<char>, u64, u64)>,
    pub admissible: bool,
    pub preference_satisfied: bool,
    pub incumbent_attempt: Option<u32>,
    pub ordering: Seq<char>,
    pub decisive_metric: Seq<char>,
}

pub open spec fn evaluation_view(e: CatalogAwareOutcomeEvaluation) -> EvaluationView {
    EvaluationView {
        metrics: e.metrics,
        constraint_misses: miss_views(e.constraint_misses@),
        admissible: e.admissible,
        preference_satisfied: e.preference_satisfied,
        incumbent_attempt: e.comparison.incumbent_attempt,
        ordering: e.comparison.ordering@,
        decisive_metric: e.comparison.decisive_metric@,
    }
}

/// The ordering label, deciding metric and replacement of an admissible
/// contender against the incumbent.
pub open spec fn contest(
    m: CatalogAwareOutcomeMetrics,
    incumbent: Option<(u32, CatalogAwareOutcomeMetrics)>,
    primary: CatalogAwareOutcomeMetric,
) -> (Seq<char>, Seq<char>, bool) {
    match incumbent {
        Some((_, im)) => {
            let d = decide(m, im, metric_order(primary));
            (
                if d.0 == Ordering::Less {
                    "new_incumbent"@
                } else {
                    "incumbent_retained"@
                },
                d.1,
                d.0 == Ordering::Less,
            )
        },
        None => ("first_admissible"@, primary_name(primary)@, true),
    }
}

/// The evaluation of a validated outcome and whether it replaces the
/// incumbent: an outcome that misses a hard constraint is recorded with its
/// first miss and never replaces; otherwise it replaces when there is no
/// incumbent or it ranks strictly before it.
pub open spec fn evaluation_spec(
    m: CatalogAwareOutcomeMetrics,
    incumbent: Option<(u32, CatalogAwareOutcomeMetrics)>,
    c: CatalogAwareOutcomeConstraints,
    prefs: CatalogAwareOutcomePreferences,
) -> (EvaluationView, bool) {
    let misses = constraint_misses_spec(m, c);
    let admissible = misses.len() == 0;
    let (ordering, decisive, replaces) = if !admissible {
        ("constraint_miss"@, misses[0].0, false)
    } else {
        contest(m, incumbent, prefs.primary_metric)
    };
    (
        EvaluationView {
            metrics: m,
            constraint_misses: misses,
            admissible,
            preference_satisfied: admissible && metric_value_spec(
                m,
                primary_name(prefs.primary_metric)@,
            ) <= prefs.preferred_maximum,
            incumbent_attempt: match incumbent {
                Some((a, _)) => Some(a),
                None => None,
            },
            ordering,
            decisive_metric: decisive,
        },
        replaces,
    )
}

/// Evaluates a validated outcome against the policy and the incumbent.
pub fn evaluate_catalog_outcome(
    metrics: &CatalogAwareOutcomeMetrics,
    incumbent: Option<(u32, CatalogAwareOutcomeMetrics)>,
    constraints: &CatalogAwareOutcomeConstraints,
    preferences: &CatalogAwareOutcomePreferences,
) -> (r: (CatalogAwareOutcomeEvaluation, bool))
    ensures
        (evaluation_view(r.0), r.1) == evaluation_spec(*metrics, incumbent, *constraints, *preferences),
{
    let misses = catalog_outcome_constraint_misses(metrics, constraints);
    let admissible = misses.len() == 0;
    let (ordering, decisive_metric, replaces) = if !admissible {
        (owned("constraint_miss"), owned(misses[0].metric.as_str()), false)
    } else {
        match incumbent {
            Some((_, im)) => {
                let (o, d) = catalog_outcome_ordering(metrics, &im, preferences.primary_metric);
                let less = match o {
                    Ordering::Less => true,
                    _ => false,
                };
                (
                    if less {
                        owned("new_incumbent")
                    } else {
                        owned("incumbent_retained")
                    },
                    owned(d),
                    less,
                )
            },
            None => (
                owned("first_admissible"),
                owned(catalog_primary_metric_name(preferences.primary_metric)),
                true,
            ),
        }
    };
    let primary = catalog_primary_metric_name(preferences.primary_metric);
    let preference_satisfied = admissible && catalog_outcome_metric_value(metrics, primary)
        <= preferences.preferred_maximum;
    let incumbent_attempt = match incumbent {
        Some((a, _)) => Some(a),
        None => None,
    };
    (
        CatalogAwareOutcomeEvaluation {
            metrics: *metrics,
            constraint_misses: misses,
            admissible,
            preference_satisfied,
            comparison: CatalogAwareOutcomeComparison { incumbent_attempt, ordering, decisive_metric },
        },
        replaces,
    )
}


/// The earliest best outcome wins: a validated outcome replaces the
/// incumbent only when it meets every hard constraint, an outcome whose
/// metrics equal the incumbent's never displaces the earlier attempt, and
/// the first admissible outcome of a run always becomes the incumbent.
pub proof fn lemma_earliest_best_outcome_wins(
    m: CatalogAwareOutcomeMetrics,
    incumbent: Option<(u32, CatalogAwareOutcomeMetrics)>,
    c: CatalogAwareOutcomeConstraints,
    prefs: CatalogAwareOutcomePreferences,
)
    ensures
        evaluation_spec(m, incumbent, c, prefs).1 ==> constraint_misses_spec(m, c).len() == 0,
        (incumbent matches Some((_, im)) && im == m) ==> !evaluation_spec(m, incumbent, c, prefs).1,
        (incumbent is None && constraint_misses_spec(m, c).len() == 0) ==> evaluation_spec(
            m,
            incumbent,
            c,
            prefs,
        ).1,
{
    lemma_outcome_ordering_equal(m, m, metric_order(prefs.primary_metric));
}


/// The value of the metric that an outcome preference ranks by first.
pub open spec fn primary_value(m: CatalogAwareOutcomeMetrics, primary: CatalogAwareOutcomeMetric) -> u64 {
    match primary {
        CatalogAwareOutcomeMetric::PlacementSpan => m.placement_span_cells,
        CatalogAwareOutcomeMetric::PlacementArea => m.placement_area_cells,
        CatalogAwareOutcomeMetric::RoutedCatalogCells => m.routed_catalog_cells,
    }
}

/// The primary metric decides first: when two outcomes differ on it, the
/// smaller value ranks first, whatever the other metrics say, and that
/// metric is named as the decisive one.
pub proof fn lemma_primary_metric_decides_first(
    contender: CatalogAwareOutcomeMetrics,
    incumbent: CatalogAwareOutcomeMetrics,
    primary: CatalogAwareOutcomeMetric,
)
    requires
        primary_value(contender, primary) != primary_value(incumbent, primary),
    ensures
        decide(contender, incumbent, metric_order(primary)).1 == primary_name(primary)@,
        (decide(contender, incumbent, metric_order(primary)).0 == Ordering::Less) == (primary_value(
            contender,
            primary,
        ) < primary_value(incumbent, primary)),
        (decide(contender, incumbent, metric_order(primary)).0 == Ordering::Greater) == (primary_value(
            contender,
            primary,
        ) > primary_value(incumbent, primary)),
{
    reveal_strlit("placement_span_cells");
    reveal_strlit("placement_area_cells");
    reveal_strlit("routed_catalog_cells");
    assert("placement_span_cells"@[10] != "placement_area_cells"@[10]);
    assert("routed_catalog_cells"@[0] != "placement_span_cells"@[0]);
    assert("routed_catalog_cells"@[0] != "placement_area_cells"@[0]);
    let names = metric_order(primary);
    assert(names.len() > 0);
    assert(names[0] == primary_name(primary)@);
    assert(metric_value_spec(contender, names[0]) == primary_value(contender, primary));
    assert(metric_value_spec(incumbent, names[0]) == primary_value(incumbent, primary));
}

} // verus!
