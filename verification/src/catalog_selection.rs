//! The bookkeeping of a catalog-aware run across its attempts: the room
//! compaction each attempt uses, the evidence each attempt leaves, the best
//! admissible outcome so far, and the classification of a run that finds
//! none.

use vstd::prelude::*;
use vstd::string::*;

use crate::catalog_outcome::{
    constraint_misses_spec, evaluate_catalog_outcome, evaluation_spec, evaluation_view,
    primary_name, CatalogAwareAttemptEvidence, CatalogAwareGenerationPolicy,
    CatalogAwareOutcomeEvaluation, CatalogAwareOutcomeMetrics, EvaluationView,
};
use crate::catalog_outcome::catalog_primary_metric_name;
use crate::catalog::GridCell;
use crate::catalog_geometry::MatchedExit;
use crate::graph::{diagnostic_views, DiagnosticView};
use crate::intermediate::ValidationReport;
use crate::model::owned;
use crate::text::{dec_text, push_dec_text};

verus! {

/// `v` clamped to the `i32` range.
pub open spec fn clamp_i32(v: int) -> int {
    if v > i32::MAX {
        i32::MAX as int
    } else if v < i32::MIN {
        i32::MIN as int
    } else {
        v
    }
}

/// The room compaction of an attempt: the initial compaction plus one
/// growth step per earlier attempt, saturating at the `i32` range.
pub open spec fn compaction_spec(p: CatalogAwareGenerationPolicy, attempt: u32) -> int {
    let a: int = if attempt > i32::MAX {
        i32::MAX as int
    } else {
        attempt as int
    };
    clamp_i32(p.initial_room_compaction_cells + clamp_i32(p.room_compaction_growth_cells * a))
}

pub fn attempt_compaction(policy: &CatalogAwareGenerationPolicy, attempt: u32) -> (r: i32)
    ensures
        r == compaction_spec(*policy, attempt),
{
    let a: i64 = if attempt > 0x7fff_ffff {
        0x7fff_ffff
    } else {
        attempt as i64
    };
    let g: i64 = policy.room_compaction_growth_cells as i64;
    assert(-0x4000_0000_0000_0000 <= g * a <= 0x4000_0000_0000_0000) by (nonlinear_arith)
        requires
            -0x8000_0000 <= g < 0x8000_0000,
            0 <= a <= 0x7fff_ffff,
    ;
    let product: i64 = g * a;
    let grown: i64 = if product > 0x7fff_ffff {
        0x7fff_ffff
    } else if product < -0x8000_0000 {
        -0x8000_0000
    } else {
        product
    };
    let total: i64 = policy.initial_room_compaction_cells as i64 + grown;
    if total > 0x7fff_ffff {
        0x7fff_ffff
    } else if total < -0x8000_0000 {
        -0x8000_0000
    } else {
        total as i32
    }
}

/// The evidence of an attempt as plain values.
#[verifier::ext_equal]
pub struct EvidenceView {
    pub attempt: u32,
    pub room_compaction_cells: i32,
    pub classification: Seq<char>,
    pub stage: Seq<char>,
    pub detail: Seq<char>,
    pub rooms_placed: usize,
    pub sections_routed: usize,
    pub routing_states: u32,
    pub outcome: Option<EvaluationView>,
}

pub open spec fn evidence_view(e: CatalogAwareAttemptEvidence) -> EvidenceView {
    EvidenceView {
        attempt: e.attempt,
        room_compaction_cells: e.room_compaction_cells,
        classification: e.classification@,
        stage: e.stage@,
        detail: e.detail@,
        rooms_placed: e.rooms_placed,
        sections_routed: e.sections_routed,
        routing_states: e.routing_states,
        outcome: match e.outcome {
            Some(o) => Some(evaluation_view(o)),
            None => None,
        },
    }
}

pub open spec fn evidence_views(v: Seq<CatalogAwareAttemptEvidence>) -> Seq<EvidenceView> {
    v.map_values(|e: CatalogAwareAttemptEvidence| evidence_view(e))
}

/// The evidence of an attempt whose outcome validated.
pub open spec fn outcome_evidence(
    attempt: u32,
    compaction: i32,
    ev: EvaluationView,
    primary: crate::catalog_outcome::CatalogAwareOutcomeMetric,
    rooms_placed: usize,
    sections_routed: usize,
    routing_states: u32,
) -> EvidenceView {
    EvidenceView {
        attempt,
        room_compaction_cells: compaction,
        classification: if ev.admissible {
            "admissible"@
        } else {
            "outcome_constraint_miss"@
        },
        stage: if ev.admissible {
            "outcome_selection"@
        } else {
            "outcome_constraints"@
        },
        detail: if ev.admissible {
            "Validated catalog outcome was compared by "@ + primary_name(primary)@ + "."@
        } else {
            "Validated catalog outcome exceeded "@ + dec_text(ev.constraint_misses.len())
                + " hard constraint(s)."@
        },
        rooms_placed,
        sections_routed,
        routing_states,
        outcome: Some(ev),
    }
}

/// The state of a catalog-aware run between attempts.
pub struct CatalogOutcomeSelection {
    pub best: Option<(u32, CatalogAwareOutcomeMetrics)>,
    pub constraint_rejected: bool,
    pub final_classification: String,
    pub attempts: Vec<CatalogAwareAttemptEvidence>,
}

impl CatalogOutcomeSelection {
    /// Every incumbent is admissible under the policy's hard constraints.
    pub open spec fn incumbent_admissible(&self, policy: CatalogAwareGenerationPolicy) -> bool {
        match self.best {
            Some((_, m)) => constraint_misses_spec(m, policy.outcome_constraints).len() == 0,
            None => true,
        }
    }

    /// A run before its first attempt.
    pub fn new() -> (r: Self)
        ensures
            r.best is None,
            !r.constraint_rejected,
            r.final_classification@ == "generation_infeasibility"@,
            r.attempts@.len() == 0,
    {
        CatalogOutcomeSelection {
            best: None,
            constraint_rejected: false,
            final_classification: owned("generation_infeasibility"),
            attempts: Vec::new(),
        }
    }

    /// Records an attempt whose outcome validated; returns whether the run
    /// stops here because the outcome satisfies the preference.
    pub fn record_outcome(
        &mut self,
        policy: &CatalogAwareGenerationPolicy,
        attempt: u32,
        metrics: &CatalogAwareOutcomeMetrics,
        rooms_placed: usize,
        sections_routed: usize,
        routing_states: u32,
    ) -> (stop: bool)
        ensures
            ({
                let (ev, replaces) = evaluation_spec(
                    *metrics,
                    old(self).best,
                    policy.outcome_constraints,
                    policy.outcome_preferences,
                );
                &&& evidence_views(final(self).attempts@) == evidence_views(old(self).attempts@).push(
                    outcome_evidence(
                        attempt,
                        compaction_spec(*policy, attempt) as i32,
                        ev,
                        policy.outcome_preferences.primary_metric,
                        rooms_placed,
                        sections_routed,
                        routing_states,
                    ),
                )
                &&& final(self).best == if replaces {
                    Some((attempt, *metrics))
                } else {
                    old(self).best
                }
                &&& final(self).constraint_rejected == (old(self).constraint_rejected
                    || !ev.admissible)
                &&& final(self).final_classification == old(self).final_classification
                &&& stop == ev.preference_satisfied
            }),
            old(self).incumbent_admissible(*policy) ==> final(self).incumbent_admissible(*policy),
    {
        let compaction = attempt_compaction(policy, attempt);
        let (evaluation, replaces) = evaluate_catalog_outcome(
            metrics,
            self.best,
            &policy.outcome_constraints,
            &policy.outcome_preferences,
        );
        let ghost ev = evaluation_view(evaluation);
        let admissible = evaluation.admissible;
        let stop = evaluation.preference_satisfied;
        let mut detail: String;
        if admissible {
            detail = owned("Validated catalog outcome was compared by ");
            detail.append(catalog_primary_metric_name(policy.outcome_preferences.primary_metric));
            detail.append(".");
        } else {
            detail = owned("Validated catalog outcome exceeded ");
            push_dec_text(&mut detail, evaluation.constraint_misses.len() as u64);
            detail.append(" hard constraint(s).");
        }
        let evidence = CatalogAwareAttemptEvidence {
            attempt,
            room_compaction_cells: compaction,
            classification: if admissible {
                owned("admissible")
            } else {
                owned("outcome_constraint_miss")
            },
            stage: if admissible {
                owned("outcome_selection")
            } else {
                owned("outcome_constraints")
            },
            detail,
            rooms_placed,
            sections_routed,
            routing_states,
            outcome: Some(evaluation),
        };
        let ghost before = evidence_views(self.attempts@);
        assert(evidence_view(evidence) == outcome_evidence(
            attempt,
            compaction_spec(*policy, attempt) as i32,
            ev,
            policy.outcome_preferences.primary_metric,
            rooms_placed,
            sections_routed,
            routing_states,
        ));
        self.attempts.push(evidence);
        assert(evidence_views(self.attempts@) =~= before.push(
            outcome_evidence(
                attempt,
                compaction_spec(*policy, attempt) as i32,
                ev,
                policy.outcome_preferences.primary_metric,
                rooms_placed,
                sections_routed,
                routing_states,
            ),
        ));
        if !admissible {
            self.constraint_rejected = true;
        }
        if replaces {
            self.best = Some((attempt, *metrics));
        }
        stop
    }

    /// Records an attempt that failed before its outcome validated.
    pub fn record_failure(&mut self, failure: CatalogAwareAttemptEvidence)
        requires
            failure.outcome is None,
        ensures
            evidence_views(final(self).attempts@) == evidence_views(old(self).attempts@).push(
                evidence_view(failure),
            ),
            final(self).final_classification@ == failure.classification@,
            final(self).best == old(self).best,
            final(self).constraint_rejected == old(self).constraint_rejected,
    {
        let ghost before = evidence_views(self.attempts@);
        let ghost fv = evidence_view(failure);
        self.final_classification = owned(failure.classification.as_str());
        self.attempts.push(failure);
        assert(evidence_views(self.attempts@) =~= before.push(fv));
    }

    /// The classification of a run without an admissible outcome: a
    /// constraint miss if any attempt missed one, else the last failure's.
    pub fn exhausted_classification(&self) -> (r: Option<String>)
        ensures
            match r {
                None => self.best is Some,
                Some(c) => self.best is None && c@ == if self.constraint_rejected {
                    "outcome_constraint_miss"@
                } else {
                    self.final_classification@
                },
            },
    {
        if self.best.is_some() {
            None
        } else if self.constraint_rejected {
            Some(owned("outcome_constraint_miss"))
        } else {
            Some(owned(self.final_classification.as_str()))
        }
    }
}


/// Why one generation attempt produced no outcome, and how far it got.
pub struct CatalogAwareFailure {
    pub classification: String,
    pub stage: String,
    pub detail: String,
    pub rooms_placed: usize,
    pub sections_routed: usize,
    pub routing_states: u32,
}

/// A failure of generation itself (no room, exit or route could be had),
/// raised at `stage`.
pub fn catalog_generation_failure(
    stage: &str,
    detail: String,
    rooms_placed: usize,
    sections_routed: usize,
    routing_states: u32,
) -> (r: CatalogAwareFailure)
    ensures
        r.classification@ == "generation_infeasibility"@,
        r.stage@ == stage@,
        r.detail@ == detail@,
        r.rooms_placed == rooms_placed,
        r.sections_routed == sections_routed,
        r.routing_states == routing_states,
{
    CatalogAwareFailure {
        classification: owned("generation_infeasibility"),
        stage: owned(stage),
        detail,
        rooms_placed,
        sections_routed,
        routing_states,
    }
}

/// Each diagnostic as `code: detail`, joined by `; `.
pub open spec fn diagnostics_detail(ds: Seq<DiagnosticView>) -> Seq<char>
    decreases ds.len(),
{
    if ds.len() == 0 {
        Seq::empty()
    } else if ds.len() == 1 {
        ds[0].code + ": "@ + ds[0].detail
    } else {
        diagnostics_detail(ds.drop_last()) + "; "@ + ds.last().code + ": "@ + ds.last().detail
    }
}

/// A failure because a stage's validation report refused the attempt; the
/// detail lists the report's diagnostics.
pub fn catalog_validation_failure(
    stage: &str,
    report: &ValidationReport,
    rooms_placed: usize,
    sections_routed: usize,
    routing_states: u32,
) -> (r: CatalogAwareFailure)
    ensures
        r.classification@ == "generation_infeasibility"@,
        r.stage@ == stage@,
        r.detail@ == diagnostics_detail(diagnostic_views(report.diagnostics@)),
        r.rooms_placed == rooms_placed,
        r.sections_routed == sections_routed,
        r.routing_states == routing_states,
{
    let ds = &report.diagnostics;
    let ghost dv = diagnostic_views(ds@);
    let mut detail = String::new();
    let mut i: usize = 0;
    assert(dv.take(0) =~= Seq::<DiagnosticView>::empty());
    while i < ds.len()
        invariant
            i <= ds@.len(),
            dv == diagnostic_views(ds@),
            detail@ == diagnostics_detail(dv.take(i as int)),
        decreases ds@.len() - i,
    {
        proof {
            let next = dv.take(i + 1);
            assert(next.drop_last() =~= dv.take(i as int));
            assert(next.last() == ds@[i as int]@);
            if i == 0 {
                assert(next[0] == ds@[0]@);
            }
        }
        if i > 0 {
            detail.append("; ");
        }
        detail.append(ds[i].code.as_str());
        detail.append(": ");
        detail.append(ds[i].detail.as_str());
        i = i + 1;
    }
    assert(dv.take(ds@.len() as int) =~= dv);
    catalog_generation_failure(stage, detail, rooms_placed, sections_routed, routing_states)
}

/// `k` is the first exit matched to the required exit `id`.
pub open spec fn first_exit_at(exits: Seq<MatchedExit>, id: Seq<char>, k: int) -> bool {
    &&& 0 <= k < exits.len()
    &&& exits[k].requirement_exit_id@ == id
    &&& forall|m: int| 0 <= m < k ==> (#[trigger] exits[m]).requirement_exit_id@ != id
}

fn find_exit(exits: &Vec<MatchedExit>, id: &str) -> (r: Option<usize>)
    ensures
        match r {
            Some(k) => first_exit_at(exits@, id@, k as int),
            None => forall|m: int|
                0 <= m < exits@.len() ==> (#[trigger] exits@[m]).requirement_exit_id@ != id@,
        },
{
    let mut k: usize = 0;
    while k < exits.len()
        invariant
            k <= exits@.len(),
            forall|m: int| 0 <= m < k ==> (#[trigger] exits@[m]).requirement_exit_id@ != id@,
        decreases exits@.len() - k,
    {
        if crate::text::str_eq(exits[k].requirement_exit_id.as_str(), id) {
            return Some(k);
        }
        k = k + 1;
    }
    None
}

/// The exit of a placed room matched to the required exit `exit_id`; a
/// room without one fails the materialize stage.
pub fn catalog_room_exit<'a>(exits: &'a Vec<MatchedExit>, exit_id: &str) -> (r: Result<
    &'a MatchedExit,
    CatalogAwareFailure,
>)
    ensures
        forall|k: int| first_exit_at(exits@, exit_id@, k) ==> r == Ok::<&MatchedExit, CatalogAwareFailure>(&exits@[k]),
        (forall|m: int| 0 <= m < exits@.len() ==> (#[trigger] exits@[m]).requirement_exit_id@ != exit_id@) ==> match r {
            Ok(_) => false,
            Err(f) => {
                &&& f.classification@ == "generation_infeasibility"@
                &&& f.stage@ == "materialize"@
                &&& f.detail@ == "Missing room exit "@ + exit_id@ + "."@
                &&& f.rooms_placed == 0 && f.sections_routed == 0 && f.routing_states == 0
            },
        },
{
    match find_exit(exits, exit_id) {
        Some(k) => Ok(&exits[k]),
        None => {
            let mut detail = owned("Missing room exit ");
            detail.append(exit_id);
            detail.append(".");
            Err(catalog_generation_failure("materialize", detail, 0, 0, 0))
        },
    }
}

/// The placement cell of a placed room's exit matched to the required exit
/// `exit_id`: the exit's cell moved by the room's origin. A room without
/// one fails the section-domain stage.
pub fn catalog_room_exit_cell(
    piece_id: &str,
    exits: &Vec<MatchedExit>,
    origin: &GridCell,
    exit_id: &str,
) -> (r: Result<GridCell, CatalogAwareFailure>)
    requires
        forall|k: int|
            first_exit_at(exits@, exit_id@, k) ==> i32::MIN <= exits@[k].x + origin.x <= i32::MAX
                && i32::MIN <= exits@[k].y + origin.y <= i32::MAX,
    ensures
        forall|k: int|
            first_exit_at(exits@, exit_id@, k) ==> r == Ok::<GridCell, CatalogAwareFailure>(
                GridCell { x: (exits@[k].x + origin.x) as i32, y: (exits@[k].y + origin.y) as i32 },
            ),
        (forall|m: int| 0 <= m < exits@.len() ==> (#[trigger] exits@[m]).requirement_exit_id@ != exit_id@) ==> match r {
            Ok(_) => false,
            Err(f) => {
                &&& f.classification@ == "generation_infeasibility"@
                &&& f.stage@ == "section_domains"@
                &&& f.detail@ == "Room "@ + piece_id@ + " has no matched exit "@ + exit_id@ + "."@
                &&& f.rooms_placed == 0 && f.sections_routed == 0 && f.routing_states == 0
            },
        },
{
    match find_exit(exits, exit_id) {
        Some(k) => Ok(GridCell { x: exits[k].x + origin.x, y: exits[k].y + origin.y }),
        None => {
            let mut detail = owned("Room ");
            detail.append(piece_id);
            detail.append(" has no matched exit ");
            detail.append(exit_id);
            detail.append(".");
            Err(catalog_generation_failure("section_domains", detail, 0, 0, 0))
        },
    }
}

} // verus!


