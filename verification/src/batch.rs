//! Batch profiles: the rule sequences that batch generation cycles through,
//! the budgets it checks, and the codes it gives rejected selections.

use vstd::prelude::*;
use vstd::string::*;

use crate::graph::Diagnostic;
use crate::intermediate_validation::{contains_bytes, str_contains};
use crate::model::{owned, GraphRule, IntentBudget};
use crate::text::str_eq;

verus! {

pub const BATCH_PROFILE_KIND: &'static str = "rusty_procgen.batch_profile.v1";

#[derive(Clone, Debug)]
pub struct BatchProfileSequence {
    pub label: String,
    pub rules: Vec<GraphRule>,
}

#[derive(Clone, Debug)]
pub struct BatchProfile {
    pub kind: String,
    pub schema_version: u32,
    pub profile_id: String,
    pub description: String,
    pub budgets: Option<IntentBudget>,
    pub sequences: Vec<BatchProfileSequence>,
}

#[derive(Clone, Debug)]
pub struct BudgetCheck {
    pub code: String,
    pub ok: bool,
    pub detail: String,
}

#[derive(Clone, Debug)]
pub struct SelectionRejection {
    pub candidate_id: String,
    pub profile_sequence: String,
    pub candidate_ref: String,
    pub physical_connection_plan_ref: Option<String>,
    pub diagnostics: Vec<Diagnostic>,
}

#[derive(Clone, Debug)]
pub struct IntermediateArtifactRefs {
    pub analysis_ref: String,
    pub compatible_rules_ref: String,
    pub spatial_intent_ref: String,
    pub intermediate_breakdown_ref: String,
    pub intermediate_validation_ref: String,
}

#[derive(Clone, Debug)]
pub struct Receipt {
    pub kind: String,
    pub schema_version: u32,
    pub command: String,
    pub status: String,
    pub seed: Option<u64>,
    pub input_hash: Option<String>,
    pub output_hash: Option<String>,
    pub output_ref: Option<String>,
    pub diagnostics: Vec<Diagnostic>,
}

/// A receipt of a command that succeeded.
pub fn receipt(
    command: &str,
    seed: Option<u64>,
    input_hash: Option<&str>,
    output_hash: Option<&str>,
    output_ref: Option<&str>,
    diagnostics: Vec<Diagnostic>,
) -> (r: Receipt)
    ensures
        r.kind@ == "rusty_procgen.receipt.v1"@,
        r.schema_version == 1,
        r.command@ == command@,
        r.status@ == "ok"@,
        r.seed == seed,
        crate::model::opt_text(r.input_hash) == crate::graph::opt_lit(input_hash),
        crate::model::opt_text(r.output_hash) == crate::graph::opt_lit(output_hash),
        crate::model::opt_text(r.output_ref) == crate::graph::opt_lit(output_ref),
        r.diagnostics == diagnostics,
{
    Receipt {
        kind: owned("rusty_procgen.receipt.v1"),
        schema_version: 1,
        command: owned(command),
        status: owned("ok"),
        seed,
        input_hash: crate::model::owned_opt(input_hash),
        output_hash: crate::model::owned_opt(output_hash),
        output_ref: crate::model::owned_opt(output_ref),
        diagnostics,
    }
}

/// The sequence at `i` is the first without rules.
pub open spec fn first_empty_sequence(p: BatchProfile, i: int) -> bool {
    &&& 0 <= i < p.sequences@.len()
    &&& p.sequences@[i].rules@.len() == 0
    &&& forall|j: int| 0 <= j < i ==> #[trigger] p.sequences@[j].rules@.len() > 0
}

/// What checking a loaded batch profile answers, the profile named by
/// `display` in messages: its kind, then at least one sequence, then rules
/// in each sequence.
pub open spec fn profile_check(p: BatchProfile, display: Seq<char>) -> Result<(), Seq<char>> {
    if p.kind@ != BATCH_PROFILE_KIND@ {
        Err("batch profile "@ + display + " has unsupported kind "@ + p.kind@)
    } else if p.sequences@.len() == 0 {
        Err("batch profile "@ + display + " must contain at least one sequence"@)
    } else if exists|i: int| #[trigger] first_empty_sequence(p, i) {
        let i = choose|i: int| #[trigger] first_empty_sequence(p, i);
        Err("batch profile "@ + display + " sequence "@ + p.sequences@[i].label@ + " has no rules"@)
    } else {
        Ok(())
    }
}

/// Checks a loaded batch profile (see `profile_check`).
pub fn check_batch_profile(profile: &BatchProfile, display: &str) -> (r: Result<(), String>)
    ensures
        match r {
            Ok(()) => profile_check(*profile, display@) is Ok,
            Err(m) => profile_check(*profile, display@) == Err::<(), Seq<char>>(m@),
        },
{
    if !str_eq(profile.kind.as_str(), BATCH_PROFILE_KIND) {
        let mut m = owned("batch profile ");
        m.append(display);
        m.append(" has unsupported kind ");
        m.append(profile.kind.as_str());
        return Err(m);
    }
    if profile.sequences.len() == 0 {
        let mut m = owned("batch profile ");
        m.append(display);
        m.append(" must contain at least one sequence");
        return Err(m);
    }
    let mut i: usize = 0;
    while i < profile.sequences.len()
        invariant
            i <= profile.sequences@.len(),
            profile.kind@ == BATCH_PROFILE_KIND@,
            profile.sequences@.len() > 0,
            forall|j: int| 0 <= j < i ==> #[trigger] profile.sequences@[j].rules@.len() > 0,
        decreases profile.sequences@.len() - i,
    {
        if profile.sequences[i].rules.len() == 0 {
            let mut m = owned("batch profile ");
            m.append(display);
            m.append(" sequence ");
            m.append(profile.sequences[i].label.as_str());
            m.append(" has no rules");
            proof {
                assert(first_empty_sequence(*profile, i as int));
                let k = choose|k: int| #[trigger] first_empty_sequence(*profile, k);
                if k < i {
                    assert(profile.sequences@[k].rules@.len() > 0);
                }
                if k > i {
                    assert(profile.sequences@[i as int].rules@.len() > 0);
                }
                assert(k == i);
            }
            return Err(m);
        }
        i = i + 1;
    }
    assert forall|k: int| !first_empty_sequence(*profile, k) by {
        if first_empty_sequence(*profile, k) {
            assert(profile.sequences@[k].rules@.len() > 0);
        }
    }
    Ok(())
}

/// The sequence used for the `index`-th candidate: the profile's sequences
/// taken in turn.
pub fn batch_profile_sequence(profile: &BatchProfile, index: usize) -> (r: Result<
    &BatchProfileSequence,
    String,
>)
    ensures
        profile.sequences@.len() == 0 ==> (r matches Err(m) && m@ == "batch profile has no sequences"@),
        profile.sequences@.len() > 0 ==> (r matches Ok(s) && *s == profile.sequences@[index as int
            % profile.sequences@.len() as int]),
{
    if profile.sequences.len() == 0 {
        return Err(owned("batch profile has no sequences"));
    }
    Ok(&profile.sequences[index % profile.sequences.len()])
}

/// `p` is a prefix of `s`.
pub open spec fn starts_with_bytes(s: Seq<u8>, p: Seq<u8>) -> bool {
    p.len() <= s.len() && s.subrange(0, p.len() as int) == p
}

pub fn str_starts_with(s: &str, p: &str) -> (r: bool)
    ensures
        r == starts_with_bytes(s.spec_bytes(), p.spec_bytes()),
{
    let a = s.as_bytes();
    let b = p.as_bytes();
    if b.len() > a.len() {
        return false;
    }
    let mut i: usize = 0;
    while i < b.len()
        invariant
            a@ == s.spec_bytes(),
            b@ == p.spec_bytes(),
            b@.len() <= a@.len(),
            i <= b@.len(),
            forall|k: int| 0 <= k < i ==> a@[k] == b@[k],
        decreases b@.len() - i,
    {
        if a[i] != b[i] {
            assert(a@.subrange(0, b@.len() as int)[i as int] != b@[i as int]);
            return false;
        }
        i = i + 1;
    }
    assert(a@.subrange(0, b@.len() as int) =~= b@);
    true
}

/// The rejection code of a selection that failed with `error`.
pub open spec fn rejection_code(error: Seq<u8>) -> &'static str {
    if starts_with_bytes(error, "geometry search exhausted".spec_bytes()) {
        "selection_geometry_route_search_exhausted"
    } else if starts_with_bytes(error, "invalid physical geometry plan".spec_bytes())
        || contains_bytes(error, "unsupported physical section topology".spec_bytes()) {
        "selection_physical_section_plan_incompatible"
    } else if contains_bytes(error, "port".spec_bytes()) && contains_bytes(
        error,
        "exhausted".spec_bytes(),
    ) {
        "selection_geometry_port_allocation_exhausted"
    } else if starts_with_bytes(error, "catalog shape/transform search exhausted".spec_bytes())
        || starts_with_bytes(error, "pure catalog coverage rejected".spec_bytes()) {
        "selection_catalog_shape_transform_exhausted"
    } else if starts_with_bytes(error, "pure catalog search exhausted".spec_bytes()) {
        "selection_catalog_piece_search_exhausted"
    } else if starts_with_bytes(error, "global shape/piece search budget exhausted".spec_bytes()) {
        "selection_global_search_budget_exhausted"
    } else if starts_with_bytes(error, "piece realization search exhausted".spec_bytes())
        || starts_with_bytes(error, "piece route search exhausted".spec_bytes()) {
        "selection_piece_route_clearance_exhausted"
    } else {
        "selection_physical_embedding_validation_failed"
    }
}

/// The rejection code of a selection that failed with `error`.
pub fn selection_rejection_code(error: &str) -> (r: &'static str)
    ensures
        r == rejection_code(error.spec_bytes()),
{
    if str_starts_with(error, "geometry search exhausted") {
        "selection_geometry_route_search_exhausted"
    } else if str_starts_with(error, "invalid physical geometry plan") || str_contains(
        error,
        "unsupported physical section topology",
    ) {
        "selection_physical_section_plan_incompatible"
    } else if str_contains(error, "port") && str_contains(error, "exhausted") {
        "selection_geometry_port_allocation_exhausted"
    } else if str_starts_with(error, "catalog shape/transform search exhausted") || str_starts_with(
        error,
        "pure catalog coverage rejected",
    ) {
        "selection_catalog_shape_transform_exhausted"
    } else if str_starts_with(error, "pure catalog search exhausted") {
        "selection_catalog_piece_search_exhausted"
    } else if str_starts_with(error, "global shape/piece search budget exhausted") {
        "selection_global_search_budget_exhausted"
    } else if str_starts_with(error, "piece realization search exhausted") || str_starts_with(
        error,
        "piece route search exhausted",
    ) {
        "selection_piece_route_clearance_exhausted"
    } else {
        "selection_physical_embedding_validation_failed"
    }
}

} // verus!
