//! Deterministic, bounded cellular-automata workloads.
//!
//! This module owns procedural working state and ordered deltas for downstream
//! stress workloads. It has no engine, renderer, filesystem, timing or
//! gameplay dependency. Consumers may translate accepted deltas into the
//! authority they own.

use vstd::prelude::*;
use vstd::string::*;

use crate::text::str_eq;

pub mod coords;
pub mod cells;
pub mod rules;
pub mod encode;
pub mod domain;
pub mod automaton;
pub mod fixtures;

pub use automaton::CaAutomaton;
pub use fixtures::{run_ca_scenario, CaScenarioSuite};

verus! {

pub const CA_SCENARIO_SUITE_KIND: &'static str = "rusty_procgen.ca_scenario_suite.v1";

pub const CA_DELTA_FIXTURE_SET_KIND: &'static str = "rusty_procgen.ca_delta_fixture_set.v1";

pub const CA_MAX_VOLUME: u64 = 1_048_576;

pub const CA_MAX_SEED_CELLS: usize = 4_096;

pub const CA_MAX_STEPS: u32 = 4_096;

pub const CA_MAX_SCENARIOS: usize = 32;

pub const CA_MAX_ID_LENGTH: usize = 96;

#[derive(Clone, Copy, Debug, PartialEq, Eq, Structural, PartialOrd, Ord, Hash)]
pub enum CaCellState {
    Empty,
    Source,
    Frontier,
    Trail,
}

#[derive(Clone, Copy, Debug, PartialEq, Eq, Structural, Hash)]
pub enum CaNeighborhood {
    VonNeumann6,
    Moore26,
}

#[derive(Clone, Copy, Debug, PartialEq, Eq, Structural, Hash)]
pub enum CaBoundaryPolicy {
    FixedEmpty,
    Wrap,
}

#[derive(Clone, Copy, Debug, PartialEq, Eq, Structural, Hash)]
pub enum CaRule {
    FrontierTrailV1,
    ParityChurnV1,
}

/// The stable identifier of a rule.
pub open spec fn rule_id_spec(rule: CaRule) -> &'static str {
    match rule {
        CaRule::FrontierTrailV1 => "frontier_trail_v1",
        CaRule::ParityChurnV1 => "parity_churn_v1",
    }
}

impl CaRule {
    pub fn id(self) -> (id: &'static str)
        ensures
            id == rule_id_spec(self),
    {
        match self {
            CaRule::FrontierTrailV1 => "frontier_trail_v1",
            CaRule::ParityChurnV1 => "parity_churn_v1",
        }
    }

    /// Whether the rule can change any cell of the domain at every step, so
    /// that every step evaluates the complete domain.
    pub fn scans_complete_domain(self) -> (r: bool)
        ensures
            r == (self == CaRule::ParityChurnV1),
    {
        match self {
            CaRule::ParityChurnV1 => true,
            CaRule::FrontierTrailV1 => false,
        }
    }
}

#[derive(Clone, Copy, Debug, PartialEq, Eq, Structural, Hash)]
pub enum CaWorkloadClass {
    SparsePropagation,
    DenseChurn,
    CrossBoundary,
    LargeResidentSmallHotRegion,
    HighSurfaceArea,
}

#[derive(Clone, Copy, Debug, PartialEq, Eq, Structural, PartialOrd, Ord, Hash)]
pub struct CaCoord {
    pub x: i32,
    pub y: i32,
    pub z: i32,
}

#[derive(Clone, Copy, Debug, PartialEq, Eq, Structural, Hash)]
pub struct CaBounds {
    pub min: CaCoord,
    pub max_exclusive: CaCoord,
}

/// `coord` lies in the half-open box of `bounds`.
pub open spec fn in_bounds(bounds: CaBounds, coord: CaCoord) -> bool {
    &&& bounds.min.x <= coord.x < bounds.max_exclusive.x
    &&& bounds.min.y <= coord.y < bounds.max_exclusive.y
    &&& bounds.min.z <= coord.z < bounds.max_exclusive.z
}

/// The extent of one axis, or the error for an empty or inverted axis.
pub open spec fn axis_span_spec(axis: &'static str, min: i32, max_exclusive: i32) -> Result<
    u64,
    CaError,
> {
    if max_exclusive <= min {
        Err(CaError::InvalidBounds { axis, min, max_exclusive })
    } else {
        Ok((max_exclusive - min) as u64)
    }
}

/// The extents of the three axes, checked in x, y, z order.
pub open spec fn dimensions_spec(b: CaBounds) -> Result<[u64; 3], CaError> {
    match axis_span_spec("x", b.min.x, b.max_exclusive.x) {
        Err(e) => Err(e),
        Ok(x) => match axis_span_spec("y", b.min.y, b.max_exclusive.y) {
            Err(e) => Err(e),
            Ok(y) => match axis_span_spec("z", b.min.z, b.max_exclusive.z) {
                Err(e) => Err(e),
                Ok(z) => Ok([x, y, z]),
            },
        },
    }
}

/// The number of cells of the box, or the error for invalid axes or a
/// volume that does not fit in 64 bits.
pub open spec fn volume_spec(b: CaBounds) -> Result<u64, CaError> {
    match dimensions_spec(b) {
        Err(e) => Err(e),
        Ok(d) => {
            let v = d[0] as int * d[1] as int * d[2] as int;
            if d[0] as int * d[1] as int > u64::MAX || v > u64::MAX {
                Err(CaError::VolumeOverflow)
            } else {
                Ok(v as u64)
            }
        },
    }
}

pub fn axis_span(axis: &'static str, min: i32, max_exclusive: i32) -> (r: Result<u64, CaError>)
    ensures
        r == axis_span_spec(axis, min, max_exclusive),
{
    if max_exclusive <= min {
        return Err(CaError::InvalidBounds { axis, min, max_exclusive });
    }
    let span: i64 = (max_exclusive as i64) - (min as i64);
    Ok(span as u64)
}

impl CaBounds {
    pub fn contains(self, coord: CaCoord) -> (r: bool)
        ensures
            r == in_bounds(self, coord),
    {
        coord.x >= self.min.x && coord.x < self.max_exclusive.x && coord.y >= self.min.y
            && coord.y < self.max_exclusive.y && coord.z >= self.min.z && coord.z
            < self.max_exclusive.z
    }

    pub fn dimensions(self) -> (r: Result<[u64; 3], CaError>)
        ensures
            r == dimensions_spec(self),
    {
        let x = match axis_span("x", self.min.x, self.max_exclusive.x) {
            Ok(v) => v,
            Err(e) => return Err(e),
        };
        let y = match axis_span("y", self.min.y, self.max_exclusive.y) {
            Ok(v) => v,
            Err(e) => return Err(e),
        };
        let z = match axis_span("z", self.min.z, self.max_exclusive.z) {
            Ok(v) => v,
            Err(e) => return Err(e),
        };
        Ok([x, y, z])
    }

    pub fn volume(self) -> (r: Result<u64, CaError>)
        ensures
            r == volume_spec(self),
    {
        let d = match self.dimensions() {
            Ok(d) => d,
            Err(e) => return Err(e),
        };
        let x = d[0];
        let y = d[1];
        let z = d[2];
        match x.checked_mul(y) {
            None => Err(CaError::VolumeOverflow),
            Some(xy) => match xy.checked_mul(z) {
                None => Err(CaError::VolumeOverflow),
                Some(v) => Ok(v),
            },
        }
    }
}

/// The dynamics of a scenario: its box, topology, rule and seed.
#[derive(Clone, Copy, Debug, PartialEq, Eq, Structural)]
pub struct CaSpace {
    pub bounds: CaBounds,
    pub neighborhood: CaNeighborhood,
    pub boundary: CaBoundaryPolicy,
    pub rule: CaRule,
    pub seed: u64,
}

#[derive(Clone, Copy, Debug, PartialEq, Eq, Structural, Hash)]
pub struct CaSeedCell {
    pub coord: CaCoord,
    pub state: CaCellState,
}

#[derive(Clone, Debug, PartialEq, Eq)]
pub struct CaScenario {
    pub id: String,
    pub workload: CaWorkloadClass,
    pub seed: u64,
    pub bounds: CaBounds,
    pub neighborhood: CaNeighborhood,
    pub boundary: CaBoundaryPolicy,
    pub rule: CaRule,
    pub steps: u32,
    pub initial_cells: Vec<CaSeedCell>,
}

pub open spec fn space_of(sc: CaScenario) -> CaSpace {
    CaSpace {
        bounds: sc.bounds,
        neighborhood: sc.neighborhood,
        boundary: sc.boundary,
        rule: sc.rule,
        seed: sc.seed,
    }
}

/// A byte that scenario identities may hold: lower-case ASCII letters,
/// digits, `.`, `-` and `_`.
pub open spec fn id_byte(b: u8) -> bool {
    (97 <= b <= 122) || (48 <= b <= 57) || b == 46 || b == 45 || b == 95
}

/// A non-empty identity of at most 96 bytes made of `id_byte`s.
pub open spec fn valid_id(s: Seq<char>) -> bool {
    let bytes = vstd::utf8::encode_utf8(s);
    &&& s.len() > 0
    &&& bytes.len() <= CA_MAX_ID_LENGTH
    &&& forall|i: int| 0 <= i < bytes.len() ==> #[trigger] id_byte(bytes[i])
}

/// The check of one seed cell against the cells before it.
pub open spec fn seed_error_at(bounds: CaBounds, cells: Seq<CaSeedCell>, i: int) -> Option<
    CaError,
> {
    let cell = cells[i];
    if cell.state == CaCellState::Empty {
        Some(CaError::EmptySeedCell { coord: cell.coord })
    } else if !in_bounds(bounds, cell.coord) {
        Some(CaError::SeedOutsideBounds { coord: cell.coord })
    } else if exists|j: int| 0 <= j < i && #[trigger] cells[j].coord == cell.coord {
        Some(CaError::DuplicateSeedCell { coord: cell.coord })
    } else {
        None
    }
}

/// The first failing check among the first `n` seed cells.
pub open spec fn first_seed_error(bounds: CaBounds, cells: Seq<CaSeedCell>, n: int) -> Option<
    CaError,
>
    decreases n,
{
    if n <= 0 {
        None
    } else {
        match first_seed_error(bounds, cells, n - 1) {
            Some(e) => Some(e),
            None => seed_error_at(bounds, cells, n - 1),
        }
    }
}

/// Once a seed check has failed, later cells do not change the answer.
pub proof fn lemma_first_seed_error_stable(
    bounds: CaBounds,
    cells: Seq<CaSeedCell>,
    k: int,
    n: int,
)
    requires
        0 <= k <= n,
        first_seed_error(bounds, cells, k) is Some,
    ensures
        first_seed_error(bounds, cells, n) == first_seed_error(bounds, cells, k),
    decreases n - k,
{
    if n > k {
        lemma_first_seed_error_stable(bounds, cells, k, n - 1);
    }
}

/// What validating a scenario answers: the first failing check, in the
/// order identity, volume, step quota, seed quota, then each seed cell.
pub open spec fn scenario_check(sc: CaScenario) -> Result<(), CaError> {
    if !valid_id(sc.id@) {
        Err(CaError::InvalidId { field: "scenario", value: sc.id })
    } else {
        match volume_spec(sc.bounds) {
            Err(e) => Err(e),
            Ok(volume) => if volume > CA_MAX_VOLUME {
                Err(CaError::VolumeQuotaExceeded { volume, limit: CA_MAX_VOLUME })
            } else if sc.steps == 0 || sc.steps > CA_MAX_STEPS {
                Err(CaError::StepQuotaExceeded { steps: sc.steps, limit: CA_MAX_STEPS })
            } else if sc.initial_cells@.len() > CA_MAX_SEED_CELLS {
                Err(
                    CaError::SeedQuotaExceeded {
                        count: sc.initial_cells@.len() as usize,
                        limit: CA_MAX_SEED_CELLS,
                    },
                )
            } else {
                match first_seed_error(sc.bounds, sc.initial_cells@, sc.initial_cells@.len() as int) {
                    Some(e) => Err(e),
                    None => Ok(()),
                }
            },
        }
    }
}

fn id_byte_ok(b: u8) -> (r: bool)
    ensures
        r == id_byte(b),
{
    (b >= 97 && b <= 122) || (b >= 48 && b <= 57) || b == 46 || b == 45 || b == 95
}

/// Checks an identity; the error carries a copy of the rejected value.
pub fn validate_id(field: &'static str, value: &String) -> (r: Result<(), CaError>)
    ensures
        r == (if valid_id(value@) {
            Ok(())
        } else {
            Err(CaError::InvalidId { field, value: *value })
        }),
{
    let bytes = value.as_str().as_bytes();
    let mut valid = !value.as_str().is_empty() && bytes.len() <= CA_MAX_ID_LENGTH;
    let mut i: usize = 0;
    while i < bytes.len()
        invariant
            bytes@ == vstd::utf8::encode_utf8(value@),
            i <= bytes@.len(),
            valid == (value@.len() > 0 && bytes@.len() <= CA_MAX_ID_LENGTH && forall|j: int|
                0 <= j < i ==> #[trigger] id_byte(bytes@[j])),
        decreases bytes@.len() - i,
    {
        if !id_byte_ok(bytes[i]) {
            valid = false;
        }
        i = i + 1;
    }
    if valid {
        Ok(())
    } else {
        Err(CaError::InvalidId { field, value: value.clone() })
    }
}

impl CaScenario {
    pub fn validate(&self) -> (r: Result<(), CaError>)
        ensures
            r == scenario_check(*self),
    {
        match validate_id("scenario", &self.id) {
            Ok(()) => {},
            Err(e) => return Err(e),
        }
        let volume = match self.bounds.volume() {
            Ok(v) => v,
            Err(e) => return Err(e),
        };
        if volume > CA_MAX_VOLUME {
            return Err(CaError::VolumeQuotaExceeded { volume, limit: CA_MAX_VOLUME });
        }
        if self.steps == 0 || self.steps > CA_MAX_STEPS {
            return Err(CaError::StepQuotaExceeded { steps: self.steps, limit: CA_MAX_STEPS });
        }
        if self.initial_cells.len() > CA_MAX_SEED_CELLS {
            return Err(
                CaError::SeedQuotaExceeded {
                    count: self.initial_cells.len(),
                    limit: CA_MAX_SEED_CELLS,
                },
            );
        }
        let mut seen: Vec<CaCoord> = Vec::new();
        let mut i: usize = 0;
        while i < self.initial_cells.len()
            invariant
                i <= self.initial_cells@.len(),
                valid_id(self.id@),
                volume_spec(self.bounds) == Ok::<u64, CaError>(volume),
                volume <= CA_MAX_VOLUME,
                1 <= self.steps <= CA_MAX_STEPS,
                self.initial_cells@.len() <= CA_MAX_SEED_CELLS,
                coords::coords_sorted(seen@),
                first_seed_error(self.bounds, self.initial_cells@, i as int) is None,
                forall|c: CaCoord|
                    seen@.contains(c) <==> exists|j: int|
                        0 <= j < i && #[trigger] self.initial_cells@[j].coord == c,
            decreases self.initial_cells@.len() - i,
        {
            let ghost old_seen = seen@;
            let cell = self.initial_cells[i];
            if cell.state == CaCellState::Empty {
                proof {
                    lemma_first_seed_error_stable(
                        self.bounds,
                        self.initial_cells@,
                        i + 1,
                        self.initial_cells@.len() as int,
                    );
                }
                return Err(CaError::EmptySeedCell { coord: cell.coord });
            }
            if !self.bounds.contains(cell.coord) {
                proof {
                    lemma_first_seed_error_stable(
                        self.bounds,
                        self.initial_cells@,
                        i + 1,
                        self.initial_cells@.len() as int,
                    );
                }
                return Err(CaError::SeedOutsideBounds { coord: cell.coord });
            }
            let inserted = coords::insert_coord(&mut seen, cell.coord);
            if !inserted {
                proof {
                    assert(old_seen.contains(cell.coord));
                    let j = choose|j: int|
                        0 <= j < i && #[trigger] self.initial_cells@[j].coord == cell.coord;
                    assert(self.initial_cells@[j].coord == self.initial_cells@[i as int].coord);
                    lemma_first_seed_error_stable(
                        self.bounds,
                        self.initial_cells@,
                        i + 1,
                        self.initial_cells@.len() as int,
                    );
                }
                return Err(CaError::DuplicateSeedCell { coord: cell.coord });
            }
            proof {
                assert(!exists|j: int|
                    0 <= j < i && #[trigger] self.initial_cells@[j].coord == cell.coord);
            }
            i = i + 1;
            proof {
                assert forall|c: CaCoord|
                    seen@.contains(c) implies exists|j: int|
                        0 <= j < i && #[trigger] self.initial_cells@[j].coord == c by {
                    if c == cell.coord {
                        assert(self.initial_cells@[i - 1].coord == c);
                    } else {
                        let j = choose|j: int|
                            0 <= j < i - 1 && #[trigger] self.initial_cells@[j].coord == c;
                        assert(self.initial_cells@[j].coord == c);
                    }
                }
                assert forall|c: CaCoord|
                    (exists|j: int| 0 <= j < i && #[trigger] self.initial_cells@[j].coord == c)
                        implies seen@.contains(c) by {
                    let j = choose|j: int| 0 <= j < i && #[trigger] self.initial_cells@[j].coord == c;
                    if j < i - 1 {
                        assert(exists|k: int|
                            0 <= k < i - 1 && #[trigger] self.initial_cells@[k].coord == c);
                    }
                }
            }
        }
        Ok(())
    }
}

#[derive(Clone, Copy, Debug, PartialEq, Eq, Structural, Hash)]
pub struct CaTouchedBounds {
    pub min: CaCoord,
    pub max_inclusive: CaCoord,
}

#[derive(Clone, Copy, Debug, Default, PartialEq, Eq, Structural, Hash)]
pub struct CaStateCounts {
    pub empty: u64,
    pub source: u64,
    pub frontier: u64,
    pub trail: u64,
}

impl CaStateCounts {
    pub open spec fn active_spec(self) -> int {
        self.source + self.frontier + self.trail
    }

    /// The number of non-empty cells.
    pub fn active(self) -> (n: u64)
        requires
            self.active_spec() <= u64::MAX,
        ensures
            n == self.active_spec(),
    {
        self.source + self.frontier + self.trail
    }
}

#[derive(Clone, Copy, Debug, PartialEq, Eq, Structural, Hash)]
pub struct CaCellDelta {
    pub coord: CaCoord,
    pub previous: CaCellState,
    pub current: CaCellState,
}

#[derive(Clone, Debug, PartialEq, Eq)]
pub struct CaStepEvidence {
    pub step: u32,
    pub active_cell_count: u64,
    pub changed_cell_count: u64,
    pub evaluated_cell_count: u64,
    pub touched_bounds: Option<CaTouchedBounds>,
    pub state_counts: CaStateCounts,
    pub deltas: Vec<CaCellDelta>,
    pub delta_hash: String,
    pub state_hash: String,
    pub cumulative_scenario_hash: String,
}

#[derive(Clone, Debug, PartialEq, Eq)]
pub struct CaScenarioTrace {
    pub scenario_id: String,
    pub workload: CaWorkloadClass,
    pub rule_id: String,
    pub seed: u64,
    pub bounds: CaBounds,
    pub neighborhood: CaNeighborhood,
    pub boundary: CaBoundaryPolicy,
    pub initial_state_hash: String,
    pub steps: Vec<CaStepEvidence>,
    pub final_state_hash: String,
    pub final_scenario_hash: String,
}

#[derive(Clone, Debug, PartialEq, Eq)]
pub struct CaDeltaFixtureSet {
    pub kind: String,
    pub schema_version: u32,
    pub suite_kind: String,
    pub traces: Vec<CaScenarioTrace>,
}

#[derive(Clone, Debug, PartialEq, Eq)]
pub enum CaError {
    InvalidArtifactIdentity { expected: &'static str },
    InvalidId { field: &'static str, value: String },
    InvalidBounds { axis: &'static str, min: i32, max_exclusive: i32 },
    VolumeOverflow,
    VolumeQuotaExceeded { volume: u64, limit: u64 },
    StepQuotaExceeded { steps: u32, limit: u32 },
    SeedQuotaExceeded { count: usize, limit: usize },
    ScenarioQuotaExceeded { count: usize, limit: usize },
    DuplicateScenarioId { id: String },
    DuplicateSeedCell { coord: CaCoord },
    EmptySeedCell { coord: CaCoord },
    SeedOutsideBounds { coord: CaCoord },
    CoordinateOutsideBounds { coord: CaCoord },
    DeltaQuotaExceeded { count: usize, limit: u64 },
    DeclaredStepLimitReached { completed: u32, declared: u32 },
    Serialization { message: String },
}

/// The stable machine-readable code of an error.
pub open spec fn error_code(e: CaError) -> &'static str {
    match e {
        CaError::InvalidArtifactIdentity { .. } => "invalid_artifact_identity",
        CaError::InvalidId { .. } => "invalid_id",
        CaError::InvalidBounds { .. } => "invalid_bounds",
        CaError::VolumeOverflow => "volume_overflow",
        CaError::VolumeQuotaExceeded { .. } => "volume_quota_exceeded",
        CaError::StepQuotaExceeded { .. } => "step_quota_exceeded",
        CaError::SeedQuotaExceeded { .. } => "seed_quota_exceeded",
        CaError::ScenarioQuotaExceeded { .. } => "scenario_quota_exceeded",
        CaError::DuplicateScenarioId { .. } => "duplicate_scenario_id",
        CaError::DuplicateSeedCell { .. } => "duplicate_seed_cell",
        CaError::EmptySeedCell { .. } => "empty_seed_cell",
        CaError::SeedOutsideBounds { .. } => "seed_outside_bounds",
        CaError::CoordinateOutsideBounds { .. } => "coordinate_outside_bounds",
        CaError::DeltaQuotaExceeded { .. } => "delta_quota_exceeded",
        CaError::DeclaredStepLimitReached { .. } => "declared_step_limit_reached",
        CaError::Serialization { .. } => "serialization_failed",
    }
}

impl CaError {
    pub fn code(&self) -> (code: &'static str)
        ensures
            code == error_code(*self),
    {
        match self {
            CaError::InvalidArtifactIdentity { .. } => "invalid_artifact_identity",
            CaError::InvalidId { .. } => "invalid_id",
            CaError::InvalidBounds { .. } => "invalid_bounds",
            CaError::VolumeOverflow => "volume_overflow",
            CaError::VolumeQuotaExceeded { .. } => "volume_quota_exceeded",
            CaError::StepQuotaExceeded { .. } => "step_quota_exceeded",
            CaError::SeedQuotaExceeded { .. } => "seed_quota_exceeded",
            CaError::ScenarioQuotaExceeded { .. } => "scenario_quota_exceeded",
            CaError::DuplicateScenarioId { .. } => "duplicate_scenario_id",
            CaError::DuplicateSeedCell { .. } => "duplicate_seed_cell",
            CaError::EmptySeedCell { .. } => "empty_seed_cell",
            CaError::SeedOutsideBounds { .. } => "seed_outside_bounds",
            CaError::CoordinateOutsideBounds { .. } => "coordinate_outside_bounds",
            CaError::DeltaQuotaExceeded { .. } => "delta_quota_exceeded",
            CaError::DeclaredStepLimitReached { .. } => "declared_step_limit_reached",
            CaError::Serialization { .. } => "serialization_failed",
        }
    }
}

} // verus!
