//! The canonical compact JSON of the automaton's hash inputs and the hashes
//! computed over them: object fields in declaration order with camelCase
//! names, enum variants as snake_case strings, no whitespace.

use vstd::prelude::*;
use vstd::string::*;
use vstd::utf8::encode_utf8;

use crate::text::{
    dec_bytes, fnv1a64, fnv1a64_spec, format_hash, hash_text, int_bytes, json_string, push_dec,
    push_i32, push_json_str, push_raw,
};

use super::{
    rule_id_spec, CaBoundaryPolicy, CaBounds, CaCellDelta, CaCellState, CaCoord, CaNeighborhood,
    CaRule, CaScenario, CaSeedCell, CaTouchedBounds, CaWorkloadClass,
};

verus! {

pub open spec fn lit(s: &str) -> Seq<u8> {
    s.spec_bytes()
}

pub open spec fn state_name(s: CaCellState) -> &'static str {
    match s {
        CaCellState::Empty => "empty",
        CaCellState::Source => "source",
        CaCellState::Frontier => "frontier",
        CaCellState::Trail => "trail",
    }
}

pub open spec fn workload_name(w: CaWorkloadClass) -> &'static str {
    match w {
        CaWorkloadClass::SparsePropagation => "sparse_propagation",
        CaWorkloadClass::DenseChurn => "dense_churn",
        CaWorkloadClass::CrossBoundary => "cross_boundary",
        CaWorkloadClass::LargeResidentSmallHotRegion => "large_resident_small_hot_region",
        CaWorkloadClass::HighSurfaceArea => "high_surface_area",
    }
}

pub open spec fn neighborhood_name(n: CaNeighborhood) -> &'static str {
    match n {
        CaNeighborhood::VonNeumann6 => "von_neumann6",
        CaNeighborhood::Moore26 => "moore26",
    }
}

pub open spec fn boundary_name(b: CaBoundaryPolicy) -> &'static str {
    match b {
        CaBoundaryPolicy::FixedEmpty => "fixed_empty",
        CaBoundaryPolicy::Wrap => "wrap",
    }
}

pub open spec fn name_json(name: &str) -> Seq<u8> {
    json_string(name.spec_bytes())
}

pub open spec fn text_json(s: Seq<char>) -> Seq<u8> {
    json_string(encode_utf8(s))
}

pub open spec fn coord_json(c: CaCoord) -> Seq<u8> {
    lit("{\"x\":") + int_bytes(c.x as int) + lit(",\"y\":") + int_bytes(c.y as int) + lit(
        ",\"z\":",
    ) + int_bytes(c.z as int) + lit("}")
}

pub open spec fn cell_json(cell: CaSeedCell) -> Seq<u8> {
    lit("{\"coord\":") + coord_json(cell.coord) + lit(",\"state\":") + name_json(
        state_name(cell.state),
    ) + lit("}")
}

pub open spec fn delta_json(d: CaCellDelta) -> Seq<u8> {
    lit("{\"coord\":") + coord_json(d.coord) + lit(",\"previous\":") + name_json(
        state_name(d.previous),
    ) + lit(",\"current\":") + name_json(state_name(d.current)) + lit("}")
}

/// Comma-separated cell objects.
pub open spec fn cells_items(s: Seq<CaSeedCell>) -> Seq<u8>
    decreases s.len(),
{
    if s.len() == 0 {
        Seq::empty()
    } else if s.len() == 1 {
        cell_json(s[0])
    } else {
        cells_items(s.drop_last()) + lit(",") + cell_json(s.last())
    }
}

pub open spec fn cells_json(s: Seq<CaSeedCell>) -> Seq<u8> {
    lit("[") + cells_items(s) + lit("]")
}

/// Comma-separated delta objects.
pub open spec fn deltas_items(s: Seq<CaCellDelta>) -> Seq<u8>
    decreases s.len(),
{
    if s.len() == 0 {
        Seq::empty()
    } else if s.len() == 1 {
        delta_json(s[0])
    } else {
        deltas_items(s.drop_last()) + lit(",") + delta_json(s.last())
    }
}

pub open spec fn deltas_json(s: Seq<CaCellDelta>) -> Seq<u8> {
    lit("[") + deltas_items(s) + lit("]")
}

pub open spec fn bounds_json(b: CaBounds) -> Seq<u8> {
    lit("{\"min\":") + coord_json(b.min) + lit(",\"maxExclusive\":") + coord_json(
        b.max_exclusive,
    ) + lit("}")
}

/// The identity, workload, seed and bounds of a scenario object.
pub open spec fn scenario_head_json(sc: CaScenario) -> Seq<u8> {
    lit("{\"id\":") + text_json(sc.id@) + lit(",\"workload\":") + name_json(
        workload_name(sc.workload),
    ) + lit(",\"seed\":") + dec_bytes(sc.seed as nat) + lit(",\"bounds\":") + bounds_json(
        sc.bounds,
    )
}

/// The topology, rule, step count and seed cells of a scenario object.
pub open spec fn scenario_tail_json(sc: CaScenario) -> Seq<u8> {
    lit(",\"neighborhood\":") + name_json(neighborhood_name(sc.neighborhood)) + lit(
        ",\"boundary\":",
    ) + name_json(boundary_name(sc.boundary)) + lit(",\"rule\":") + name_json(
        rule_id_spec(sc.rule),
    ) + lit(",\"steps\":") + dec_bytes(sc.steps as nat) + lit(",\"initialCells\":") + cells_json(
        sc.initial_cells@,
    ) + lit("}")
}

pub open spec fn scenario_json(sc: CaScenario) -> Seq<u8> {
    scenario_head_json(sc) + scenario_tail_json(sc)
}

/// The input of the first cumulative hash: the scenario and the hash of its
/// initial state.
pub open spec fn initial_input_json(sc: CaScenario, initial_state_hash: Seq<char>) -> Seq<u8> {
    lit("{\"scenario\":") + scenario_json(sc) + lit(",\"initialStateHash\":") + text_json(
        initial_state_hash,
    ) + lit("}")
}

/// The input of a step's delta hash.
pub open spec fn delta_input_json(
    scenario_id: Seq<char>,
    rule_id: &str,
    step: u32,
    deltas: Seq<CaCellDelta>,
) -> Seq<u8> {
    lit("{\"scenarioId\":") + text_json(scenario_id) + lit(",\"ruleId\":") + name_json(rule_id)
        + lit(",\"step\":") + dec_bytes(step as nat) + lit(",\"deltas\":") + deltas_json(deltas)
        + lit("}")
}

pub open spec fn touched_json(t: Option<CaTouchedBounds>) -> Seq<u8> {
    match t {
        None => lit("null"),
        Some(t) => lit("{\"min\":") + coord_json(t.min) + lit(",\"maxInclusive\":") + coord_json(
            t.max_inclusive,
        ) + lit("}"),
    }
}

/// The input of a step's cumulative hash.
pub open spec fn cumulative_input_json(
    previous_hash: Seq<char>,
    delta_hash: Seq<char>,
    state_hash: Seq<char>,
    step: u32,
    active_cell_count: u64,
    touched: Option<CaTouchedBounds>,
) -> Seq<u8> {
    lit("{\"previousHash\":") + text_json(previous_hash) + lit(",\"deltaHash\":") + text_json(
        delta_hash,
    ) + lit(",\"stateHash\":") + text_json(state_hash) + lit(",\"step\":") + dec_bytes(
        step as nat,
    ) + lit(",\"activeCellCount\":") + dec_bytes(active_cell_count as nat) + lit(
        ",\"touchedBounds\":",
    ) + touched_json(touched) + lit("}")
}

/// The hash text of a byte string.
pub open spec fn hash_of(bytes: Seq<u8>) -> Seq<char> {
    hash_text(fnv1a64_spec(bytes))
}

fn state_str(s: CaCellState) -> (r: &'static str)
    ensures
        r == state_name(s),
{
    match s {
        CaCellState::Empty => "empty",
        CaCellState::Source => "source",
        CaCellState::Frontier => "frontier",
        CaCellState::Trail => "trail",
    }
}

fn workload_str(w: CaWorkloadClass) -> (r: &'static str)
    ensures
        r == workload_name(w),
{
    match w {
        CaWorkloadClass::SparsePropagation => "sparse_propagation",
        CaWorkloadClass::DenseChurn => "dense_churn",
        CaWorkloadClass::CrossBoundary => "cross_boundary",
        CaWorkloadClass::LargeResidentSmallHotRegion => "large_resident_small_hot_region",
        CaWorkloadClass::HighSurfaceArea => "high_surface_area",
    }
}

fn neighborhood_str(n: CaNeighborhood) -> (r: &'static str)
    ensures
        r == neighborhood_name(n),
{
    match n {
        CaNeighborhood::VonNeumann6 => "von_neumann6",
        CaNeighborhood::Moore26 => "moore26",
    }
}

fn boundary_str(b: CaBoundaryPolicy) -> (r: &'static str)
    ensures
        r == boundary_name(b),
{
    match b {
        CaBoundaryPolicy::FixedEmpty => "fixed_empty",
        CaBoundaryPolicy::Wrap => "wrap",
    }
}

fn push_coord(out: &mut Vec<u8>, c: CaCoord)
    ensures
        final(out)@ == old(out)@ + coord_json(c),
{
    push_raw(out, "{\"x\":");
    push_i32(out, c.x);
    push_raw(out, ",\"y\":");
    push_i32(out, c.y);
    push_raw(out, ",\"z\":");
    push_i32(out, c.z);
    push_raw(out, "}");
    assert(final(out)@ =~= old(out)@ + coord_json(c));
}

fn push_cell(out: &mut Vec<u8>, cell: CaSeedCell)
    ensures
        final(out)@ == old(out)@ + cell_json(cell),
{
    push_raw(out, "{\"coord\":");
    push_coord(out, cell.coord);
    push_raw(out, ",\"state\":");
    push_json_str(out, state_str(cell.state));
    push_raw(out, "}");
    assert(final(out)@ =~= old(out)@ + cell_json(cell));
}

fn push_delta(out: &mut Vec<u8>, d: CaCellDelta)
    ensures
        final(out)@ == old(out)@ + delta_json(d),
{
    push_raw(out, "{\"coord\":");
    push_coord(out, d.coord);
    push_raw(out, ",\"previous\":");
    push_json_str(out, state_str(d.previous));
    push_raw(out, ",\"current\":");
    push_json_str(out, state_str(d.current));
    push_raw(out, "}");
    assert(final(out)@ =~= old(out)@ + delta_json(d));
}

fn push_cells(out: &mut Vec<u8>, cells: &Vec<CaSeedCell>)
    ensures
        final(out)@ == old(out)@ + cells_json(cells@),
{
    push_raw(out, "[");
    let ghost start = out@;
    let mut i: usize = 0;
    while i < cells.len()
        invariant
            i <= cells@.len(),
            out@ == start + cells_items(cells@.take(i as int)),
        decreases cells@.len() - i,
    {
        let ghost prefix = cells@.take(i as int);
        if i > 0 {
            push_raw(out, ",");
        }
        push_cell(out, cells[i]);
        proof {
            let next = cells@.take(i + 1);
            assert(next.drop_last() =~= prefix);
            assert(next.last() == cells@[i as int]);
            if i == 0 {
                assert(cells_items(next) == cell_json(cells@[0]));
                assert(prefix.len() == 0);
                assert(cells_items(prefix) =~= Seq::<u8>::empty());
            }
        }
        i = i + 1;
        assert(out@ =~= start + cells_items(cells@.take(i as int)));
    }
    assert(cells@.take(cells@.len() as int) =~= cells@);
    push_raw(out, "]");
    assert(final(out)@ =~= old(out)@ + cells_json(cells@));
}

fn push_deltas(out: &mut Vec<u8>, deltas: &Vec<CaCellDelta>)
    ensures
        final(out)@ == old(out)@ + deltas_json(deltas@),
{
    push_raw(out, "[");
    let ghost start = out@;
    let mut i: usize = 0;
    while i < deltas.len()
        invariant
            i <= deltas@.len(),
            out@ == start + deltas_items(deltas@.take(i as int)),
        decreases deltas@.len() - i,
    {
        let ghost prefix = deltas@.take(i as int);
        if i > 0 {
            push_raw(out, ",");
        }
        push_delta(out, deltas[i]);
        proof {
            let next = deltas@.take(i + 1);
            assert(next.drop_last() =~= prefix);
            assert(next.last() == deltas@[i as int]);
            if i == 0 {
                assert(deltas_items(next) == delta_json(deltas@[0]));
                assert(prefix.len() == 0);
                assert(deltas_items(prefix) =~= Seq::<u8>::empty());
            }
        }
        i = i + 1;
        assert(out@ =~= start + deltas_items(deltas@.take(i as int)));
    }
    assert(deltas@.take(deltas@.len() as int) =~= deltas@);
    push_raw(out, "]");
    assert(final(out)@ =~= old(out)@ + deltas_json(deltas@));
}

/// The hash text of the JSON array of `cells`.
pub fn hash_cells(cells: &Vec<CaSeedCell>) -> (h: String)
    ensures
        h@ == hash_of(cells_json(cells@)),
{
    let mut out: Vec<u8> = Vec::new();
    push_cells(&mut out, cells);
    assert(out@ =~= cells_json(cells@));
    format_hash(fnv1a64(out.as_slice()))
}

/// The hash text of the first cumulative hash input.
pub fn hash_initial_input(sc: &CaScenario, initial_state_hash: &String) -> (h: String)
    ensures
        h@ == hash_of(initial_input_json(*sc, initial_state_hash@)),
{
    let mut out: Vec<u8> = Vec::new();
    push_raw(&mut out, "{\"scenario\":");
    push_scenario(&mut out, sc);
    push_raw(&mut out, ",\"initialStateHash\":");
    push_json_str(&mut out, initial_state_hash.as_str());
    push_raw(&mut out, "}");
    assert(out@ =~= initial_input_json(*sc, initial_state_hash@));
    format_hash(fnv1a64(out.as_slice()))
}

fn push_bounds(out: &mut Vec<u8>, b: CaBounds)
    ensures
        final(out)@ == old(out)@ + bounds_json(b),
{
    push_raw(out, "{\"min\":");
    push_coord(out, b.min);
    push_raw(out, ",\"maxExclusive\":");
    push_coord(out, b.max_exclusive);
    push_raw(out, "}");
    assert(final(out)@ =~= old(out)@ + bounds_json(b));
}

fn push_scenario_head(out: &mut Vec<u8>, sc: &CaScenario)
    ensures
        final(out)@ == old(out)@ + scenario_head_json(*sc),
{
    push_raw(out, "{\"id\":");
    push_json_str(out, sc.id.as_str());
    push_raw(out, ",\"workload\":");
    push_json_str(out, workload_str(sc.workload));
    push_raw(out, ",\"seed\":");
    push_dec(out, sc.seed);
    push_raw(out, ",\"bounds\":");
    push_bounds(out, sc.bounds);
    assert(final(out)@ =~= old(out)@ + scenario_head_json(*sc));
}

fn push_scenario_tail(out: &mut Vec<u8>, sc: &CaScenario)
    ensures
        final(out)@ == old(out)@ + scenario_tail_json(*sc),
{
    push_raw(out, ",\"neighborhood\":");
    push_json_str(out, neighborhood_str(sc.neighborhood));
    push_raw(out, ",\"boundary\":");
    push_json_str(out, boundary_str(sc.boundary));
    push_raw(out, ",\"rule\":");
    push_json_str(out, sc.rule.id());
    push_raw(out, ",\"steps\":");
    push_dec(out, sc.steps as u64);
    push_raw(out, ",\"initialCells\":");
    push_cells(out, &sc.initial_cells);
    push_raw(out, "}");
    assert(final(out)@ =~= old(out)@ + scenario_tail_json(*sc));
}

fn push_scenario(out: &mut Vec<u8>, sc: &CaScenario)
    ensures
        final(out)@ == old(out)@ + scenario_json(*sc),
{
    push_scenario_head(out, sc);
    push_scenario_tail(out, sc);
    assert(final(out)@ =~= old(out)@ + scenario_json(*sc));
}

/// The hash text of a step's delta hash input.
pub fn hash_delta_input(scenario_id: &String, rule: CaRule, step: u32, deltas: &Vec<CaCellDelta>) -> (h: String)
    ensures
        h@ == hash_of(delta_input_json(scenario_id@, rule_id_spec(rule), step, deltas@)),
{
    let mut out: Vec<u8> = Vec::new();
    push_raw(&mut out, "{\"scenarioId\":");
    push_json_str(&mut out, scenario_id.as_str());
    push_raw(&mut out, ",\"ruleId\":");
    push_json_str(&mut out, rule.id());
    push_raw(&mut out, ",\"step\":");
    push_dec(&mut out, step as u64);
    push_raw(&mut out, ",\"deltas\":");
    push_deltas(&mut out, deltas);
    push_raw(&mut out, "}");
    assert(out@ =~= delta_input_json(scenario_id@, rule_id_spec(rule), step, deltas@));
    format_hash(fnv1a64(out.as_slice()))
}

/// The hash text of a step's cumulative hash input.
pub fn hash_cumulative_input(
    previous_hash: &String,
    delta_hash: &String,
    state_hash: &String,
    step: u32,
    active_cell_count: u64,
    touched: Option<CaTouchedBounds>,
) -> (h: String)
    ensures
        h@ == hash_of(
            cumulative_input_json(
                previous_hash@,
                delta_hash@,
                state_hash@,
                step,
                active_cell_count,
                touched,
            ),
        ),
{
    let mut out: Vec<u8> = Vec::new();
    push_raw(&mut out, "{\"previousHash\":");
    push_json_str(&mut out, previous_hash.as_str());
    push_raw(&mut out, ",\"deltaHash\":");
    push_json_str(&mut out, delta_hash.as_str());
    push_raw(&mut out, ",\"stateHash\":");
    push_json_str(&mut out, state_hash.as_str());
    push_raw(&mut out, ",\"step\":");
    push_dec(&mut out, step as u64);
    push_raw(&mut out, ",\"activeCellCount\":");
    push_dec(&mut out, active_cell_count);
    push_raw(&mut out, ",\"touchedBounds\":");
    match touched {
        None => push_raw(&mut out, "null"),
        Some(t) => {
            push_raw(&mut out, "{\"min\":");
            push_coord(&mut out, t.min);
            push_raw(&mut out, ",\"maxInclusive\":");
            push_coord(&mut out, t.max_inclusive);
            push_raw(&mut out, "}");
        },
    }
    push_raw(&mut out, "}");
    assert(out@ =~= cumulative_input_json(
        previous_hash@,
        delta_hash@,
        state_hash@,
        step,
        active_cell_count,
        touched,
    ));
    format_hash(fnv1a64(out.as_slice()))
}

} // verus!
