//! Neighborhoods, boundary policies and the transition rules, with the
//! coordinate sets that each step evaluates.

use vstd::prelude::*;

use super::cells::{cells_sorted, lookup_state, state_of};
use super::coords::{coord_lt, coords_sorted, insert_coord};
use super::{
    space_of, in_bounds, CaBoundaryPolicy, CaBounds, CaCellDelta, CaCellState, CaCoord, CaNeighborhood,
    CaRule, CaScenario, CaSeedCell, CaSpace,
};

verus! {

/// Every axis of the box is non-empty.
pub open spec fn bounds_valid(b: CaBounds) -> bool {
    &&& b.min.x < b.max_exclusive.x
    &&& b.min.y < b.max_exclusive.y
    &&& b.min.z < b.max_exclusive.z
}

/// The offset with index `k` in 0..27: (dx, dy, dz) in x-major order.
pub open spec fn offset_dx(k: int) -> int {
    k / 9 - 1
}

pub open spec fn offset_dy(k: int) -> int {
    (k % 9) / 3 - 1
}

pub open spec fn offset_dz(k: int) -> int {
    k % 3 - 1
}

pub open spec fn abs(v: int) -> int {
    if v < 0 {
        -v
    } else {
        v
    }
}

/// Offset `k` belongs to the neighborhood: never the cell itself, and only
/// the six face neighbors for the von Neumann neighborhood.
pub open spec fn offset_ok(nb: CaNeighborhood, k: int) -> bool {
    &&& 0 <= k < 27
    &&& k != 13
    &&& nb == CaNeighborhood::VonNeumann6 ==> abs(offset_dx(k)) + abs(offset_dy(k)) + abs(
        offset_dz(k),
    ) == 1
}

/// Wrapping of a coordinate into the half-open range [min, max).
pub open spec fn wrap_spec(v: int, min: int, max_exclusive: int) -> int {
    min + (v - min) % (max_exclusive - min)
}

/// The cell that offset `k` reaches from `c`: outside the box there is none
/// under the fixed-empty policy, and the torus wraps it under the wrap policy.
pub open spec fn neighbor_at(b: CaBounds, policy: CaBoundaryPolicy, c: CaCoord, k: int) -> Option<
    CaCoord,
> {
    let px = c.x + offset_dx(k);
    let py = c.y + offset_dy(k);
    let pz = c.z + offset_dz(k);
    match policy {
        CaBoundaryPolicy::FixedEmpty => if b.min.x <= px < b.max_exclusive.x && b.min.y <= py
            < b.max_exclusive.y && b.min.z <= pz < b.max_exclusive.z {
            Some(CaCoord { x: px as i32, y: py as i32, z: pz as i32 })
        } else {
            None
        },
        CaBoundaryPolicy::Wrap => Some(
            CaCoord {
                x: wrap_spec(px, b.min.x as int, b.max_exclusive.x as int) as i32,
                y: wrap_spec(py, b.min.y as int, b.max_exclusive.y as int) as i32,
                z: wrap_spec(pz, b.min.z as int, b.max_exclusive.z as int) as i32,
            },
        ),
    }
}

/// `n` is a neighbor of `c` in the scenario's neighborhood and topology.
pub open spec fn is_neighbor(sc: CaSpace, c: CaCoord, n: CaCoord) -> bool {
    exists|k: int|
        offset_ok(sc.neighborhood, k) && #[trigger] neighbor_at(sc.bounds, sc.boundary, c, k)
            == Some(n)
}

pub open spec fn is_active(s: CaCellState) -> bool {
    s == CaCellState::Source || s == CaCellState::Frontier
}

/// Some neighbor of `c` is a source or a frontier.
pub open spec fn reached(sc: CaSpace, cells: Seq<CaSeedCell>, c: CaCoord) -> bool {
    exists|n: CaCoord| is_neighbor(sc, c, n) && #[trigger] is_active(state_of(cells, n))
}

/// The parity of the coordinate sum, the seed and the step.
pub open spec fn parity_even(sc: CaSpace, c: CaCoord, next_step: u32) -> bool {
    ((c.x as int % 2) + (c.y as int % 2) + (c.z as int % 2) + (sc.seed as int % 2) + (
    next_step as int % 2)) % 2 == 0
}

/// The state that the rule gives `c` at step `next_step`.
pub open spec fn evaluate_spec(
    sc: CaSpace,
    cells: Seq<CaSeedCell>,
    c: CaCoord,
    previous: CaCellState,
    next_step: u32,
) -> CaCellState {
    match sc.rule {
        CaRule::FrontierTrailV1 => match previous {
            CaCellState::Source => CaCellState::Source,
            CaCellState::Frontier => CaCellState::Trail,
            CaCellState::Trail => CaCellState::Trail,
            CaCellState::Empty => if reached(sc, cells, c) {
                CaCellState::Frontier
            } else {
                CaCellState::Empty
            },
        },
        CaRule::ParityChurnV1 => if previous == CaCellState::Source {
            CaCellState::Source
        } else if parity_even(sc, c, next_step) {
            CaCellState::Frontier
        } else {
            CaCellState::Empty
        },
    }
}

/// A cell of the box whose state the step changes.
pub open spec fn changes(sc: CaSpace, cells: Seq<CaSeedCell>, c: CaCoord, next_step: u32) -> bool {
    in_bounds(sc.bounds, c) && evaluate_spec(sc, cells, c, state_of(cells, c), next_step)
        != state_of(cells, c)
}

/// A cell together with its neighbors, or the whole box for a rule that
/// scans the complete domain: the coordinates that a step after a change at
/// one of `origins` evaluates.
pub open spec fn candidate_of(sc: CaSpace, origins: Seq<CaCoord>, x: CaCoord) -> bool {
    if sc.rule == CaRule::ParityChurnV1 {
        in_bounds(sc.bounds, x)
    } else {
        exists|i: int|
            0 <= i < origins.len() && (#[trigger] origins[i] == x || is_neighbor(
                sc,
                origins[i],
                x,
            ))
    }
}

pub proof fn lemma_offset_facts(k: int)
    requires
        0 <= k < 27,
    ensures
        -1 <= offset_dx(k) <= 1,
        -1 <= offset_dy(k) <= 1,
        -1 <= offset_dz(k) <= 1,
        offset_dx(26 - k) == -offset_dx(k),
        offset_dy(26 - k) == -offset_dy(k),
        offset_dz(26 - k) == -offset_dz(k),
        k == 13 <==> (offset_dx(k) == 0 && offset_dy(k) == 0 && offset_dz(k) == 0),
{
}

/// Near the box, wrapping moves a coordinate by at most one span.
pub proof fn lemma_wrap_near(v: int, min: int, max_exclusive: int)
    requires
        min < max_exclusive,
        min - 1 <= v <= max_exclusive,
    ensures
        wrap_spec(v, min, max_exclusive) == (if v < min {
            v + (max_exclusive - min)
        } else if v >= max_exclusive {
            v - (max_exclusive - min)
        } else {
            v
        }),
{
    let span = max_exclusive - min;
    if v < min {
        vstd::arithmetic::div_mod::lemma_mod_add_multiples_vanish(-1, span);
        vstd::arithmetic::div_mod::lemma_small_mod((span - 1) as nat, span as nat);
    } else if v >= max_exclusive {
        vstd::arithmetic::div_mod::lemma_mod_add_multiples_vanish(0, span);
        vstd::arithmetic::div_mod::lemma_small_mod(0, span as nat);
    } else {
        vstd::arithmetic::div_mod::lemma_small_mod((v - min) as nat, span as nat);
    }
}

/// A neighbor of an in-bounds cell lies in the box.
pub proof fn lemma_neighbor_in_bounds(sc: CaSpace, c: CaCoord, k: int)
    requires
        bounds_valid(sc.bounds),
        in_bounds(sc.bounds, c),
        0 <= k < 27,
        neighbor_at(sc.bounds, sc.boundary, c, k) is Some,
    ensures
        in_bounds(sc.bounds, neighbor_at(sc.bounds, sc.boundary, c, k)->0),
{
    lemma_offset_facts(k);
    let b = sc.bounds;
    if sc.boundary == CaBoundaryPolicy::Wrap {
        lemma_wrap_near(c.x + offset_dx(k), b.min.x as int, b.max_exclusive.x as int);
        lemma_wrap_near(c.y + offset_dy(k), b.min.y as int, b.max_exclusive.y as int);
        lemma_wrap_near(c.z + offset_dz(k), b.min.z as int, b.max_exclusive.z as int);
    }
}

/// The neighbor relation is symmetric on the box.
pub proof fn lemma_neighbor_symmetric(sc: CaSpace, c: CaCoord, n: CaCoord)
    requires
        bounds_valid(sc.bounds),
        in_bounds(sc.bounds, c),
        is_neighbor(sc, c, n),
    ensures
        is_neighbor(sc, n, c),
{
    let k = choose|k: int|
        offset_ok(sc.neighborhood, k) && #[trigger] neighbor_at(sc.bounds, sc.boundary, c, k)
            == Some(n);
    lemma_offset_facts(k);
    lemma_offset_facts(26 - k);
    let k2 = 26 - k;
    let b = sc.bounds;
    if sc.boundary == CaBoundaryPolicy::Wrap {
        lemma_wrap_near(c.x + offset_dx(k), b.min.x as int, b.max_exclusive.x as int);
        lemma_wrap_near(c.y + offset_dy(k), b.min.y as int, b.max_exclusive.y as int);
        lemma_wrap_near(c.z + offset_dz(k), b.min.z as int, b.max_exclusive.z as int);
        lemma_wrap_near(n.x + offset_dx(k2), b.min.x as int, b.max_exclusive.x as int);
        lemma_wrap_near(n.y + offset_dy(k2), b.min.y as int, b.max_exclusive.y as int);
        lemma_wrap_near(n.z + offset_dz(k2), b.min.z as int, b.max_exclusive.z as int);
    }
    assert(offset_ok(sc.neighborhood, k2));
    assert(neighbor_at(sc.bounds, sc.boundary, n, k2) == Some(c));
}

fn offset_parts(k: u32) -> (r: (i64, i64, i64))
    requires
        k < 27,
    ensures
        r.0 == offset_dx(k as int),
        r.1 == offset_dy(k as int),
        r.2 == offset_dz(k as int),
{
    ((k / 9) as i64 - 1, ((k % 9) / 3) as i64 - 1, (k % 3) as i64 - 1)
}

fn offset_allowed(nb: CaNeighborhood, k: u32) -> (r: bool)
    requires
        k < 27,
    ensures
        r == offset_ok(nb, k as int),
{
    if k == 13 {
        return false;
    }
    let (dx, dy, dz) = offset_parts(k);
    match nb {
        CaNeighborhood::Moore26 => true,
        CaNeighborhood::VonNeumann6 => {
            let ax = if dx < 0 { -dx } else { dx };
            let ay = if dy < 0 { -dy } else { dy };
            let az = if dz < 0 { -dz } else { dz };
            ax + ay + az == 1
        },
    }
}

/// The Euclidean remainder of a negative offset, from the remainder of its
/// magnitude.
proof fn lemma_neg_mod(a: int, s: int, rr: int)
    requires
        a > 0,
        s > 0,
        rr == a % s,
    ensures
        (-a) % s == (if rr == 0 {
            0
        } else {
            s - rr
        }),
{
    vstd::arithmetic::div_mod::lemma_fundamental_div_mod(a, s);
    let q = a / s;
    vstd::arithmetic::div_mod::lemma_mod_bound(a, s);
    if rr == 0 {
        assert(-a == (-q) * s + 0) by (nonlinear_arith)
            requires
                a == s * q + rr,
                rr == 0,
        ;
        vstd::arithmetic::div_mod::lemma_fundamental_div_mod_converse(-a, s, -q, 0);
    } else {
        assert(-a == (-q - 1) * s + (s - rr)) by (nonlinear_arith)
            requires
                a == s * q + rr,
        ;
        vstd::arithmetic::div_mod::lemma_fundamental_div_mod_converse(-a, s, -q - 1, s - rr);
    }
}

/// Wraps a coordinate into the box by its Euclidean remainder.
pub fn wrap_axis(value: i64, min: i32, max_exclusive: i32) -> (r: i32)
    requires
        min < max_exclusive,
        i64::MIN <= value - min <= i64::MAX,
    ensures
        r == wrap_spec(value as int, min as int, max_exclusive as int),
{
    let span: i64 = (max_exclusive as i64) - (min as i64);
    let off: i64 = value - (min as i64);
    let s: u64 = span as u64;
    let within: u64 = if off >= 0 {
        (off as u64) % s
    } else {
        let a: u64 = if off == i64::MIN {
            0x8000_0000_0000_0000u64
        } else {
            (-off) as u64
        };
        let rr = a % s;
        proof {
            assert(a == -(off as int));
            lemma_neg_mod(a as int, s as int, rr as int);
        }
        if rr == 0 {
            0
        } else {
            s - rr
        }
    };
    assert(within == (off as int) % (span as int));
    assert(0 <= within < span) by {
        vstd::arithmetic::div_mod::lemma_mod_bound(off as int, span as int);
    }
    (min as i64 + within as i64) as i32
}

/// The cell that offset `k` reaches from `c`.
pub fn neighbor_of(bounds: CaBounds, policy: CaBoundaryPolicy, c: CaCoord, k: u32) -> (r: Option<
    CaCoord,
>)
    requires
        k < 27,
        bounds_valid(bounds),
        in_bounds(bounds, c),
    ensures
        r == neighbor_at(bounds, policy, c, k as int),
{
    let (dx, dy, dz) = offset_parts(k);
    let px = c.x as i64 + dx;
    let py = c.y as i64 + dy;
    let pz = c.z as i64 + dz;
    match policy {
        CaBoundaryPolicy::FixedEmpty => {
            if px >= bounds.min.x as i64 && px < bounds.max_exclusive.x as i64 && py
                >= bounds.min.y as i64 && py < bounds.max_exclusive.y as i64 && pz
                >= bounds.min.z as i64 && pz < bounds.max_exclusive.z as i64 {
                Some(CaCoord { x: px as i32, y: py as i32, z: pz as i32 })
            } else {
                None
            }
        },
        CaBoundaryPolicy::Wrap => Some(
            CaCoord {
                x: wrap_axis(px, bounds.min.x, bounds.max_exclusive.x),
                y: wrap_axis(py, bounds.min.y, bounds.max_exclusive.y),
                z: wrap_axis(pz, bounds.min.z, bounds.max_exclusive.z),
            },
        ),
    }
}

/// Adds `c` and all its neighbors to a sorted coordinate set.
pub fn add_with_neighbors(set: &mut Vec<CaCoord>, sc: &CaScenario, c: CaCoord)
    requires
        coords_sorted(old(set)@),
        bounds_valid(sc.bounds),
        in_bounds(sc.bounds, c),
    ensures
        coords_sorted(final(set)@),
        forall|x: CaCoord| #[trigger]
            final(set)@.contains(x) <==> (old(set)@.contains(x) || x == c || is_neighbor(
                space_of(*sc),
                c,
                x,
            )),
{
    insert_coord(set, c);
    let ghost with_c = set@;
    let mut k: u32 = 0;
    while k < 27
        invariant
            k <= 27,
            bounds_valid(sc.bounds),
            in_bounds(sc.bounds, c),
            coords_sorted(set@),
            forall|x: CaCoord| #[trigger] with_c.contains(x) <==> (old(set)@.contains(x) || x == c),
            forall|x: CaCoord| #[trigger]
                set@.contains(x) <==> (with_c.contains(x) || exists|j: int|
                    0 <= j < k && offset_ok(sc.neighborhood, j) && #[trigger] neighbor_at(
                        sc.bounds,
                        sc.boundary,
                        c,
                        j,
                    ) == Some(x)),
        decreases 27 - k,
    {
        if offset_allowed(sc.neighborhood, k) {
            match neighbor_of(sc.bounds, sc.boundary, c, k) {
                Some(n) => {
                    insert_coord(set, n);
                },
                None => {},
            }
        }
        k = k + 1;
        proof {
            assert forall|x: CaCoord| #[trigger]
                set@.contains(x) <==> (with_c.contains(x) || exists|j: int|
                    0 <= j < k && offset_ok(sc.neighborhood, j) && #[trigger] neighbor_at(
                        sc.bounds,
                        sc.boundary,
                        c,
                        j,
                    ) == Some(x)) by {
                if exists|j: int|
                    0 <= j < k && offset_ok(sc.neighborhood, j) && #[trigger] neighbor_at(
                        sc.bounds,
                        sc.boundary,
                        c,
                        j,
                    ) == Some(x) {
                    let j = choose|j: int|
                        0 <= j < k && offset_ok(sc.neighborhood, j) && #[trigger] neighbor_at(
                            sc.bounds,
                            sc.boundary,
                            c,
                            j,
                        ) == Some(x);
                    if j < k - 1 {
                        assert(exists|j2: int|
                            0 <= j2 < k - 1 && offset_ok(sc.neighborhood, j2) && #[trigger] neighbor_at(
                                sc.bounds,
                                sc.boundary,
                                c,
                                j2,
                            ) == Some(x));
                    }
                }
            }
        }
    }
    proof {
        assert forall|x: CaCoord| #[trigger]
            set@.contains(x) <==> (old(set)@.contains(x) || x == c || is_neighbor(space_of(*sc), c, x)) by {
            if is_neighbor(space_of(*sc), c, x) {
                let j = choose|j: int|
                    offset_ok(sc.neighborhood, j) && #[trigger] neighbor_at(
                        sc.bounds,
                        sc.boundary,
                        c,
                        j,
                    ) == Some(x);
                assert(0 <= j < 27);
            }
        }
    }
}

/// The sorted set of neighbors of `c`.
pub fn neighbors(sc: &CaScenario, c: CaCoord) -> (r: Vec<CaCoord>)
    requires
        bounds_valid(sc.bounds),
        in_bounds(sc.bounds, c),
    ensures
        coords_sorted(r@),
        forall|x: CaCoord| #[trigger] r@.contains(x) <==> is_neighbor(space_of(*sc), c, x),
{
    let mut set: Vec<CaCoord> = Vec::new();
    let mut k: u32 = 0;
    while k < 27
        invariant
            k <= 27,
            bounds_valid(sc.bounds),
            in_bounds(sc.bounds, c),
            coords_sorted(set@),
            forall|x: CaCoord| #[trigger]
                set@.contains(x) <==> exists|j: int|
                    0 <= j < k && offset_ok(sc.neighborhood, j) && #[trigger] neighbor_at(
                        sc.bounds,
                        sc.boundary,
                        c,
                        j,
                    ) == Some(x),
        decreases 27 - k,
    {
        if offset_allowed(sc.neighborhood, k) {
            match neighbor_of(sc.bounds, sc.boundary, c, k) {
                Some(n) => {
                    insert_coord(&mut set, n);
                },
                None => {},
            }
        }
        k = k + 1;
        proof {
            assert forall|x: CaCoord| #[trigger]
                set@.contains(x) <==> exists|j: int|
                    0 <= j < k && offset_ok(sc.neighborhood, j) && #[trigger] neighbor_at(
                        sc.bounds,
                        sc.boundary,
                        c,
                        j,
                    ) == Some(x) by {
                if exists|j: int|
                    0 <= j < k && offset_ok(sc.neighborhood, j) && #[trigger] neighbor_at(
                        sc.bounds,
                        sc.boundary,
                        c,
                        j,
                    ) == Some(x) {
                    let j = choose|j: int|
                        0 <= j < k && offset_ok(sc.neighborhood, j) && #[trigger] neighbor_at(
                            sc.bounds,
                            sc.boundary,
                            c,
                            j,
                        ) == Some(x);
                    if j < k - 1 {
                        assert(exists|j2: int|
                            0 <= j2 < k - 1 && offset_ok(sc.neighborhood, j2) && #[trigger] neighbor_at(
                                sc.bounds,
                                sc.boundary,
                                c,
                                j2,
                            ) == Some(x));
                    }
                }
            }
        }
    }
    proof {
        assert forall|x: CaCoord| #[trigger] set@.contains(x) <==> is_neighbor(space_of(*sc), c, x) by {
            if is_neighbor(space_of(*sc), c, x) {
                let j = choose|j: int|
                    offset_ok(sc.neighborhood, j) && #[trigger] neighbor_at(
                        sc.bounds,
                        sc.boundary,
                        c,
                        j,
                    ) == Some(x);
                assert(0 <= j < 27);
            }
        }
    }
    set
}

fn parity_bit(v: i32) -> (r: u64)
    ensures
        r == v as int % 2,
{
    let magnitude: u64 = if v < 0 {
        (-(v as i64)) as u64
    } else {
        v as u64
    };
    magnitude % 2
}

/// The state that the rule gives `c` at step `next_step`.
pub fn evaluate(
    sc: &CaScenario,
    cells: &Vec<CaSeedCell>,
    c: CaCoord,
    previous: CaCellState,
    next_step: u32,
) -> (r: CaCellState)
    requires
        bounds_valid(sc.bounds),
        in_bounds(sc.bounds, c),
        cells_sorted(cells@),
    ensures
        r == evaluate_spec(space_of(*sc), cells@, c, previous, next_step),
{
    match sc.rule {
        CaRule::FrontierTrailV1 => match previous {
            CaCellState::Source => CaCellState::Source,
            CaCellState::Frontier => CaCellState::Trail,
            CaCellState::Trail => CaCellState::Trail,
            CaCellState::Empty => {
                let mut found = false;
                let mut k: u32 = 0;
                while k < 27
                    invariant
                        k <= 27,
                        bounds_valid(sc.bounds),
                        in_bounds(sc.bounds, c),
                        cells_sorted(cells@),
                        found == exists|j: int|
                            0 <= j < k && offset_ok(sc.neighborhood, j) && #[trigger] neighbor_at(
                                sc.bounds,
                                sc.boundary,
                                c,
                                j,
                            ) is Some && is_active(
                                state_of(cells@, neighbor_at(sc.bounds, sc.boundary, c, j)->0),
                            ),
                    decreases 27 - k,
                {
                    if !found && offset_allowed(sc.neighborhood, k) {
                        match neighbor_of(sc.bounds, sc.boundary, c, k) {
                            Some(n) => {
                                let s = lookup_state(cells, n);
                                if s == CaCellState::Source || s == CaCellState::Frontier {
                                    found = true;
                                }
                            },
                            None => {},
                        }
                    }
                    k = k + 1;
                    proof {
                        let f = |j: int|
                            0 <= j < k && offset_ok(sc.neighborhood, j) && neighbor_at(
                                sc.bounds,
                                sc.boundary,
                                c,
                                j,
                            ) is Some && is_active(
                                state_of(cells@, neighbor_at(sc.bounds, sc.boundary, c, j)->0),
                            );
                        if exists|j: int| #[trigger] f(j) {
                            let j = choose|j: int| #[trigger] f(j);
                            if j < k - 1 {
                                assert(exists|j2: int|
                                    0 <= j2 < k - 1 && offset_ok(sc.neighborhood, j2) && #[trigger] neighbor_at(
                                        sc.bounds,
                                        sc.boundary,
                                        c,
                                        j2,
                                    ) is Some && is_active(
                                        state_of(
                                            cells@,
                                            neighbor_at(sc.bounds, sc.boundary, c, j2)->0,
                                        ),
                                    ));
                            }
                        }
                    }
                }
                proof {
                    if found {
                        let j = choose|j: int|
                            0 <= j < 27 && offset_ok(sc.neighborhood, j) && #[trigger] neighbor_at(
                                sc.bounds,
                                sc.boundary,
                                c,
                                j,
                            ) is Some && is_active(
                                state_of(cells@, neighbor_at(sc.bounds, sc.boundary, c, j)->0),
                            );
                        let n = neighbor_at(sc.bounds, sc.boundary, c, j)->0;
                        assert(is_neighbor(space_of(*sc), c, n));
                        assert(is_active(state_of(cells@, n)));
                    } else {
                        if reached(space_of(*sc), cells@, c) {
                            let n = choose|n: CaCoord|
                                is_neighbor(space_of(*sc), c, n) && #[trigger] is_active(state_of(cells@, n));
                            let j = choose|j: int|
                                offset_ok(sc.neighborhood, j) && #[trigger] neighbor_at(
                                    sc.bounds,
                                    sc.boundary,
                                    c,
                                    j,
                                ) == Some(n);
                            assert(0 <= j < 27);
                        }
                    }
                }
                if found {
                    CaCellState::Frontier
                } else {
                    CaCellState::Empty
                }
            },
        },
        CaRule::ParityChurnV1 => {
            if previous == CaCellState::Source {
                return CaCellState::Source;
            }
            let parity = parity_bit(c.x) + parity_bit(c.y) + parity_bit(c.z) + sc.seed % 2 + (
            next_step % 2) as u64;
            if parity % 2 == 0 {
                CaCellState::Frontier
            } else {
                CaCellState::Empty
            }
        },
    }
}


/// The transition rules cell by cell. A source stays a source under every
/// rule. Under the frontier-trail rule a frontier becomes trail, trail stays
/// trail, and an empty cell becomes a frontier exactly when one of its
/// neighbors is a source or a frontier, else stays empty. Under the parity
/// rule every cell that is not a source becomes a frontier when the sum of
/// its coordinates, the seed and the step is even, and empty when it is odd.
pub proof fn lemma_transition_rules(
    sc: CaSpace,
    cells: Seq<CaSeedCell>,
    c: CaCoord,
    previous: CaCellState,
    next_step: u32,
)
    ensures
        evaluate_spec(sc, cells, c, CaCellState::Source, next_step) == CaCellState::Source,
        sc.rule == CaRule::FrontierTrailV1 && previous == CaCellState::Frontier ==> evaluate_spec(
            sc,
            cells,
            c,
            previous,
            next_step,
        ) == CaCellState::Trail,
        sc.rule == CaRule::FrontierTrailV1 && previous == CaCellState::Trail ==> evaluate_spec(
            sc,
            cells,
            c,
            previous,
            next_step,
        ) == CaCellState::Trail,
        sc.rule == CaRule::FrontierTrailV1 && previous == CaCellState::Empty ==> evaluate_spec(
            sc,
            cells,
            c,
            previous,
            next_step,
        ) == if exists|n: CaCoord|
            #[trigger] is_neighbor(sc, c, n) && (state_of(cells, n) == CaCellState::Source || state_of(cells, n)
                == CaCellState::Frontier) {
            CaCellState::Frontier
        } else {
            CaCellState::Empty
        },
        sc.rule == CaRule::ParityChurnV1 && previous != CaCellState::Source ==> evaluate_spec(
            sc,
            cells,
            c,
            previous,
            next_step,
        ) == if (c.x + c.y + c.z + sc.seed + next_step) % 2 == 0 {
            CaCellState::Frontier
        } else {
            CaCellState::Empty
        },
{
    let x = c.x as int;
    let y = c.y as int;
    let z = c.z as int;
    let s = sc.seed as int;
    let t = next_step as int;
    assert((x % 2 + y % 2 + z % 2 + s % 2 + t % 2) % 2 == (x + y + z + s + t) % 2);
    if sc.rule == CaRule::FrontierTrailV1 && previous == CaCellState::Empty {
        if reached(sc, cells, c) {
            let n = choose|n: CaCoord| is_neighbor(sc, c, n) && #[trigger] is_active(state_of(cells, n));
            assert(is_neighbor(sc, c, n));
        }
        if exists|n: CaCoord|
            #[trigger] is_neighbor(sc, c, n) && (state_of(cells, n) == CaCellState::Source || state_of(cells, n)
                == CaCellState::Frontier) {
            let n = choose|n: CaCoord|
                #[trigger] is_neighbor(sc, c, n) && (state_of(cells, n) == CaCellState::Source || state_of(
                    cells,
                    n,
                ) == CaCellState::Frontier);
            assert(is_active(state_of(cells, n)));
        }
    }
}

} // verus!
