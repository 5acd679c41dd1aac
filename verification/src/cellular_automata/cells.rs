//! The working state of an automaton: the non-empty cells, sorted by
//! coordinate, read as a function from coordinates to cell states in which
//! every absent coordinate is empty.

use vstd::prelude::*;

use super::coords::{coord_less, coord_lt, coords_sorted, lemma_sorted_coords_eq};
use super::{in_bounds, CaBounds, CaCellState, CaCoord, CaSeedCell};

verus! {

/// Sorted by coordinate, with no coordinate twice.
pub open spec fn cells_sorted(s: Seq<CaSeedCell>) -> bool {
    forall|i: int, j: int|
        0 <= i < j < s.len() ==> coord_lt(#[trigger] s[i].coord, #[trigger] s[j].coord)
}

/// The automaton's cells: sorted, never empty, all inside the bounds.
pub open spec fn cells_wf(s: Seq<CaSeedCell>, bounds: CaBounds) -> bool {
    &&& cells_sorted(s)
    &&& forall|i: int|
        0 <= i < s.len() ==> (#[trigger] s[i]).state != CaCellState::Empty && in_bounds(
            bounds,
            s[i].coord,
        )
}

pub open spec fn has_cell(s: Seq<CaSeedCell>, c: CaCoord) -> bool {
    exists|i: int| 0 <= i < s.len() && (#[trigger] s[i]).coord == c
}

/// The state at `c`: the state listed for `c`, or empty.
pub open spec fn state_of(s: Seq<CaSeedCell>, c: CaCoord) -> CaCellState {
    if has_cell(s, c) {
        s[choose|i: int| 0 <= i < s.len() && (#[trigger] s[i]).coord == c].state
    } else {
        CaCellState::Empty
    }
}

pub proof fn lemma_state_of_index(s: Seq<CaSeedCell>, i: int)
    requires
        cells_sorted(s),
        0 <= i < s.len(),
    ensures
        state_of(s, s[i].coord) == s[i].state,
{
    let c = s[i].coord;
    assert(has_cell(s, c));
    let j = choose|j: int| 0 <= j < s.len() && (#[trigger] s[j]).coord == c;
    if j < i {
        assert(coord_lt(s[j].coord, s[i].coord));
    } else if j > i {
        assert(coord_lt(s[i].coord, s[j].coord));
    }
}

/// In well-formed cells a coordinate is listed exactly when it is not empty.
pub proof fn lemma_listed_iff_nonempty(s: Seq<CaSeedCell>, bounds: CaBounds, c: CaCoord)
    requires
        cells_wf(s, bounds),
    ensures
        has_cell(s, c) <==> state_of(s, c) != CaCellState::Empty,
        state_of(s, c) != CaCellState::Empty ==> in_bounds(bounds, c),
{
    if has_cell(s, c) {
        let i = choose|i: int| 0 <= i < s.len() && (#[trigger] s[i]).coord == c;
        lemma_state_of_index(s, i);
    }
}

/// The coordinates of the cells, in order.
pub open spec fn cell_coords(s: Seq<CaSeedCell>) -> Seq<CaCoord> {
    s.map_values(|cell: CaSeedCell| cell.coord)
}

/// Well-formed cells are determined by the state function they represent.
pub proof fn lemma_cells_unique(a: Seq<CaSeedCell>, b: Seq<CaSeedCell>, bounds: CaBounds)
    requires
        cells_wf(a, bounds),
        cells_wf(b, bounds),
        forall|c: CaCoord| state_of(a, c) == state_of(b, c),
    ensures
        a == b,
{
    let ca = cell_coords(a);
    let cb = cell_coords(b);
    assert(coords_sorted(ca));
    assert(coords_sorted(cb));
    assert forall|x: CaCoord| ca.contains(x) <==> cb.contains(x) by {
        lemma_listed_iff_nonempty(a, bounds, x);
        lemma_listed_iff_nonempty(b, bounds, x);
        if ca.contains(x) {
            let i = choose|i: int| 0 <= i < ca.len() && ca[i] == x;
            assert(a[i].coord == x);
        }
        if cb.contains(x) {
            let i = choose|i: int| 0 <= i < cb.len() && cb[i] == x;
            assert(b[i].coord == x);
        }
        if has_cell(a, x) {
            let i = choose|i: int| 0 <= i < a.len() && (#[trigger] a[i]).coord == x;
            assert(ca[i] == x);
        }
        if has_cell(b, x) {
            let i = choose|i: int| 0 <= i < b.len() && (#[trigger] b[i]).coord == x;
            assert(cb[i] == x);
        }
    }
    lemma_sorted_coords_eq(ca, cb);
    assert(a.len() == b.len());
    assert forall|i: int| 0 <= i < a.len() implies a[i] == b[i] by {
        assert(ca[i] == cb[i]);
        lemma_state_of_index(a, i);
        lemma_state_of_index(b, i);
    }
    assert(a =~= b);
}

/// The position at which a cell for `c` is or would be listed.
pub fn cell_position(v: &Vec<CaSeedCell>, c: CaCoord) -> (pos: usize)
    requires
        cells_sorted(v@),
    ensures
        pos <= v@.len(),
        forall|i: int| 0 <= i < pos ==> coord_lt((#[trigger] v@[i]).coord, c),
        forall|i: int| pos <= i < v@.len() ==> !coord_lt((#[trigger] v@[i]).coord, c),
{
    let mut lo: usize = 0;
    let mut hi: usize = v.len();
    while lo < hi
        invariant
            cells_sorted(v@),
            lo <= hi <= v@.len(),
            forall|i: int| 0 <= i < lo ==> coord_lt((#[trigger] v@[i]).coord, c),
            forall|i: int| hi <= i < v@.len() ==> !coord_lt((#[trigger] v@[i]).coord, c),
        decreases hi - lo,
    {
        let mid = lo + (hi - lo) / 2;
        if coord_less(v[mid].coord, c) {
            lo = mid + 1;
        } else {
            hi = mid;
        }
    }
    lo
}

/// The state at `c`.
pub fn lookup_state(v: &Vec<CaSeedCell>, c: CaCoord) -> (r: CaCellState)
    requires
        cells_sorted(v@),
    ensures
        r == state_of(v@, c),
{
    let pos = cell_position(v, c);
    if pos < v.len() && v[pos].coord == c {
        proof {
            lemma_state_of_index(v@, pos as int);
        }
        v[pos].state
    } else {
        proof {
            if has_cell(v@, c) {
                let k = choose|k: int| 0 <= k < v@.len() && (#[trigger] v@[k]).coord == c;
                if k < pos {
                    assert(coord_lt(v@[k].coord, c));
                } else if k > pos {
                    assert(coord_lt(v@[pos as int].coord, v@[k].coord));
                }
            }
        }
        CaCellState::Empty
    }
}

/// Sets the state at `c`, dropping the cell when it becomes empty.
pub fn set_state(v: &mut Vec<CaSeedCell>, c: CaCoord, s: CaCellState)
    requires
        cells_sorted(old(v)@),
        forall|i: int| 0 <= i < old(v)@.len() ==> (#[trigger] old(v)@[i]).state != CaCellState::Empty,
    ensures
        cells_sorted(final(v)@),
        forall|i: int|
            0 <= i < final(v)@.len() ==> (#[trigger] final(v)@[i]).state != CaCellState::Empty,
        forall|i: int|
            0 <= i < final(v)@.len() ==> (#[trigger] final(v)@[i]).coord == c || has_cell(
                old(v)@,
                final(v)@[i].coord,
            ),
        forall|x: CaCoord|
            #[trigger] state_of(final(v)@, x) == (if x == c {
                s
            } else {
                state_of(old(v)@, x)
            }),
{
    let ghost before = v@;
    let pos = cell_position(v, c);
    let found = pos < v.len() && v[pos].coord == c;
    proof {
        if !found && has_cell(before, c) {
            let k = choose|k: int| 0 <= k < before.len() && (#[trigger] before[k]).coord == c;
            if k < pos {
                assert(coord_lt(before[k].coord, c));
            } else if k > pos {
                assert(coord_lt(before[pos as int].coord, before[k].coord));
            }
        }
    }
    if found {
        if s == CaCellState::Empty {
            v.remove(pos);
            proof {
                let after = v@;
                assert forall|i: int| 0 <= i < after.len() implies after[i] == (if i < pos {
                    before[i]
                } else {
                    before[i + 1]
                }) by {}
                assert forall|i: int, j: int| 0 <= i < j < after.len() implies coord_lt(
                    #[trigger] after[i].coord,
                    #[trigger] after[j].coord,
                ) by {
                    let i0 = if i < pos { i } else { i + 1 };
                    let j0 = if j < pos { j } else { j + 1 };
                    assert(coord_lt(before[i0].coord, before[j0].coord));
                }
                assert forall|i: int| 0 <= i < after.len() implies (#[trigger] after[i]).coord
                    == c || has_cell(before, after[i].coord) by {
                    let i0 = if i < pos { i } else { i + 1 };
                    assert(before[i0] == after[i]);
                }
                assert forall|x: CaCoord| #[trigger] state_of(after, x) == (if x == c {
                    s
                } else {
                    state_of(before, x)
                }) by {
                    if has_cell(after, x) {
                        let k = choose|k: int| 0 <= k < after.len() && (#[trigger] after[k]).coord == x;
                        lemma_state_of_index(after, k);
                        let k0 = if k < pos { k } else { k + 1 };
                        assert(before[k0] == after[k]);
                        lemma_state_of_index(before, k0);
                        assert(x != c) by {
                            if k < pos {
                                assert(coord_lt(before[k0].coord, before[pos as int].coord));
                            } else {
                                assert(coord_lt(before[pos as int].coord, before[k0].coord));
                            }
                        }
                    } else {
                        if x != c && has_cell(before, x) {
                            let k = choose|k: int| 0 <= k < before.len() && (#[trigger] before[k]).coord == x;
                            assert(k != pos);
                            let k1 = if k < pos { k } else { k - 1 };
                            assert(after[k1] == before[k]);
                        }
                    }
                }
            }
        } else {
            let cell = CaSeedCell { coord: c, state: s };
            v.set(pos, cell);
            proof {
                let after = v@;
                assert forall|i: int, j: int| 0 <= i < j < after.len() implies coord_lt(
                    #[trigger] after[i].coord,
                    #[trigger] after[j].coord,
                ) by {
                    assert(coord_lt(before[i].coord, before[j].coord));
                }
                assert forall|i: int| 0 <= i < after.len() implies (#[trigger] after[i]).coord
                    == c || has_cell(before, after[i].coord) by {
                    if i != pos {
                        assert(before[i] == after[i]);
                    }
                }
                assert forall|x: CaCoord| #[trigger] state_of(after, x) == (if x == c {
                    s
                } else {
                    state_of(before, x)
                }) by {
                    if x == c {
                        lemma_state_of_index(after, pos as int);
                    } else if has_cell(after, x) {
                        let k = choose|k: int| 0 <= k < after.len() && (#[trigger] after[k]).coord == x;
                        lemma_state_of_index(after, k);
                        assert(k != pos);
                        assert(before[k] == after[k]);
                        lemma_state_of_index(before, k);
                    } else if has_cell(before, x) {
                        let k = choose|k: int| 0 <= k < before.len() && (#[trigger] before[k]).coord == x;
                        assert(k != pos);
                        assert(after[k] == before[k]);
                    }
                }
            }
        }
    } else {
        if s != CaCellState::Empty {
            let cell = CaSeedCell { coord: c, state: s };
            v.insert(pos, cell);
            proof {
                let after = v@;
                assert forall|i: int| 0 <= i < after.len() implies after[i] == (if i < pos {
                    before[i]
                } else if i == pos {
                    cell
                } else {
                    before[i - 1]
                }) by {}
                assert forall|i: int, j: int| 0 <= i < j < after.len() implies coord_lt(
                    #[trigger] after[i].coord,
                    #[trigger] after[j].coord,
                ) by {
                    if j < pos {
                        assert(coord_lt(before[i].coord, before[j].coord));
                    } else if j == pos {
                        assert(coord_lt(before[i].coord, c));
                    } else if i < pos {
                        assert(coord_lt(before[i].coord, c));
                        assert(!coord_lt(before[j - 1].coord, c));
                    } else if i == pos {
                        assert(!coord_lt(before[j - 1].coord, c));
                        assert(before[j - 1].coord != c);
                    } else {
                        assert(coord_lt(before[i - 1].coord, before[j - 1].coord));
                    }
                }
                assert forall|i: int| 0 <= i < after.len() implies (#[trigger] after[i]).coord
                    == c || has_cell(before, after[i].coord) by {
                    if i < pos {
                        assert(before[i] == after[i]);
                    } else if i > pos {
                        assert(before[i - 1] == after[i]);
                    }
                }
                assert forall|x: CaCoord| #[trigger] state_of(after, x) == (if x == c {
                    s
                } else {
                    state_of(before, x)
                }) by {
                    if x == c {
                        lemma_state_of_index(after, pos as int);
                    } else if has_cell(after, x) {
                        let k = choose|k: int| 0 <= k < after.len() && (#[trigger] after[k]).coord == x;
                        lemma_state_of_index(after, k);
                        assert(k != pos);
                        let k0 = if k < pos { k } else { k - 1 };
                        assert(before[k0] == after[k]);
                        lemma_state_of_index(before, k0);
                    } else if has_cell(before, x) {
                        let k = choose|k: int| 0 <= k < before.len() && (#[trigger] before[k]).coord == x;
                        let k1 = if k < pos { k } else { k + 1 };
                        assert(after[k1] == before[k]);
                    }
                }
            }
        } else {
            proof {
                assert forall|x: CaCoord| #[trigger] state_of(v@, x) == (if x == c {
                    s
                } else {
                    state_of(before, x)
                }) by {}
                assert forall|i: int| 0 <= i < v@.len() implies (#[trigger] v@[i]).coord == c
                    || has_cell(before, v@[i].coord) by {
                    assert(before[i] == v@[i]);
                }
            }
        }
    }
}

} // verus!
