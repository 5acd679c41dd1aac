//! The lexicographic order of coordinates and sorted, duplicate-free
//! coordinate sequences, the form every coordinate set of the automaton
//! takes.

use vstd::prelude::*;

use super::CaCoord;

verus! {

/// Lexicographic order on (x, y, z).
pub open spec fn coord_lt(a: CaCoord, b: CaCoord) -> bool {
    a.x < b.x || (a.x == b.x && (a.y < b.y || (a.y == b.y && a.z < b.z)))
}

/// Strictly increasing, hence free of duplicates.
pub open spec fn coords_sorted(s: Seq<CaCoord>) -> bool {
    forall|i: int, j: int| 0 <= i < j < s.len() ==> coord_lt(#[trigger] s[i], #[trigger] s[j])
}

pub fn coord_less(a: CaCoord, b: CaCoord) -> (r: bool)
    ensures
        r == coord_lt(a, b),
{
    a.x < b.x || (a.x == b.x && (a.y < b.y || (a.y == b.y && a.z < b.z)))
}

/// The position at which `c` is or would be inserted.
pub fn coord_position(v: &Vec<CaCoord>, c: CaCoord) -> (pos: usize)
    requires
        coords_sorted(v@),
    ensures
        pos <= v@.len(),
        forall|i: int| 0 <= i < pos ==> coord_lt(#[trigger] v@[i], c),
        forall|i: int| pos <= i < v@.len() ==> !coord_lt(#[trigger] v@[i], c),
{
    let mut lo: usize = 0;
    let mut hi: usize = v.len();
    while lo < hi
        invariant
            coords_sorted(v@),
            lo <= hi <= v@.len(),
            forall|i: int| 0 <= i < lo ==> coord_lt(#[trigger] v@[i], c),
            forall|i: int| hi <= i < v@.len() ==> !coord_lt(#[trigger] v@[i], c),
        decreases hi - lo,
    {
        let mid = lo + (hi - lo) / 2;
        if coord_less(v[mid], c) {
            lo = mid + 1;
        } else {
            hi = mid;
        }
    }
    lo
}

/// Whether the sorted set holds `c`.
pub fn coord_set_contains(v: &Vec<CaCoord>, c: CaCoord) -> (r: bool)
    requires
        coords_sorted(v@),
    ensures
        r == v@.contains(c),
{
    let pos = coord_position(v, c);
    if pos < v.len() && v[pos] == c {
        true
    } else {
        proof {
            if v@.contains(c) {
                let k = choose|k: int| 0 <= k < v@.len() && v@[k] == c;
                if k < pos {
                    assert(coord_lt(v@[k], c));
                } else if k > pos {
                    assert(coord_lt(v@[pos as int], v@[k]));
                }
            }
        }
        false
    }
}

/// Inserts `c` into a sorted set; answers whether it was absent.
pub fn insert_coord(v: &mut Vec<CaCoord>, c: CaCoord) -> (inserted: bool)
    requires
        coords_sorted(old(v)@),
    ensures
        coords_sorted(final(v)@),
        inserted == !old(v)@.contains(c),
        forall|x: CaCoord| #[trigger] final(v)@.contains(x) <==> (old(v)@.contains(x) || x == c),
{
    let pos = coord_position(v, c);
    if pos < v.len() && v[pos] == c {
        assert(v@.contains(c));
        return false;
    }
    proof {
        if old(v)@.contains(c) {
            let k = choose|k: int| 0 <= k < old(v)@.len() && old(v)@[k] == c;
            if k < pos {
                assert(coord_lt(old(v)@[k], c));
            } else if k > pos {
                assert(coord_lt(old(v)@[pos as int], old(v)@[k]));
            }
        }
    }
    let ghost before = v@;
    v.insert(pos, c);
    proof {
        let after = v@;
        assert(after.len() == before.len() + 1);
        assert forall|i: int| 0 <= i < pos implies after[i] == before[i] by {}
        assert forall|i: int| pos < i < after.len() implies after[i] == before[i - 1] by {}
        assert(after[pos as int] == c);
        assert forall|i: int, j: int| 0 <= i < j < after.len() implies coord_lt(
            #[trigger] after[i],
            #[trigger] after[j],
        ) by {
            if j < pos {
            } else if j == pos {
            } else if i < pos {
                assert(coord_lt(before[i], c));
                assert(!coord_lt(before[j - 1], c));
            } else if i == pos {
                assert(!coord_lt(before[j - 1], c));
                assert(before[j - 1] != c) by {
                    if before[j - 1] == c {
                        assert(before.contains(c));
                    }
                }
            } else {
                assert(coord_lt(before[i - 1], before[j - 1]));
            }
        }
        assert forall|x: CaCoord| #[trigger] after.contains(x) <==> (before.contains(x) || x == c) by {
            if after.contains(x) {
                let k = choose|k: int| 0 <= k < after.len() && after[k] == x;
                if k < pos {
                    assert(before[k] == x);
                } else if k > pos {
                    assert(before[k - 1] == x);
                }
            }
            if before.contains(x) {
                let k = choose|k: int| 0 <= k < before.len() && before[k] == x;
                if k < pos {
                    assert(after[k] == x);
                } else {
                    assert(after[k + 1] == x);
                }
            }
            if x == c {
                assert(after[pos as int] == x);
            }
        }
    }
    true
}

/// Two sorted coordinate sequences holding the same coordinates are equal.
pub proof fn lemma_sorted_coords_eq(a: Seq<CaCoord>, b: Seq<CaCoord>)
    requires
        coords_sorted(a),
        coords_sorted(b),
        forall|x: CaCoord| a.contains(x) <==> b.contains(x),
    ensures
        a == b,
    decreases a.len(),
{
    if a.len() == 0 {
        if b.len() > 0 {
            assert(b.contains(b[0]));
        }
        assert(a =~= b);
    } else {
        assert(a.contains(a[0]));
        assert(b.len() > 0);
        assert(b.contains(b[0]));
        let j = choose|j: int| 0 <= j < b.len() && b[j] == a[0];
        let k = choose|k: int| 0 <= k < a.len() && a[k] == b[0];
        if j > 0 {
            assert(coord_lt(b[0], b[j]));
            if k > 0 {
                assert(coord_lt(a[0], a[k]));
            }
        }
        assert(a[0] == b[0]);
        let a1 = a.drop_first();
        let b1 = b.drop_first();
        assert(coords_sorted(a1));
        assert(coords_sorted(b1));
        assert forall|x: CaCoord| a1.contains(x) <==> b1.contains(x) by {
            if a1.contains(x) {
                let i = choose|i: int| 0 <= i < a1.len() && a1[i] == x;
                assert(a[i + 1] == x);
                assert(coord_lt(a[0], a[i + 1]));
                assert(b.contains(x));
                let m = choose|m: int| 0 <= m < b.len() && b[m] == x;
                assert(m != 0);
                assert(b1[m - 1] == x);
            }
            if b1.contains(x) {
                let i = choose|i: int| 0 <= i < b1.len() && b1[i] == x;
                assert(b[i + 1] == x);
                assert(coord_lt(b[0], b[i + 1]));
                assert(a.contains(x));
                let m = choose|m: int| 0 <= m < a.len() && a[m] == x;
                assert(m != 0);
                assert(a1[m - 1] == x);
            }
        }
        lemma_sorted_coords_eq(a1, b1);
        assert(a =~= b) by {
            assert forall|i: int| 0 <= i < a.len() implies a[i] == b[i] by {
                if i > 0 {
                    assert(a[i] == a1[i - 1]);
                    assert(b[i] == b1[i - 1]);
                }
            }
        }
    }
}

} // verus!
