//! Ordered sets of texts: strictly increasing sequences under the order of
//! `String`, which compares texts character by character by code point.

use vstd::prelude::*;
use vstd::string::*;

use crate::model::texts;

verus! {

/// The order of texts: lexicographic by character code point, a proper
/// prefix first.
pub open spec fn text_lt(a: Seq<char>, b: Seq<char>) -> bool
    decreases a.len(),
{
    if a.len() == 0 {
        b.len() > 0
    } else if b.len() == 0 {
        false
    } else if (a[0] as int) < (b[0] as int) {
        true
    } else if a[0] == b[0] {
        text_lt(a.drop_first(), b.drop_first())
    } else {
        false
    }
}

pub proof fn lemma_text_lt_irreflexive(a: Seq<char>)
    ensures
        !text_lt(a, a),
    decreases a.len(),
{
    if a.len() > 0 {
        lemma_text_lt_irreflexive(a.drop_first());
    }
}

pub proof fn lemma_text_lt_transitive(a: Seq<char>, b: Seq<char>, c: Seq<char>)
    requires
        text_lt(a, b),
        text_lt(b, c),
    ensures
        text_lt(a, c),
    decreases a.len(),
{
    if a.len() > 0 && b.len() > 0 && c.len() > 0 {
        if a[0] == b[0] && b[0] == c[0] {
            lemma_text_lt_transitive(a.drop_first(), b.drop_first(), c.drop_first());
        }
    }
}

pub proof fn lemma_text_lt_total(a: Seq<char>, b: Seq<char>)
    requires
        a != b,
    ensures
        text_lt(a, b) || text_lt(b, a),
    decreases a.len(),
{
    if a.len() > 0 && b.len() > 0 && a[0] == b[0] {
        if a.drop_first() == b.drop_first() {
            assert(a =~= seq![a[0]] + a.drop_first());
            assert(b =~= seq![b[0]] + b.drop_first());
        }
        lemma_text_lt_total(a.drop_first(), b.drop_first());
    } else if a.len() == 0 && b.len() == 0 {
        assert(a =~= b);
    } else if a.len() > 0 && b.len() > 0 {
        assert((a[0] as int) != (b[0] as int));
    }
}

pub proof fn lemma_text_lt_asymmetric(a: Seq<char>, b: Seq<char>)
    requires
        text_lt(a, b),
    ensures
        !text_lt(b, a),
{
    if text_lt(b, a) {
        lemma_text_lt_transitive(a, b, a);
        lemma_text_lt_irreflexive(a);
    }
}

/// Strictly increasing, hence free of duplicates.
pub open spec fn texts_sorted(s: Seq<Seq<char>>) -> bool {
    forall|i: int, j: int| 0 <= i < j < s.len() ==> text_lt(#[trigger] s[i], #[trigger] s[j])
}

/// The texts of a finite set in increasing order.
pub open spec fn sorted_texts(s: Set<Seq<char>>) -> Seq<Seq<char>> {
    choose|r: Seq<Seq<char>>| texts_sorted(r) && forall|x: Seq<char>| #[trigger] r.contains(x) <==> s.contains(x)
}

/// Whether `a` comes before `b` in the order of texts.
pub fn text_less(a: &str, b: &str) -> (r: bool)
    ensures
        r == text_lt(a@, b@),
{
    let la = a.unicode_len();
    let lb = b.unicode_len();
    let mut i: usize = 0;
    assert(a@.skip(0) =~= a@);
    assert(b@.skip(0) =~= b@);
    while i < la && i < lb
        invariant
            la == a@.len(),
            lb == b@.len(),
            i <= la,
            i <= lb,
            forall|k: int| 0 <= k < i ==> a@[k] == b@[k],
            text_lt(a@, b@) == text_lt(a@.skip(i as int), b@.skip(i as int)),
        decreases la - i,
    {
        let x = a.get_char(i);
        let y = b.get_char(i);
        proof {
            let sa = a@.skip(i as int);
            let sb = b@.skip(i as int);
            assert(sa[0] == x);
            assert(sb[0] == y);
            assert(sa.drop_first() =~= a@.skip(i + 1));
            assert(sb.drop_first() =~= b@.skip(i + 1));
        }
        if (x as u32) < (y as u32) {
            return true;
        }
        if x != y {
            return false;
        }
        i = i + 1;
    }
    i < lb && i == la
}

/// The position at which `s` is or would be inserted.
fn text_position(v: &Vec<String>, s: &str) -> (pos: usize)
    requires
        texts_sorted(texts(v@)),
    ensures
        pos <= v@.len(),
        forall|i: int| 0 <= i < pos ==> text_lt(#[trigger] texts(v@)[i], s@),
        forall|i: int| pos <= i < v@.len() ==> !text_lt(#[trigger] texts(v@)[i], s@),
{
    let mut i: usize = 0;
    while i < v.len()
        invariant
            texts_sorted(texts(v@)),
            i <= v@.len(),
            forall|k: int| 0 <= k < i ==> text_lt(#[trigger] texts(v@)[k], s@),
        decreases v@.len() - i,
    {
        if !text_less(v[i].as_str(), s) {
            proof {
                assert forall|k: int| i <= k < v@.len() implies !text_lt(
                    #[trigger] texts(v@)[k],
                    s@,
                ) by {
                    if k > i && text_lt(texts(v@)[k], s@) {
                        assert(text_lt(texts(v@)[i as int], texts(v@)[k]));
                        lemma_text_lt_transitive(texts(v@)[i as int], texts(v@)[k], s@);
                    }
                }
            }
            return i;
        }
        i = i + 1;
    }
    i
}

/// Inserts `s` into a sorted set of texts; answers whether it was absent.
pub fn insert_text(v: &mut Vec<String>, s: String) -> (inserted: bool)
    requires
        texts_sorted(texts(old(v)@)),
    ensures
        texts_sorted(texts(final(v)@)),
        inserted == !texts(old(v)@).contains(s@),
        forall|x: Seq<char>| #[trigger] texts(final(v)@).contains(x) <==> (texts(old(v)@).contains(x)
            || x == s@),
{
    let ghost before = texts(v@);
    let pos = text_position(v, s.as_str());
    if pos < v.len() && crate::text::str_eq(v[pos].as_str(), s.as_str()) {
        assert(before[pos as int] == s@);
        assert(before.contains(s@));
        return false;
    }
    proof {
        if pos < before.len() {
            assert(!text_lt(before[pos as int], s@));
            assert(before[pos as int] != s@);
            lemma_text_lt_total(before[pos as int], s@);
        }
        if before.contains(s@) {
            let k = choose|k: int| 0 <= k < before.len() && before[k] == s@;
            if k < pos {
                assert(text_lt(before[k], s@));
                lemma_text_lt_irreflexive(s@);
            } else if k > pos {
                assert(text_lt(before[pos as int], before[k]));
                lemma_text_lt_asymmetric(s@, before[pos as int]);
            }
        }
        assert(!before.contains(s@));
        assert forall|k: int| pos <= k < before.len() implies text_lt(s@, #[trigger] before[k]) by {
            assert(!text_lt(before[k], s@));
            if before[k] == s@ {
                assert(before.contains(s@));
            }
            lemma_text_lt_total(before[k], s@);
        }
    }
    let ghost sv = s@;
    v.insert(pos, s);
    proof {
        let after = texts(v@);
        assert(after.len() == before.len() + 1);
        assert forall|i: int| 0 <= i < pos implies after[i] == before[i] by {}
        assert forall|i: int| pos < i < after.len() implies after[i] == before[i - 1] by {}
        assert(after[pos as int] == sv);
        assert forall|i: int, j: int| 0 <= i < j < after.len() implies text_lt(
            #[trigger] after[i],
            #[trigger] after[j],
        ) by {
            if j < pos {
            } else if j == pos {
            } else if i < pos {
                assert(text_lt(before[i], sv));
                assert(text_lt(sv, before[j - 1]));
                lemma_text_lt_transitive(before[i], sv, before[j - 1]);
            } else if i == pos {
                assert(text_lt(sv, before[j - 1]));
            } else {
                assert(text_lt(before[i - 1], before[j - 1]));
            }
        }
        assert forall|x: Seq<char>| #[trigger] after.contains(x) <==> (before.contains(x) || x == sv) by {
            if after.contains(x) {
                let k = choose|k: int| 0 <= k < after.len() && after[k] == x;
                if k < pos {
                    assert(before[k] == x);
                } else if k > pos {
                    assert(before[k - 1] == x);
                }
            }
            if before.contains(x) {
                let k = choose|k: int| 0 <= k < before.len() && before[k] == x;
                if k < pos {
                    assert(after[k] == x);
                } else {
                    assert(after[k + 1] == x);
                }
            }
            if x == sv {
                assert(after[pos as int] == x);
            }
        }
    }
    true
}

/// Two sorted text sequences holding the same texts are equal.
pub proof fn lemma_sorted_texts_eq(a: Seq<Seq<char>>, b: Seq<Seq<char>>)
    requires
        texts_sorted(a),
        texts_sorted(b),
        forall|x: Seq<char>| a.contains(x) <==> b.contains(x),
    ensures
        a == b,
    decreases a.len(),
{
    if a.len() == 0 {
        if b.len() > 0 {
            assert(b.contains(b[0]));
        }
        assert(a =~= b);
    } else {
        assert(a.contains(a[0]));
        assert(b.len() > 0);
        assert(b.contains(b[0]));
        let j = choose|j: int| 0 <= j < b.len() && b[j] == a[0];
        let k = choose|k: int| 0 <= k < a.len() && a[k] == b[0];
        if j > 0 {
            assert(text_lt(b[0], b[j]));
            if k > 0 {
                assert(text_lt(a[0], a[k]));
                lemma_text_lt_asymmetric(a[0], b[0]);
            } else {
                lemma_text_lt_irreflexive(a[0]);
            }
        }
        assert(a[0] == b[0]);
        let a1 = a.drop_first();
        let b1 = b.drop_first();
        assert(texts_sorted(a1));
        assert(texts_sorted(b1));
        assert forall|x: Seq<char>| a1.contains(x) <==> b1.contains(x) by {
            if a1.contains(x) {
                let i = choose|i: int| 0 <= i < a1.len() && a1[i] == x;
                assert(a[i + 1] == x);
                assert(text_lt(a[0], a[i + 1]));
                assert(b.contains(x));
                let m = choose|m: int| 0 <= m < b.len() && b[m] == x;
                if m == 0 {
                    lemma_text_lt_irreflexive(x);
                }
                assert(b1[m - 1] == x);
            }
            if b1.contains(x) {
                let i = choose|i: int| 0 <= i < b1.len() && b1[i] == x;
                assert(b[i + 1] == x);
                assert(text_lt(b[0], b[i + 1]));
                assert(a.contains(x));
                let m = choose|m: int| 0 <= m < a.len() && a[m] == x;
                if m == 0 {
                    lemma_text_lt_irreflexive(x);
                }
                assert(a1[m - 1] == x);
            }
        }
        lemma_sorted_texts_eq(a1, b1);
        assert(a =~= b) by {
            assert forall|i: int| 0 <= i < a.len() implies a[i] == b[i] by {
                if i > 0 {
                    assert(a[i] == a1[i - 1]);
                    assert(b[i] == b1[i - 1]);
                }
            }
        }
    }
}

/// A sorted sequence of the texts of a set is the one `sorted_texts` names.
pub proof fn lemma_sorted_texts(s: Set<Seq<char>>, r: Seq<Seq<char>>)
    requires
        texts_sorted(r),
        forall|x: Seq<char>| #[trigger] r.contains(x) <==> s.contains(x),
    ensures
        sorted_texts(s) == r,
{
    let e = sorted_texts(s);
    assert(texts_sorted(e) && forall|x: Seq<char>| #[trigger] e.contains(x) <==> s.contains(x));
    lemma_sorted_texts_eq(r, e);
}

/// The distinct values in increasing order.
pub fn dedupe_strings(values: Vec<String>) -> (r: Vec<String>)
    ensures
        texts(r@) == sorted_texts(texts(values@).to_set()),
{
    let ghost src = texts(values@);
    let mut values = values;
    let mut out: Vec<String> = Vec::new();
    let ghost mut taken: int = 0;
    assert(texts(out@) =~= Seq::<Seq<char>>::empty());
    while values.len() > 0
        invariant
            0 <= taken <= src.len(),
            texts(values@) == src.skip(taken),
            texts_sorted(texts(out@)),
            forall|x: Seq<char>| #[trigger] texts(out@).contains(x) <==> src.take(taken).contains(x),
        decreases values@.len(),
    {
        let ghost vv = texts(values@);
        let s = values.remove(0);
        proof {
            assert(vv.len() > 0);
            assert(src.skip(taken).len() == src.len() - taken);
            assert(vv[0] == s@);
            assert(src.skip(taken)[0] == src[taken]);
            assert(texts(values@) =~= vv.drop_first());
            assert(vv.drop_first() =~= src.skip(taken + 1));
        }
        let ghost prev = texts(out@);
        insert_text(&mut out, s);
        proof {
            assert forall|x: Seq<char>| #[trigger] texts(out@).contains(x) <==> src.take(
                taken + 1,
            ).contains(x) by {
                let t1 = src.take(taken + 1);
                let t0 = src.take(taken);
                if t1.contains(x) {
                    let k = choose|k: int| 0 <= k < t1.len() && #[trigger] t1[k] == x;
                    if k < taken {
                        assert(t0[k] == x);
                    }
                }
                if t0.contains(x) {
                    let k = choose|k: int| 0 <= k < t0.len() && #[trigger] t0[k] == x;
                    assert(t1[k] == x);
                }
                if x == src[taken] {
                    assert(src.take(taken + 1)[taken] == x);
                }
            }
            taken = taken + 1;
        }
    }
    proof {
        assert(src.skip(taken).len() == 0);
        assert(src.take(taken) =~= src);
        lemma_sorted_texts(src.to_set(), texts(out@));
    }
    out
}

} // verus!
