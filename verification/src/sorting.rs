//! Stable ordering of records by a text key, as `sort_by` on a key's `cmp`
//! orders them: increasing key, records with equal keys in their original
//! order.

use vstd::prelude::*;

use crate::text_set::{text_less, text_lt};

verus! {

/// A record ordered by a text key of its view.
pub trait TextKeyed: View + Sized {
    spec fn view_key(v: Self::V) -> Seq<char>;

    fn key(&self) -> (r: &str)
        ensures
            r@ == Self::view_key(self@),
    ;
}

impl TextKeyed for String {
    open spec fn view_key(v: Seq<char>) -> Seq<char> {
        v
    }

    fn key(&self) -> (r: &str) {
        self.as_str()
    }
}

/// The views of a sequence of records.
pub open spec fn views<T: View>(s: Seq<T>) -> Seq<T::V> {
    s.map_values(|t: T| t@)
}

/// `x` inserted into `s` after every record whose key is not above its own.
pub open spec fn insert_by_key<T: TextKeyed>(s: Seq<T::V>, x: T::V) -> Seq<T::V>
    decreases s.len(),
{
    if s.len() == 0 || !text_lt(T::view_key(x), T::view_key(s.last())) {
        s.push(x)
    } else {
        insert_by_key::<T>(s.drop_last(), x).push(s.last())
    }
}

/// The records in increasing key order, records with equal keys in their
/// original order.
pub open spec fn sorted_by_key<T: TextKeyed>(s: Seq<T::V>) -> Seq<T::V>
    decreases s.len(),
{
    if s.len() == 0 {
        s
    } else {
        insert_by_key::<T>(sorted_by_key::<T>(s.drop_last()), s.last())
    }
}

proof fn lemma_insert_at<T: TextKeyed>(s: Seq<T::V>, x: T::V, j: int)
    requires
        0 <= j <= s.len(),
        forall|m: int| j <= m < s.len() ==> text_lt(T::view_key(x), T::view_key(#[trigger] s[m])),
        j == 0 || !text_lt(T::view_key(x), T::view_key(s[j - 1])),
    ensures
        insert_by_key::<T>(s, x) == s.take(j).push(x) + s.skip(j),
    decreases s.len(),
{
    if s.len() == j {
        assert(s.take(j) =~= s);
        assert(s.skip(j) =~= Seq::<T::V>::empty());
        assert(s.take(j).push(x) + s.skip(j) =~= s.push(x));
    } else {
        let d = s.drop_last();
        assert(text_lt(T::view_key(x), T::view_key(s[s.len() - 1])));
        assert forall|m: int| j <= m < d.len() implies text_lt(
            T::view_key(x),
            T::view_key(#[trigger] d[m]),
        ) by {
            assert(d[m] == s[m]);
        }
        if j > 0 {
            assert(d[j - 1] == s[j - 1]);
        }
        lemma_insert_at::<T>(d, x, j);
        assert(d.take(j) =~= s.take(j));
        assert(d.take(j).push(x) + d.skip(j) + seq![s.last()] =~= s.take(j).push(x) + s.skip(j));
    }
}

/// Inserts `x` into a vector after every record whose key is not above its
/// own.
pub fn insert_keyed<T: TextKeyed>(v: &mut Vec<T>, x: T)
    ensures
        views(final(v)@) == insert_by_key::<T>(views(old(v)@), x@),
{
    let ghost start = views(v@);
    let mut j: usize = v.len();
    while j > 0 && text_less(x.key(), v[j - 1].key())
        invariant
            j <= v@.len(),
            views(v@) == start,
            forall|m: int|
                j <= m < start.len() ==> text_lt(T::view_key(x@), T::view_key(#[trigger] start[m])),
        decreases j,
    {
        j = j - 1;
        assert(start[j as int] == v@[j as int]@);
    }
    proof {
        if j > 0 {
            assert(start[j - 1] == v@[j - 1]@);
        }
        lemma_insert_at::<T>(start, x@, j as int);
    }
    v.insert(j, x);
    assert(views(v@) =~= start.take(j as int).push(x@) + start.skip(j as int));
}

/// The records in increasing key order, records with equal keys in their
/// original order.
pub fn sort_by_key<T: TextKeyed>(v: Vec<T>) -> (r: Vec<T>)
    ensures
        views(r@) == sorted_by_key::<T>(views(v@)),
{
    let ghost src = views(v@);
    let mut v = v;
    let mut out: Vec<T> = Vec::new();
    let ghost mut k: int = 0;
    assert(src.take(0) =~= Seq::<T::V>::empty());
    assert(views(out@) =~= Seq::<T::V>::empty());
    while v.len() > 0
        invariant
            0 <= k <= src.len(),
            views(v@) == src.skip(k),
            views(out@) == sorted_by_key::<T>(src.take(k)),
        decreases v@.len(),
    {
        let ghost before = views(v@);
        let x = v.remove(0);
        proof {
            assert(before.len() == src.len() - k);
            assert(before[0] == x@);
            assert(src.skip(k)[0] == src[k]);
            assert(views(v@) =~= before.drop_first());
            assert(before.drop_first() =~= src.skip(k + 1));
        }
        insert_keyed(&mut out, x);
        proof {
            assert(src.take(k + 1).drop_last() =~= src.take(k));
            assert(src.take(k + 1).last() == src[k]);
            k = k + 1;
        }
    }
    proof {
        assert(src.skip(k).len() == 0);
        assert(src.take(k) =~= src);
    }
    out
}

} // verus!
