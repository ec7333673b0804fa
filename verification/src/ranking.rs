//! Stable ranking by descending score: an insertion sort in which an item
//! goes after every item that scores at least as much, so equal scores keep
//! their input order.
use vstd::prelude::*;

verus! {

/// Insert `x` into a list sorted by descending score, after every element
/// whose score is at least `x`'s (so equal scores keep their order).
pub open spec fn insert_desc<T>(s: Seq<(T, nat)>, x: (T, nat)) -> Seq<(T, nat)>
    decreases s.len(),
{
    if s.len() == 0 {
        seq![x]
    } else if s.last().1 >= x.1 {
        s.push(x)
    } else {
        insert_desc(s.drop_last(), x).push(s.last())
    }
}

/// Stable sort by descending score.
pub open spec fn sort_desc<T>(s: Seq<(T, nat)>) -> Seq<(T, nat)>
    decreases s.len(),
{
    if s.len() == 0 { s } else { insert_desc(sort_desc(s.drop_last()), s.last()) }
}

/// Inserting after the last item that scores at least `x`'s score is the
/// same as inserting at that position.
pub proof fn lemma_insert_desc_at<T>(s: Seq<(T, nat)>, x: (T, nat), pos: int)
    requires
        0 <= pos <= s.len(),
        forall|k: int| pos <= k < s.len() ==> #[trigger] s[k].1 < x.1,
        pos == 0 || s[pos - 1].1 >= x.1,
    ensures
        insert_desc(s, x) == s.insert(pos, x),
    decreases s.len(),
{
    if s.len() == 0 {
        assert(s.insert(pos, x) =~= seq![x]);
    } else if pos == s.len() {
        assert(s.insert(pos, x) =~= s.push(x));
    } else {
        assert(s.last().1 < x.1);
        lemma_insert_desc_at(s.drop_last(), x, pos);
        assert(s.drop_last().insert(pos, x).push(s.last()) =~= s.insert(pos, x));
    }
}

/// Scores never increase along the sequence.
pub open spec fn sorted_desc<T>(s: Seq<(T, nat)>) -> bool {
    forall|i: int, j: int| 0 <= i < j < s.len() ==> s[i].1 >= s[j].1
}

proof fn lemma_insert_desc<T>(s: Seq<(T, nat)>, x: (T, nat))
    requires
        sorted_desc(s),
    ensures
        sorted_desc(insert_desc(s, x)),
        insert_desc(s, x).len() == s.len() + 1,
        forall|k: int| 0 <= k < insert_desc(s, x).len()
            ==> #[trigger] insert_desc(s, x)[k] == x || s.contains(insert_desc(s, x)[k]),
    decreases s.len(),
{
    if s.len() == 0 {
    } else if s.last().1 >= x.1 {
        let r = s.push(x);
        assert forall|k: int| 0 <= k < r.len() implies #[trigger] r[k] == x || s.contains(r[k]) by {
            if k < s.len() {
                assert(r[k] == s[k]);
            }
        }
    } else {
        let d = s.drop_last();
        lemma_insert_desc(d, x);
        let inner = insert_desc(d, x);
        let r = inner.push(s.last());
        assert forall|k: int| 0 <= k < inner.len() implies #[trigger] inner[k].1 >= s.last().1 by {
            if inner[k] != x {
                let j = choose|j: int| 0 <= j < d.len() && d[j] == inner[k];
                assert(s[j] == d[j]);
            }
        }
        assert forall|k: int| 0 <= k < r.len() implies #[trigger] r[k] == x || s.contains(r[k]) by {
            if k < inner.len() {
                assert(r[k] == inner[k]);
                if inner[k] != x {
                    let j = choose|j: int| 0 <= j < d.len() && d[j] == inner[k];
                    assert(s[j] == d[j]);
                }
            } else {
                assert(s[s.len() - 1] == r[k]);
            }
        }
        assert forall|i: int, j: int| 0 <= i < j < r.len() implies r[i].1 >= r[j].1 by {
            if j == r.len() - 1 {
                assert(r[i] == inner[i]);
            } else {
                assert(r[i] == inner[i]);
                assert(r[j] == inner[j]);
            }
        }
    }
}

/// Sorting keeps the length, orders by descending score, and takes its
/// elements from the input.
pub proof fn lemma_sort_desc<T>(s: Seq<(T, nat)>)
    ensures
        sorted_desc(sort_desc(s)),
        sort_desc(s).len() == s.len(),
        forall|k: int| 0 <= k < sort_desc(s).len() ==> s.contains(#[trigger] sort_desc(s)[k]),
    decreases s.len(),
{
    if s.len() > 0 {
        let d = s.drop_last();
        lemma_sort_desc(d);
        lemma_insert_desc(sort_desc(d), s.last());
        let r = sort_desc(s);
        assert forall|k: int| 0 <= k < r.len() implies s.contains(#[trigger] r[k]) by {
            if r[k] == s.last() {
                assert(s[s.len() - 1] == r[k]);
            } else {
                let j = choose|j: int| 0 <= j < sort_desc(d).len() && sort_desc(d)[j] == r[k];
                let m = choose|m: int| 0 <= m < d.len() && d[m] == sort_desc(d)[j];
                assert(s[m] == d[m]);
            }
        }
    }
}

}
