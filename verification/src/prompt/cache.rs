//! Memoization of static prompt sections across turns, keyed by label.
use vstd::prelude::*;
use crate::text::{owned, str_eq};

verus! {

/// Entries as a map; a later entry shadows an earlier one.
pub open spec fn entries_map(s: Seq<(String, String)>) -> Map<Seq<char>, Seq<char>>
    decreases s.len(),
{
    if s.len() == 0 {
        Map::empty()
    } else {
        entries_map(s.drop_last()).insert(s.last().0@, s.last().1@)
    }
}

/// No label occurs twice.
pub open spec fn unique_labels(s: Seq<(String, String)>) -> bool {
    forall|i: int, j: int| 0 <= i < j < s.len() ==> s[i].0@ != s[j].0@
}

proof fn lemma_entries_map(s: Seq<(String, String)>)
    requires
        unique_labels(s),
    ensures
        entries_map(s).dom().finite(),
        entries_map(s).dom().len() == s.len(),
        forall|k: int| 0 <= k < s.len() ==> #[trigger] entries_map(s).dom().contains(s[k].0@)
            && entries_map(s)[s[k].0@] == s[k].1@,
        forall|key: Seq<char>| #[trigger] entries_map(s).dom().contains(key)
            ==> exists|k: int| 0 <= k < s.len() && s[k].0@ == key,
    decreases s.len(),
{
    if s.len() > 0 {
        let d = s.drop_last();
        assert(unique_labels(d)) by {
            assert forall|i: int, j: int| 0 <= i < j < d.len() implies d[i].0@ != d[j].0@ by {
                assert(s[i] == d[i] && s[j] == d[j]);
            }
        }
        lemma_entries_map(d);
        let last = s.last();
        assert(!entries_map(d).dom().contains(last.0@)) by {
            if entries_map(d).dom().contains(last.0@) {
                let k = choose|k: int| 0 <= k < d.len() && d[k].0@ == last.0@;
                assert(s[k] == d[k]);
            }
        }
        assert forall|k: int| 0 <= k < s.len() implies #[trigger] entries_map(s).dom().contains(s[k].0@)
            && entries_map(s)[s[k].0@] == s[k].1@ by {
            if k < d.len() {
                assert(s[k] == d[k]);
            }
        }
        assert forall|key: Seq<char>| #[trigger] entries_map(s).dom().contains(key)
            implies exists|k: int| 0 <= k < s.len() && s[k].0@ == key by {
            if key != last.0@ {
                let k = choose|k: int| 0 <= k < d.len() && d[k].0@ == key;
                assert(s[k] == d[k]);
            } else {
                assert(s[s.len() - 1].0@ == key);
            }
        }
    }
}

proof fn lemma_entries_remove(s: Seq<(String, String)>, k: int)
    requires
        unique_labels(s),
        0 <= k < s.len(),
    ensures
        unique_labels(s.remove(k)),
        entries_map(s.remove(k)) == entries_map(s).remove(s[k].0@),
    decreases s.len(),
{
    let key = s[k].0@;
    let r = s.remove(k);
    assert(unique_labels(r)) by {
        assert forall|i: int, j: int| 0 <= i < j < r.len() implies r[i].0@ != r[j].0@ by {
            let si = if i < k { i } else { i + 1 };
            let sj = if j < k { j } else { j + 1 };
            assert(r[i] == s[si] && r[j] == s[sj]);
        }
    }
    let d = s.drop_last();
    assert(unique_labels(d)) by {
        assert forall|i: int, j: int| 0 <= i < j < d.len() implies d[i].0@ != d[j].0@ by {
            assert(s[i] == d[i] && s[j] == d[j]);
        }
    }
    lemma_entries_map(d);
    if k == s.len() - 1 {
        assert(r =~= d);
        assert(!entries_map(d).dom().contains(key)) by {
            if entries_map(d).dom().contains(key) {
                let j = choose|j: int| 0 <= j < d.len() && d[j].0@ == key;
                assert(s[j] == d[j]);
            }
        }
        assert(entries_map(s).remove(key) =~= entries_map(d));
    } else {
        lemma_entries_remove(d, k);
        assert(d[k] == s[k]);
        assert(r =~= d.remove(k).push(s.last()));
        assert(r.drop_last() =~= d.remove(k));
        assert(s.last().0@ != key);
        assert(entries_map(r) =~= entries_map(s).remove(key));
    }
}

/// Section texts memoized by label.
pub struct PromptCache {
    entries: Vec<(String, String)>,
}

impl PromptCache {
    #[verifier::type_invariant]
    closed spec fn labels_unique(&self) -> bool {
        unique_labels(self.entries@)
    }

    /// The memoized texts by label.
    pub closed spec fn view(&self) -> Map<Seq<char>, Seq<char>> {
        entries_map(self.entries@)
    }

    /// An empty cache.
    pub fn new() -> (r: Self)
        ensures
            r.view() == Map::<Seq<char>, Seq<char>>::empty(),
    {
        PromptCache { entries: Vec::new() }
    }

    fn find(&self, label: &str) -> (r: Option<usize>)
        ensures
            match r {
                Some(k) => k < self.entries@.len() && self.entries@[k as int].0@ == label@,
                None => forall|k: int| 0 <= k < self.entries@.len() ==> self.entries@[k].0@ != label@,
            },
    {
        let mut i: usize = 0;
        while i < self.entries.len()
            invariant
                i <= self.entries@.len(),
                forall|k: int| 0 <= k < i ==> self.entries@[k].0@ != label@,
            decreases self.entries@.len() - i,
        {
            if str_eq(self.entries[i].0.as_str(), label) {
                return Some(i);
            }
            i = i + 1;
        }
        None
    }

    /// The text memoized under `label`; on a miss, `compute` runs once and
    /// its text is memoized. A `None` from `compute` is not memoized.
    pub fn get_or_insert<F: FnOnce() -> Option<String>>(&mut self, label: &str, compute: F) -> (r: Option<String>)
        requires
            compute.requires(()),
        ensures
            old(self).view().dom().contains(label@) ==> (r matches Some(v) && v@ == old(self).view()[label@]
                && final(self).view() == old(self).view()),
            !old(self).view().dom().contains(label@) ==> exists|c: Option<String>| #[trigger] compute.ensures((), c) && match c {
                Some(v) => r matches Some(x) && x@ == v@ && final(self).view() == old(self).view().insert(label@, v@),
                None => r is None && final(self).view() == old(self).view(),
            },
    {
        proof {
            use_type_invariant(&*self);
            lemma_entries_map(self.entries@);
        }
        match self.find(label) {
            Some(k) => {
                return Some(self.entries[k].1.clone());
            },
            None => {},
        }
        assert(!self.view().dom().contains(label@)) by {
            if self.view().dom().contains(label@) {
                let k = choose|k: int| 0 <= k < self.entries@.len() && self.entries@[k].0@ == label@;
            }
        }
        let c = compute();
        match c {
            Some(v) => {
                let ghost cv = c;
                let item = (owned(label), v.clone());
                let ghost old_entries = self.entries@;
                assert(unique_labels(old_entries.push(item)));
                let mut entries: Vec<(String, String)> = Vec::new();
                std::mem::swap(&mut entries, &mut self.entries);
                entries.push(item);
                assert(entries@.drop_last() =~= old_entries);
                self.entries = entries;
                Some(v)
            },
            None => None,
        }
    }

    /// Forget every memoized section.
    pub fn clear(&mut self)
        ensures
            final(self).view() == Map::<Seq<char>, Seq<char>>::empty(),
    {
        self.entries = Vec::new();
    }

    /// Forget the section memoized under `label`.
    pub fn invalidate(&mut self, label: &str)
        ensures
            final(self).view() == old(self).view().remove(label@),
    {
        proof {
            use_type_invariant(&*self);
            lemma_entries_map(self.entries@);
        }
        match self.find(label) {
            Some(k) => {
                proof {
                    lemma_entries_remove(self.entries@, k as int);
                }
                let mut entries: Vec<(String, String)> = Vec::new();
                std::mem::swap(&mut entries, &mut self.entries);
                let _ = entries.remove(k);
                self.entries = entries;
            },
            None => {
                assert(old(self).view().remove(label@) =~= old(self).view()) by {
                    if self.view().dom().contains(label@) {
                        let k = choose|k: int| 0 <= k < self.entries@.len() && self.entries@[k].0@ == label@;
                    }
                }
            },
        }
    }

    /// Number of memoized sections.
    pub fn len(&self) -> (r: usize)
        ensures
            r == self.view().dom().len(),
            self.view().dom().finite(),
    {
        proof {
            use_type_invariant(self);
            lemma_entries_map(self.entries@);
        }
        self.entries.len()
    }

    /// Whether nothing is memoized.
    pub fn is_empty(&self) -> (r: bool)
        ensures
            r == (self.view().dom().len() == 0),
    {
        proof {
            use_type_invariant(self);
            lemma_entries_map(self.entries@);
        }
        self.entries.len() == 0
    }
}

}
