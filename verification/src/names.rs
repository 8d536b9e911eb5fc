//! A name-to-value table backed by a vector of entries, viewed as a
//! `Map<Seq<char>, V::V>`. Keys are pairwise distinct; the distinctness
//! is an internal type invariant, invisible to callers.

use vstd::prelude::*;

verus! {

/// All entry keys are pairwise distinct (as character sequences).
spec fn keys_distinct<V: View>(s: Seq<(String, V)>) -> bool {
    forall|i: int, j: int| 0 <= i < j < s.len() ==> s[i].0@ != s[j].0@
}

/// The map a sequence of entries denotes.
spec fn map_of<V: View>(s: Seq<(String, V)>) -> Map<Seq<char>, V::V>
    decreases s.len(),
{
    if s.len() == 0 {
        Map::empty()
    } else {
        map_of(s.drop_last()).insert(s.last().0@, s.last().1@)
    }
}

proof fn lemma_map_of_contains<V: View>(s: Seq<(String, V)>, x: Seq<char>)
    ensures
        map_of(s).contains_key(x) <==> exists|i: int| 0 <= i < s.len() && s[i].0@ == x,
    decreases s.len(),
{
    if s.len() == 0 {
    } else {
        let dl = s.drop_last();
        lemma_map_of_contains(dl, x);
        assert(forall|i: int| 0 <= i < dl.len() ==> dl[i] == s[i]);
        if map_of(s).contains_key(x) {
            if s.last().0@ == x {
                assert(s[s.len() - 1].0@ == x);
            } else {
                let i = choose|i: int| 0 <= i < dl.len() && dl[i].0@ == x;
                assert(s[i].0@ == x);
            }
        }
        if exists|i: int| 0 <= i < s.len() && s[i].0@ == x {
            let i = choose|i: int| 0 <= i < s.len() && s[i].0@ == x;
            if i < s.len() - 1 {
                assert(dl[i].0@ == x);
            }
        }
    }
}

proof fn lemma_map_of_get<V: View>(s: Seq<(String, V)>, i: int)
    requires
        keys_distinct(s),
        0 <= i < s.len(),
    ensures
        map_of(s).contains_key(s[i].0@),
        map_of(s)[s[i].0@] == s[i].1@,
    decreases s.len(),
{
    let dl = s.drop_last();
    if i == s.len() - 1 {
    } else {
        assert(keys_distinct(dl)) by {
            assert(forall|p: int| 0 <= p < dl.len() ==> dl[p] == s[p]);
        }
        lemma_map_of_get(dl, i);
        assert(s[i].0@ != s.last().0@);
    }
}

proof fn lemma_map_of_remove<V: View>(s: Seq<(String, V)>, i: int)
    requires
        keys_distinct(s),
        0 <= i < s.len(),
    ensures
        map_of(s.remove(i)) == map_of(s).remove(s[i].0@),
    decreases s.len(),
{
    let dl = s.drop_last();
    assert(keys_distinct(dl)) by {
        assert(forall|p: int| 0 <= p < dl.len() ==> dl[p] == s[p]);
    }
    lemma_map_of_contains(dl, s[i].0@);
    if i == s.len() - 1 {
        assert(s.remove(i) =~= dl);
        assert(!map_of(dl).contains_key(s[i].0@));
        assert(map_of(s).remove(s[i].0@) =~= map_of(dl));
    } else {
        let t = s.remove(i);
        assert(t.last() == s.last());
        assert(t.drop_last() =~= dl.remove(i));
        lemma_map_of_remove(dl, i);
        assert(dl[i] == s[i]);
        // the removed key differs from the last key, so insert and remove commute
        assert(s[i].0@ != s.last().0@);
        assert(map_of(t) == map_of(dl).remove(s[i].0@).insert(s.last().0@, s.last().1@));
        assert(map_of(s).remove(s[i].0@) =~= map_of(dl).remove(s[i].0@).insert(
            s.last().0@,
            s.last().1@,
        ));
    }
}

/// A table from names to values. Its view is the finite map from each
/// key's character sequence to the view of the stored value.
pub struct NameMap<V: View> {
    entries: Vec<(String, V)>,
}

impl<V: View> View for NameMap<V> {
    type V = Map<Seq<char>, V::V>;

    closed spec fn view(&self) -> Map<Seq<char>, V::V> {
        map_of(self.entries@)
    }
}

impl<V: View> NameMap<V> {
    #[verifier::type_invariant]
    spec fn inv(self) -> bool {
        keys_distinct(self.entries@)
    }

    pub fn new() -> (r: Self)
        ensures
            r@ == Map::<Seq<char>, V::V>::empty(),
    {
        NameMap { entries: Vec::new() }
    }

    pub fn contains_key(&self, k: &String) -> (r: bool)
        ensures
            r == self@.contains_key(k@),
    {
        let n = self.entries.len();
        let mut i: usize = 0;
        while i < n
            invariant
                n == self.entries.len(),
                i <= n,
                forall|j: int| 0 <= j < i ==> self.entries@[j].0@ != k@,
            decreases n - i,
        {
            if self.entries[i].0.eq(k) {
                proof {
                    lemma_map_of_contains(self.entries@, k@);
                }
                return true;
            }
            i += 1;
        }
        proof {
            lemma_map_of_contains(self.entries@, k@);
        }
        false
    }

    pub fn get<'a>(&'a self, k: &String) -> (r: Option<&'a V>)
        ensures
            match r {
                Some(v) => self@.contains_key(k@) && v@ == self@[k@],
                None => !self@.contains_key(k@),
            },
    {
        proof {
            use_type_invariant(&*self);
            lemma_map_of_contains(self.entries@, k@);
        }
        let n = self.entries.len();
        let mut i: usize = 0;
        while i < n
            invariant
                n == self.entries.len(),
                i <= n,
                keys_distinct(self.entries@),
                forall|j: int| 0 <= j < i ==> self.entries@[j].0@ != k@,
            decreases n - i,
        {
            if self.entries[i].0.eq(k) {
                proof {
                    lemma_map_of_get(self.entries@, i as int);
                }
                return Some(&self.entries[i].1);
            }
            i += 1;
        }
        None
    }

    /// Inserts a binding for a name not yet present.
    pub fn insert(&mut self, k: String, v: V)
        requires
            !old(self)@.contains_key(k@),
        ensures
            final(self)@ == old(self)@.insert(k@, v@),
    {
        proof {
            use_type_invariant(&*self);
            lemma_map_of_contains(self.entries@, k@);
        }
        let mut entries = Vec::new();
        std::mem::swap(&mut entries, &mut self.entries);
        entries.push((k, v));
        proof {
            assert(entries@.drop_last() =~= old(self).entries@);
        }
        self.entries = entries;
    }

    /// Removes the binding for a name, handing back its value.
    pub fn remove(&mut self, k: &String) -> (r: Option<V>)
        ensures
            match r {
                Some(v) => old(self)@.contains_key(k@) && v@ == old(self)@[k@] && final(self)@
                    == old(self)@.remove(k@),
                None => !old(self)@.contains_key(k@) && final(self)@ == old(self)@,
            },
    {
        proof {
            use_type_invariant(&*self);
            lemma_map_of_contains(self.entries@, k@);
        }
        let ghost s0 = self.entries@;
        let n = self.entries.len();
        let mut i: usize = 0;
        while i < n
            invariant
                n == self.entries.len(),
                i <= n,
                self.entries@ == s0,
                old(self).entries@ == s0,
                keys_distinct(s0),
                forall|j: int| 0 <= j < i ==> s0[j].0@ != k@,
            decreases n - i,
        {
            if self.entries[i].0.eq(k) {
                proof {
                    lemma_map_of_get(s0, i as int);
                    lemma_map_of_remove(s0, i as int);
                }
                let mut entries = Vec::new();
                std::mem::swap(&mut entries, &mut self.entries);
                let (_, v) = entries.remove(i);
                proof {
                    assert(entries@ =~= s0.remove(i as int));
                    assert forall|p: int, q: int|
                        0 <= p < q < entries@.len() implies entries@[p].0@ != entries@[q].0@ by {
                        let p0 = if p < i as int { p } else { p + 1 };
                        let q0 = if q < i as int { q } else { q + 1 };
                        assert(entries@[p] == s0[p0]);
                        assert(entries@[q] == s0[q0]);
                    }
                }
                self.entries = entries;
                return Some(v);
            }
            i += 1;
        }
        proof {
            lemma_map_of_contains(s0, k@);
        }
        None
    }
}

} // verus!
