//! A map keyed by strings, kept as a list of entries with distinct keys.
//! Lookup, insertion and removal are linear; the view is a `Map` from the
//! keys' character sequences to the values.

use vstd::prelude::*;
use crate::text::str_eq;

verus! {

broadcast use vstd::string::group_string_axioms;

/// A string-keyed map with distinct keys.
#[derive(Debug)]
pub struct StrMap<V> {
    entries: Vec<(String, V)>,
}

/// The map denoted by a list of entries; later entries win.
pub open spec fn map_of<V>(s: Seq<(String, V)>) -> Map<Seq<char>, V>
    decreases s.len(),
{
    if s.len() == 0 {
        Map::empty()
    } else {
        map_of(s.drop_last()).insert(s.last().0@, s.last().1)
    }
}

/// No two entries share a key.
pub open spec fn keys_distinct<V>(s: Seq<(String, V)>) -> bool {
    forall|i: int, j: int| 0 <= i < j < s.len() ==> #[trigger] s[i].0@ != #[trigger] s[j].0@
}

/// Index of the entry whose key is `k`, if any.
pub open spec fn index_of_key<V>(s: Seq<(String, V)>, k: Seq<char>) -> Option<int>
    decreases s.len(),
{
    if s.len() == 0 {
        None
    } else if s.last().0@ == k {
        Some(s.len() - 1)
    } else {
        index_of_key(s.drop_last(), k)
    }
}

pub proof fn lemma_index_of_key<V>(s: Seq<(String, V)>, k: Seq<char>)
    ensures
        match index_of_key(s, k) {
            Some(i) => 0 <= i < s.len() && s[i].0@ == k && map_of(s).contains_key(k) && map_of(
                s,
            )[k] == s[i].1 && forall|j: int| i < j < s.len() ==> #[trigger] s[j].0@ != k,
            None => !map_of(s).contains_key(k) && forall|j: int|
                0 <= j < s.len() ==> #[trigger] s[j].0@ != k,
        },
    decreases s.len(),
{
    if s.len() > 0 {
        let t = s.drop_last();
        lemma_index_of_key(t, k);
        assert forall|j: int| 0 <= j < s.len() - 1 implies #[trigger] t[j] == s[j] by {}
        if s.last().0@ == k {
            assert(map_of(s) == map_of(t).insert(k, s.last().1));
        } else {
            match index_of_key(t, k) {
                Some(i) => {
                    assert(t[i] == s[i]);
                    assert forall|j: int| i < j < s.len() implies #[trigger] s[j].0@ != k by {
                        if j < s.len() - 1 {
                            assert(t[j] == s[j]);
                        }
                    }
                },
                None => {
                    assert forall|j: int| 0 <= j < s.len() implies #[trigger] s[j].0@ != k by {
                        if j < s.len() - 1 {
                            assert(t[j] == s[j]);
                        }
                    }
                },
            }
        }
    }
}

pub proof fn lemma_distinct_index<V>(s: Seq<(String, V)>, i: int)
    requires
        keys_distinct(s),
        0 <= i < s.len(),
    ensures
        index_of_key(s, s[i].0@) == Some(i),
{
    lemma_index_of_key(s, s[i].0@);
    match index_of_key(s, s[i].0@) {
        Some(j) => {
            if j < i {
                assert(s[j].0@ != s[i].0@);
            }
        },
        None => {
            assert(s[i].0@ != s[i].0@);
        },
    }
}

proof fn lemma_map_of_update<V>(s: Seq<(String, V)>, i: int, e: (String, V))
    requires
        keys_distinct(s),
        0 <= i < s.len(),
        e.0@ == s[i].0@,
    ensures
        map_of(s.update(i, e)) == map_of(s).insert(e.0@, e.1),
        keys_distinct(s.update(i, e)),
    decreases s.len(),
{
    let t = s.update(i, e);
    assert forall|a: int, b: int| 0 <= a < b < t.len() implies #[trigger] t[a].0@ != #[trigger] t[b].0@ by {
        assert(s[a].0@ != s[b].0@);
    }
    if i == s.len() - 1 {
        assert(t.drop_last() =~= s.drop_last());
        assert(map_of(t) =~= map_of(s).insert(e.0@, e.1));
    } else {
        assert(t.drop_last() =~= s.drop_last().update(i, e));
        assert(keys_distinct(s.drop_last()));
        lemma_map_of_update(s.drop_last(), i, e);
        assert(s.last().0@ != e.0@);
        assert(map_of(t) =~= map_of(s).insert(e.0@, e.1));
    }
}

proof fn lemma_map_of_remove<V>(s: Seq<(String, V)>, i: int)
    requires
        keys_distinct(s),
        0 <= i < s.len(),
    ensures
        map_of(s.remove(i)) == map_of(s).remove(s[i].0@),
        keys_distinct(s.remove(i)),
    decreases s.len(),
{
    let t = s.remove(i);
    let k = s[i].0@;
    assert forall|a: int, b: int| 0 <= a < b < t.len() implies #[trigger] t[a].0@ != #[trigger] t[b].0@ by {
        if b < i {
        } else if a < i {
            assert(t[b] == s[b + 1]);
        } else {
            assert(t[a] == s[a + 1]);
            assert(t[b] == s[b + 1]);
        }
    }
    if i == s.len() - 1 {
        assert(t =~= s.drop_last());
        assert(keys_distinct(s.drop_last()));
        lemma_index_of_key(s.drop_last(), k);
        match index_of_key(s.drop_last(), k) {
            Some(j) => {
                assert(s[j].0@ != s[i].0@);
            },
            None => {},
        }
        assert(map_of(t) =~= map_of(s).remove(k));
    } else {
        assert(t.drop_last() =~= s.drop_last().remove(i));
        assert(t.last() == s.last());
        assert(keys_distinct(s.drop_last()));
        lemma_map_of_remove(s.drop_last(), i);
        assert(s.last().0@ != k);
        assert(map_of(t) =~= map_of(s).remove(k));
    }
}

proof fn lemma_map_of_push<V>(s: Seq<(String, V)>, e: (String, V))
    requires
        keys_distinct(s),
        !map_of(s).contains_key(e.0@),
    ensures
        map_of(s.push(e)) == map_of(s).insert(e.0@, e.1),
        keys_distinct(s.push(e)),
{
    let t = s.push(e);
    lemma_index_of_key(s, e.0@);
    assert(t.drop_last() =~= s);
    assert forall|a: int, b: int| 0 <= a < b < t.len() implies #[trigger] t[a].0@ != #[trigger] t[b].0@ by {
        if b == s.len() {
            assert(t[a] == s[a]);
        } else {
            assert(s[a].0@ != s[b].0@);
        }
    }
}

impl<V> StrMap<V> {
    /// The map this list of entries denotes.
    pub closed spec fn view(&self) -> Map<Seq<char>, V> {
        map_of(self.entries@)
    }

    /// The keys are distinct.
    pub closed spec fn wf(&self) -> bool {
        keys_distinct(self.entries@)
    }

    /// The stored entries, in insertion order.
    pub closed spec fn entries(&self) -> Seq<(String, V)> {
        self.entries@
    }

    /// The stored values, in insertion order.
    pub open spec fn values(&self) -> Seq<V> {
        self.entries().map_values(|e: (String, V)| e.1)
    }

    /// The stored keys, in insertion order.
    pub open spec fn keys(&self) -> Seq<Seq<char>> {
        self.entries().map_values(|e: (String, V)| e.0@)
    }

    /// What every client can rely on: the entries denote the view, with
    /// distinct keys.
    pub proof fn lemma_entries(&self)
        requires
            self.wf(),
        ensures
            keys_distinct(self.entries()),
            map_of(self.entries()) == self.view(),
            forall|i: int|
                #![trigger self.entries()[i]]
                0 <= i < self.entries().len() ==> self.view().contains_key(self.entries()[i].0@)
                    && self.view()[self.entries()[i].0@] == self.entries()[i].1,
            forall|k: Seq<char>|
                #[trigger] self.view().contains_key(k) ==> exists|i: int|
                    0 <= i < self.entries().len() && #[trigger] self.entries()[i].0@ == k,
    {
        assert forall|i: int|
            #![trigger self.entries()[i]]
            0 <= i < self.entries().len() implies self.view().contains_key(self.entries()[i].0@)
                && self.view()[self.entries()[i].0@] == self.entries()[i].1 by {
            lemma_distinct_index(self.entries@, i);
            lemma_index_of_key(self.entries@, self.entries@[i].0@);
            assert(map_of(self.entries@).contains_key(self.entries@[i].0@));
        }
        assert forall|k: Seq<char>| #[trigger] self.view().contains_key(k) implies exists|i: int|
            0 <= i < self.entries().len() && #[trigger] self.entries()[i].0@ == k by {
            lemma_index_of_key(self.entries@, k);
            match index_of_key(self.entries@, k) {
                Some(i) => {
                    assert(self.entries()[i].0@ == k);
                },
                None => {},
            }
        }
    }

    /// An empty map.
    pub fn new() -> (m: Self)
        ensures
            m.wf(),
            m@ == Map::<Seq<char>, V>::empty(),
            m.entries().len() == 0,
    {
        StrMap { entries: Vec::new() }
    }

    /// Number of entries.
    pub fn len(&self) -> (n: usize)
        ensures
            n == self.entries().len(),
    {
        self.entries.len()
    }

    /// The key and value stored at position `i`.
    pub fn entry_at(&self, i: usize) -> (e: &(String, V))
        requires
            i < self.entries().len(),
        ensures
            *e == self.entries()[i as int],
    {
        &self.entries[i]
    }

    /// Position of the entry for `k`.
    pub fn find(&self, k: &str) -> (r: Option<usize>)
        requires
            self.wf(),
        ensures
            match r {
                Some(i) => index_of_key(self.entries(), k@) == Some(i as int),
                None => index_of_key(self.entries(), k@) is None,
            },
            match r {
                Some(i) => i < self.entries().len() && self.entries()[i as int].0@ == k@
                    && self@.contains_key(k@) && self@[k@] == self.entries()[i as int].1,
                None => !self@.contains_key(k@),
            },
    {
        proof {
            lemma_index_of_key(self.entries@, k@);
        }
        let mut i = self.entries.len();
        assert(self.entries@.take(i as int) =~= self.entries@);
        while i > 0
            invariant
                i <= self.entries@.len(),
                index_of_key(self.entries@, k@) == index_of_key(self.entries@.take(i as int), k@),
            decreases i,
        {
            let ghost t = self.entries@.take(i as int);
            if str_eq(self.entries[i - 1].0.as_str(), k) {
                proof {
                    lemma_index_of_key(self.entries@, k@);
                }
                return Some(i - 1);
            }
            assert(t.drop_last() =~= self.entries@.take(i - 1));
            i = i - 1;
        }
        proof {
            lemma_index_of_key(self.entries@, k@);
        }
        None
    }

    /// Whether `k` has an entry.
    pub fn contains_key(&self, k: &str) -> (r: bool)
        requires
            self.wf(),
        ensures
            r == self@.contains_key(k@),
    {
        self.find(k).is_some()
    }

    /// The value stored for `k`.
    pub fn get(&self, k: &str) -> (r: Option<&V>)
        requires
            self.wf(),
        ensures
            r == (if self@.contains_key(k@) {
                Some(&self@[k@])
            } else {
                None
            }),
    {
        match self.find(k) {
            Some(i) => Some(&self.entries[i].1),
            None => None,
        }
    }

    /// Mutable access to the value stored for `k`.
    pub fn get_mut(&mut self, k: &str) -> (r: Option<&mut V>)
        requires
            old(self).wf(),
        ensures
            final(self).wf(),
            match r {
                Some(v) => old(self)@.contains_key(k@) && *v == old(self)@[k@] && final(self)@
                    == old(self)@.insert(k@, *final(v)),
                None => !old(self)@.contains_key(k@) && final(self)@ == old(self)@,
            },
    {
        match self.find(k) {
            Some(i) => {
                let ghost key = self.entries@[i as int].0;
                let e = &mut self.entries[i];
                let v = &mut e.1;
                proof {
                    lemma_map_of_update(old(self).entries@, i as int, (key, *final(v)));
                }
                Some(v)
            },
            None => None,
        }
    }

    /// Inserts `v` for `k`, replacing any previous value in place; a new key
    /// goes to the end.
    pub fn insert(&mut self, k: String, v: V)
        requires
            old(self).wf(),
        ensures
            final(self).wf(),
            final(self)@ == old(self)@.insert(k@, v),
    {
        match self.find(k.as_str()) {
            Some(i) => {
                proof {
                    lemma_map_of_update(self.entries@, i as int, (k, v));
                }
                self.entries.set(i, (k, v));
            },
            None => {
                proof {
                    lemma_map_of_push(self.entries@, (k, v));
                }
                self.entries.push((k, v));
            },
        }
    }

    /// Removes the entry for `k`, returning its value.
    pub fn remove(&mut self, k: &str) -> (r: Option<V>)
        requires
            old(self).wf(),
        ensures
            final(self).wf(),
            final(self)@ == old(self)@.remove(k@),
            r == (if old(self)@.contains_key(k@) {
                Some(old(self)@[k@])
            } else {
                None
            }),
    {
        match self.find(k) {
            Some(i) => {
                proof {
                    lemma_map_of_remove(self.entries@, i as int);
                }
                let e = self.entries.remove(i);
                Some(e.1)
            },
            None => {
                assert(old(self)@.remove(k@) =~= old(self)@);
                None
            },
        }
    }
}

} // verus!
