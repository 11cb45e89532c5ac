//! A small map keyed by strings, kept as a list of entries in insertion
//! order. A later entry for a key hides an earlier one, as a later `insert`
//! into a hash map replaces an earlier one.
use vstd::prelude::*;
use crate::text::str_equal;

verus! {

pub struct StrMap<V> {
    entries: Vec<(String, V)>,
}

/// The map that a list of entries stands for: entries are applied in order,
/// so the last entry for a key gives its value.
pub open spec fn entries_map<V>(s: Seq<(String, V)>) -> Map<Seq<char>, V>
    decreases s.len(),
{
    if s.len() == 0 {
        Map::empty()
    } else {
        entries_map(s.drop_last()).insert(s.last().0@, s.last().1)
    }
}

/// Whether `j` is the last position of `s` whose key is `k`.
pub open spec fn is_last_key_index<V>(s: Seq<(String, V)>, k: Seq<char>, j: int) -> bool {
    &&& 0 <= j < s.len()
    &&& s[j].0@ == k
    &&& forall|i: int| j < i < s.len() ==> s[i].0@ != k
}

/// A key is in the map exactly when some entry carries it, and its value is
/// that of the last such entry.
pub proof fn lemma_entries_map_lookup<V>(s: Seq<(String, V)>, k: Seq<char>)
    ensures
        entries_map(s).dom().contains(k) <==> exists|i: int| 0 <= i < s.len() && s[i].0@ == k,
        forall|j: int| is_last_key_index(s, k, j) ==> entries_map(s)[k] == s[j].1,
    decreases s.len(),
{
    if s.len() > 0 {
        let p = s.drop_last();
        lemma_entries_map_lookup(p, k);
        if s.last().0@ != k {
            assert forall|j: int| is_last_key_index(s, k, j) implies entries_map(s)[k] == s[j].1 by {
                assert(is_last_key_index(p, k, j));
            }
            if exists|i: int| 0 <= i < s.len() && s[i].0@ == k {
                let i = choose|i: int| 0 <= i < s.len() && s[i].0@ == k;
                assert(p[i].0@ == k);
            }
        } else {
            assert(s[s.len() - 1].0@ == k);
        }
    }
}

/// Writing a value at the last position of its key is inserting it.
proof fn lemma_entries_map_update_last<V>(s: Seq<(String, V)>, k: Seq<char>, j: int, e: (String, V))
    requires
        is_last_key_index(s, k, j),
        e.0@ == k,
    ensures
        entries_map(s.update(j, e)) == entries_map(s).insert(k, e.1),
    decreases s.len(),
{
    let t = s.update(j, e);
    if j == s.len() - 1 {
        assert(t.drop_last() =~= s.drop_last());
    } else {
        let p = s.drop_last();
        assert(is_last_key_index(p, k, j));
        lemma_entries_map_update_last(p, k, j, e);
        assert(t.drop_last() =~= p.update(j, e));
        assert(s.last().0@ != k);
        assert(entries_map(t) =~= entries_map(s).insert(k, e.1));
    }
}

/// The entries of `s` whose key is not `k`, in order.
pub open spec fn without_key<V>(s: Seq<(String, V)>, k: Seq<char>) -> Seq<(String, V)>
    decreases s.len(),
{
    if s.len() == 0 {
        s
    } else if s.last().0@ != k {
        without_key(s.drop_last(), k).push(s.last())
    } else {
        without_key(s.drop_last(), k)
    }
}

/// Dropping every entry of a key is removing the key.
proof fn lemma_entries_map_without<V>(s: Seq<(String, V)>, k: Seq<char>)
    ensures
        entries_map(without_key(s, k)) == entries_map(s).remove(k),
    decreases s.len(),
{
    if s.len() == 0 {
        assert(entries_map(s).remove(k) =~= Map::empty());
    } else {
        let p = s.drop_last();
        lemma_entries_map_without(p, k);
        if s.last().0@ != k {
            assert(without_key(s, k).drop_last() =~= without_key(p, k));
            assert(entries_map(without_key(s, k)) =~= entries_map(s).remove(k));
        } else {
            assert(entries_map(without_key(s, k)) =~= entries_map(s).remove(k));
        }
    }
}

impl<V> StrMap<V> {
    pub closed spec fn view(&self) -> Map<Seq<char>, V> {
        entries_map(self.entries@)
    }

    /// The entries in the order they were written; the last entry of a key
    /// gives its value.
    pub fn entries(&self) -> (v: &Vec<(String, V)>)
        ensures
            entries_map(v@) == self.view(),
    {
        &self.entries
    }

    /// The entries in the order they were written, taking the map apart.
    pub fn into_entries(self) -> (v: Vec<(String, V)>)
        ensures
            entries_map(v@) == self.view(),
    {
        self.entries
    }

    pub fn new() -> (m: Self)
        ensures
            m.view() == Map::<Seq<char>, V>::empty(),
    {
        StrMap { entries: Vec::new() }
    }

    /// The last position holding `key`, if any.
    fn find_last(&self, key: &str) -> (r: Option<usize>)
        ensures
            r matches Some(j) ==> is_last_key_index(self.entries@, key@, j as int),
            r is None ==> forall|i: int| 0 <= i < self.entries@.len() ==> self.entries@[i].0@ != key@,
    {
        let mut i: usize = self.entries.len();
        while i > 0
            invariant
                i <= self.entries.len(),
                forall|t: int| i <= t < self.entries@.len() ==> self.entries@[t].0@ != key@,
            decreases i,
        {
            i = i - 1;
            if str_equal(self.entries[i].0.as_str(), key) {
                return Some(i);
            }
        }
        None
    }

    pub fn contains(&self, key: &str) -> (r: bool)
        ensures
            r == self.view().dom().contains(key@),
    {
        proof {
            lemma_entries_map_lookup(self.entries@, key@);
        }
        self.find_last(key).is_some()
    }

    pub fn get(&self, key: &str) -> (r: Option<&V>)
        ensures
            r matches Some(v) ==> self.view().dom().contains(key@) && *v == self.view()[key@],
            r is None ==> !self.view().dom().contains(key@),
    {
        proof {
            lemma_entries_map_lookup(self.entries@, key@);
        }
        match self.find_last(key) {
            Some(j) => Some(&self.entries[j].1),
            None => None,
        }
    }

    pub fn insert(&mut self, key: String, value: V)
        ensures
            final(self).view() == old(self).view().insert(key@, value),
    {
        match self.find_last(key.as_str()) {
            Some(j) => {
                proof {
                    lemma_entries_map_update_last(self.entries@, key@, j as int, (key, value));
                }
                self.entries.set(j, (key, value));
            },
            None => {
                self.entries.push((key, value));
                proof {
                    assert(self.entries@.drop_last() =~= old(self).entries@);
                }
            },
        }
    }

    pub fn remove(&mut self, key: &str)
        ensures
            final(self).view() == old(self).view().remove(key@),
    {
        let mut kept: Vec<(String, V)> = Vec::new();
        let mut taken: Vec<(String, V)> = Vec::new();
        std::mem::swap(&mut taken, &mut self.entries);
        let ghost orig = taken@;
        proof {
            assert(orig == old(self).entries@);
        }
        // Move the entries out one at a time, keeping those with another key.
        for e in it: taken
            invariant
                it.seq() == orig,
                kept@ == without_key(orig.take(it.index() as int), key@),
        {
            proof {
                let i = it.index() as int;
                assert(e == orig[i]);
                assert(orig.take(i + 1).drop_last() =~= orig.take(i));
                assert(orig.take(i + 1).last() == e);
            }
            if !str_equal(e.0.as_str(), key) {
                kept.push(e);
            }
        }
        proof {
            assert(orig.take(orig.len() as int) =~= orig);
            lemma_entries_map_without(orig, key@);
        }
        self.entries = kept;
    }
}

} // verus!
