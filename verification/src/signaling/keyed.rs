//! A small map from text keys to values, kept as a list of entries with
//! distinct keys; its view is the mathematical map from the keys' text.
use vstd::prelude::*;
use crate::text::str_equal;

verus! {

/// No two entries share a key.
pub open spec fn keys_distinct<V>(s: Seq<(String, V)>) -> bool {
    forall|i: int, j: int| 0 <= i < s.len() && 0 <= j < s.len() && i != j ==> (#[trigger] s[i]).0@ != (#[trigger] s[j]).0@
}

/// Some entry has the key `k`.
pub open spec fn has_key<V>(s: Seq<(String, V)>, k: Seq<char>) -> bool {
    exists|i: int| 0 <= i < s.len() && (#[trigger] s[i]).0@ == k
}

/// The map from each key's text to its value.
pub open spec fn entries_map<V>(s: Seq<(String, V)>) -> Map<Seq<char>, V> {
    Map::new(
        |k: Seq<char>| has_key(s, k),
        |k: Seq<char>| s[choose|i: int| 0 <= i < s.len() && (#[trigger] s[i]).0@ == k].1,
    )
}

/// The entry at index `i` gives the map's value for its key.
pub proof fn lemma_entry_value<V>(s: Seq<(String, V)>, i: int)
    requires
        keys_distinct(s),
        0 <= i < s.len(),
    ensures
        entries_map(s).dom().contains(s[i].0@),
        entries_map(s)[s[i].0@] == s[i].1,
{
    let k = s[i].0@;
    assert(has_key(s, k));
    let j = choose|j: int| 0 <= j < s.len() && (#[trigger] s[j]).0@ == k;
    assert(s[j].0@ == k);
}

/// A map from text keys to values.
pub struct KeyedList<V> {
    entries: Vec<(String, V)>,
}

impl<V> KeyedList<V> {
    #[verifier::type_invariant]
    spec fn inv(self) -> bool {
        keys_distinct(self.entries@)
    }

    /// The map that the list stands for.
    pub closed spec fn map(self) -> Map<Seq<char>, V> {
        entries_map(self.entries@)
    }

    /// The number of entries.
    pub closed spec fn size(self) -> nat {
        self.entries@.len()
    }

    /// An empty map.
    pub fn new() -> (m: Self)
        ensures
            m.map() == Map::<Seq<char>, V>::empty(),
            m.size() == 0,
    {
        let m = KeyedList { entries: Vec::new() };
        assert(m.map() =~= Map::<Seq<char>, V>::empty());
        m
    }

    /// The index of the entry with key `key`.
    fn find(&self, key: &str) -> (r: Option<usize>)
        ensures
            match r {
                Some(i) => i < self.entries@.len() && self.entries@[i as int].0@ == key@,
                None => !has_key(self.entries@, key@),
            },
    {
        let n = self.entries.len();
        let mut i: usize = 0;
        while i < n
            invariant
                n == self.entries@.len(),
                i <= n,
                forall|k: int| 0 <= k < i ==> (#[trigger] self.entries@[k]).0@ != key@,
            decreases n - i,
        {
            if str_equal(self.entries[i].0.as_str(), key) {
                return Some(i);
            }
            i += 1;
        }
        None
    }

    /// Whether the key is present.
    pub fn contains_key(&self, key: &str) -> (b: bool)
        ensures
            b == self.map().dom().contains(key@),
    {
        self.find(key).is_some()
    }

    /// The value of a key.
    pub fn get(&self, key: &str) -> (r: Option<&V>)
        ensures
            match r {
                Some(v) => self.map().dom().contains(key@) && self.map()[key@] == *v,
                None => !self.map().dom().contains(key@),
            },
    {
        proof {
            use_type_invariant(self);
        }
        match self.find(key) {
            Some(i) => {
                proof {
                    lemma_entry_value(self.entries@, i as int);
                }
                Some(&self.entries[i].1)
            },
            None => None,
        }
    }

    /// The number of entries.
    pub fn len(&self) -> (n: usize)
        ensures
            n == self.size(),
            self.map().dom().finite(),
            self.map().dom().len() == n,
    {
        proof {
            use_type_invariant(self);
            lemma_dom_len(self.entries@);
        }
        self.entries.len()
    }

    /// Set the value of a key, returning the value it replaced.
    pub fn insert(&mut self, key: String, value: V) -> (old_value: Option<V>)
        ensures
            final(self).map() == old(self).map().insert(key@, value),
            match old_value {
                Some(v) => old(self).map().dom().contains(key@) && old(self).map()[key@] == v
                    && final(self).size() == old(self).size(),
                None => !old(self).map().dom().contains(key@) && final(self).size() == old(self).size() + 1,
            },
    {
        proof {
            use_type_invariant(&*self);
        }
        let ghost before = self.entries@;
        let ghost k = key@;
        let found = self.find(key.as_str());
        let mut v: Vec<(String, V)> = Vec::new();
        std::mem::swap(&mut v, &mut self.entries);
        let r = match found {
            Some(i) => {
                proof {
                    lemma_entry_value(before, i as int);
                }
                let (_, old_v) = v.remove(i);
                v.insert(i, (key, value));
                proof {
                    assert(v@ =~= before.update(i as int, v@[i as int]));
                    lemma_update_map(before, i as int, v@[i as int]);
                }
                Some(old_v)
            },
            None => {
                v.push((key, value));
                proof {
                    lemma_push_map(before, v@[before.len() as int]);
                    assert(v@ =~= before.push(v@[before.len() as int]));
                }
                None
            },
        };
        std::mem::swap(&mut v, &mut self.entries);
        r
    }

    /// Remove a key, returning its value.
    pub fn remove(&mut self, key: &str) -> (r: Option<V>)
        ensures
            final(self).map() == old(self).map().remove(key@),
            match r {
                Some(v) => old(self).map().dom().contains(key@) && old(self).map()[key@] == v
                    && final(self).size() + 1 == old(self).size(),
                None => !old(self).map().dom().contains(key@) && final(self).size() == old(self).size(),
            },
    {
        proof {
            use_type_invariant(&*self);
        }
        let ghost before = self.entries@;
        match self.find(key) {
            None => {
                proof {
                    assert(entries_map(before).remove(key@) =~= entries_map(before));
                }
                None
            },
            Some(i) => {
                proof {
                    lemma_entry_value(before, i as int);
                }
                let mut v: Vec<(String, V)> = Vec::new();
                std::mem::swap(&mut v, &mut self.entries);
                let (_, old_v) = v.remove(i);
                proof {
                    lemma_remove_map(before, i as int);
                }
                std::mem::swap(&mut v, &mut self.entries);
                Some(old_v)
            },
        }
    }

    /// The keys, each once, in an unspecified order.
    pub fn keys(&self) -> (r: Vec<String>)
        ensures
            r@.len() == self.size(),
            forall|i: int| 0 <= i < r@.len() ==> self.map().dom().contains((#[trigger] r@[i])@),
            forall|k: Seq<char>| #[trigger] self.map().dom().contains(k) ==> exists|i: int| 0 <= i < r@.len() && r@[i]@ == k,
            forall|i: int, j: int| 0 <= i < r@.len() && 0 <= j < r@.len() && i != j ==> (#[trigger] r@[i])@ != (#[trigger] r@[j])@,
    {
        proof {
            use_type_invariant(self);
        }
        let n = self.entries.len();
        let mut r: Vec<String> = Vec::with_capacity(n);
        let mut i: usize = 0;
        while i < n
            invariant
                n == self.entries@.len(),
                keys_distinct(self.entries@),
                i <= n,
                r@.len() == i,
                forall|j: int| 0 <= j < i ==> (#[trigger] r@[j])@ == self.entries@[j].0@,
            decreases n - i,
        {
            r.push(self.entries[i].0.clone());
            i += 1;
        }
        assert forall|k: Seq<char>| #[trigger] self.map().dom().contains(k) implies exists|i: int|
            0 <= i < r@.len() && r@[i]@ == k by {
            let i = choose|i: int| 0 <= i < self.entries@.len() && (#[trigger] self.entries@[i]).0@ == k;
            assert(r@[i]@ == k);
        }
        assert forall|a: int| 0 <= a < r@.len() implies self.map().dom().contains((#[trigger] r@[a])@) by {
            assert(self.entries@[a].0@ == r@[a]@);
            assert(has_key(self.entries@, r@[a]@));
        }
        r
    }

    /// The value at position `i` of the entries, with its key.
    pub fn entry_at(&self, i: usize) -> (r: (&String, &V))
        requires
            i < self.size(),
        ensures
            self.map().dom().contains(r.0@),
            self.map()[r.0@] == *r.1,
    {
        proof {
            use_type_invariant(self);
            lemma_entry_value(self.entries@, i as int);
        }
        (&self.entries[i].0, &self.entries[i].1)
    }
}

/// The number of keys is the number of entries.
proof fn lemma_dom_len<V>(s: Seq<(String, V)>)
    requires
        keys_distinct(s),
    ensures
        entries_map(s).dom().finite(),
        entries_map(s).dom().len() == s.len(),
    decreases s.len(),
{
    if s.len() == 0 {
        assert(entries_map(s).dom() =~= Set::<Seq<char>>::empty());
    } else {
        let t = s.drop_last();
        assert(keys_distinct(t));
        lemma_dom_len(t);
        assert(!has_key(t, s.last().0@)) by {
            if has_key(t, s.last().0@) {
                let i = choose|i: int| 0 <= i < t.len() && (#[trigger] t[i]).0@ == s.last().0@;
                assert(s[i] == t[i]);
            }
        }
        assert(entries_map(s).dom() =~= entries_map(t).dom().insert(s.last().0@)) by {
            assert forall|k: Seq<char>| entries_map(s).dom().contains(k) implies #[trigger] entries_map(t).dom().insert(
                s.last().0@,
            ).contains(k) by {
                let i = choose|i: int| 0 <= i < s.len() && (#[trigger] s[i]).0@ == k;
                if i < t.len() {
                    assert(t[i] == s[i]);
                }
            }
            assert forall|k: Seq<char>| #[trigger] entries_map(t).dom().insert(s.last().0@).contains(k) implies entries_map(
                s,
            ).dom().contains(k) by {
                if k != s.last().0@ {
                    let i = choose|i: int| 0 <= i < t.len() && (#[trigger] t[i]).0@ == k;
                    assert(s[i] == t[i]);
                } else {
                    assert(s[s.len() - 1].0@ == k);
                }
            }
        }
    }
}

/// Pushing an entry with a new key adds it to the map.
proof fn lemma_push_map<V>(s: Seq<(String, V)>, e: (String, V))
    requires
        keys_distinct(s),
        !has_key(s, e.0@),
    ensures
        keys_distinct(s.push(e)),
        entries_map(s.push(e)) == entries_map(s).insert(e.0@, e.1),
{
    let t = s.push(e);
    assert(keys_distinct(t)) by {
        assert forall|i: int, j: int| 0 <= i < t.len() && 0 <= j < t.len() && i != j implies (#[trigger] t[i]).0@
            != (#[trigger] t[j]).0@ by {
            if i == s.len() {
                assert(t[j] == s[j]);
            } else if j == s.len() {
                assert(t[i] == s[i]);
            } else {
                assert(t[i] == s[i] && t[j] == s[j]);
            }
        }
    }
    assert(entries_map(t) =~= entries_map(s).insert(e.0@, e.1)) by {
        assert forall|k: Seq<char>| #[trigger] entries_map(t).dom().contains(k) <==> entries_map(s).insert(e.0@, e.1).dom().contains(k) by {
            if entries_map(t).dom().contains(k) {
                let i = choose|i: int| 0 <= i < t.len() && (#[trigger] t[i]).0@ == k;
                if i < s.len() {
                    assert(t[i] == s[i]);
                }
            }
            if entries_map(s).dom().contains(k) {
                let i = choose|i: int| 0 <= i < s.len() && (#[trigger] s[i]).0@ == k;
                assert(t[i] == s[i]);
            }
            if k == e.0@ {
                assert(t[s.len() as int] == e);
            }
        }
        assert forall|k: Seq<char>| #[trigger] entries_map(t).dom().contains(k) implies entries_map(t)[k]
            == entries_map(s).insert(e.0@, e.1)[k] by {
            let i = choose|i: int| 0 <= i < t.len() && (#[trigger] t[i]).0@ == k;
            lemma_entry_value(t, i);
            if i < s.len() {
                assert(t[i] == s[i]);
                lemma_entry_value(s, i);
            }
        }
    }
}

/// Replacing the entry at `i` by one with the same key sets that key's value.
proof fn lemma_update_map<V>(s: Seq<(String, V)>, i: int, e: (String, V))
    requires
        keys_distinct(s),
        0 <= i < s.len(),
        e.0@ == s[i].0@,
    ensures
        keys_distinct(s.update(i, e)),
        entries_map(s.update(i, e)) == entries_map(s).insert(e.0@, e.1),
{
    let t = s.update(i, e);
    assert(keys_distinct(t)) by {
        assert forall|a: int, b: int| 0 <= a < t.len() && 0 <= b < t.len() && a != b implies (#[trigger] t[a]).0@
            != (#[trigger] t[b]).0@ by {
            assert(t[a].0@ == s[a].0@);
            assert(t[b].0@ == s[b].0@);
        }
    }
    assert(entries_map(t) =~= entries_map(s).insert(e.0@, e.1)) by {
        assert forall|k: Seq<char>| #[trigger] entries_map(t).dom().contains(k) <==> entries_map(s).insert(e.0@, e.1).dom().contains(k) by {
            if entries_map(t).dom().contains(k) {
                let a = choose|a: int| 0 <= a < t.len() && (#[trigger] t[a]).0@ == k;
                assert(s[a].0@ == k);
            }
            if entries_map(s).dom().contains(k) {
                let a = choose|a: int| 0 <= a < s.len() && (#[trigger] s[a]).0@ == k;
                assert(t[a].0@ == k);
            }
            if k == e.0@ {
                assert(t[i].0@ == k);
            }
        }
        assert forall|k: Seq<char>| #[trigger] entries_map(t).dom().contains(k) implies entries_map(t)[k]
            == entries_map(s).insert(e.0@, e.1)[k] by {
            let a = choose|a: int| 0 <= a < t.len() && (#[trigger] t[a]).0@ == k;
            lemma_entry_value(t, a);
            if a != i {
                assert(t[a] == s[a]);
                lemma_entry_value(s, a);
            }
        }
    }
}

/// Removing the entry at `i` removes its key from the map.
proof fn lemma_remove_map<V>(s: Seq<(String, V)>, i: int)
    requires
        keys_distinct(s),
        0 <= i < s.len(),
    ensures
        keys_distinct(s.remove(i)),
        entries_map(s.remove(i)) == entries_map(s).remove(s[i].0@),
        s.remove(i).len() + 1 == s.len(),
{
    let t = s.remove(i);
    let idx = |a: int| if a < i { a } else { a + 1 };
    assert forall|a: int| 0 <= a < t.len() implies #[trigger] t[a] == s[idx(a)] by {}
    assert(keys_distinct(t)) by {
        assert forall|a: int, b: int| 0 <= a < t.len() && 0 <= b < t.len() && a != b implies (#[trigger] t[a]).0@
            != (#[trigger] t[b]).0@ by {
            assert(t[a] == s[idx(a)]);
            assert(t[b] == s[idx(b)]);
        }
    }
    assert(entries_map(t) =~= entries_map(s).remove(s[i].0@)) by {
        assert forall|k: Seq<char>| #[trigger] entries_map(t).dom().contains(k) <==> entries_map(s).remove(s[i].0@).dom().contains(k) by {
            if entries_map(t).dom().contains(k) {
                let a = choose|a: int| 0 <= a < t.len() && (#[trigger] t[a]).0@ == k;
                assert(t[a] == s[idx(a)]);
            }
            if entries_map(s).dom().contains(k) && k != s[i].0@ {
                let a = choose|a: int| 0 <= a < s.len() && (#[trigger] s[a]).0@ == k;
                let b = if a < i { a } else { a - 1 };
                assert(t[b] == s[idx(b)]);
            }
        }
        assert forall|k: Seq<char>| #[trigger] entries_map(t).dom().contains(k) implies entries_map(t)[k]
            == entries_map(s).remove(s[i].0@)[k] by {
            let a = choose|a: int| 0 <= a < t.len() && (#[trigger] t[a]).0@ == k;
            lemma_entry_value(t, a);
            assert(t[a] == s[idx(a)]);
            lemma_entry_value(s, idx(a));
        }
    }
}

} // verus!
