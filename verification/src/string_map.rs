//! A map from text keys to values that keeps its entries in insertion order.
//!
//! Snapshot summaries are maps of property names to property values; this
//! type holds them as a sequence of entries whose keys are pairwise distinct.

use vstd::prelude::*;

use crate::text::str_equal;

verus! {

/// Whether the keys of `s` are pairwise distinct.
pub open spec fn keys_distinct<W>(s: Seq<(Seq<char>, W)>) -> bool {
    forall|i: int, j: int| 0 <= i < s.len() && 0 <= j < s.len() && i != j ==> #[trigger] s[i].0 != #[trigger] s[j].0
}

/// The map that a sequence of entries denotes; a later entry for a key wins.
pub open spec fn entries_map<W>(s: Seq<(Seq<char>, W)>) -> Map<Seq<char>, W>
    decreases s.len(),
{
    if s.len() == 0 {
        Map::empty()
    } else {
        entries_map(s.drop_last()).insert(s.last().0, s.last().1)
    }
}

/// The index of the entry of `s` with key `k`, if any.
pub open spec fn key_index<W>(s: Seq<(Seq<char>, W)>, k: Seq<char>) -> Option<int> {
    if exists|i: int| 0 <= i < s.len() && #[trigger] s[i].0 == k {
        Some(choose|i: int| 0 <= i < s.len() && #[trigger] s[i].0 == k)
    } else {
        None
    }
}

/// A key is in the map of a sequence of entries exactly when some entry has it.
pub proof fn lemma_entries_map_domain<W>(s: Seq<(Seq<char>, W)>)
    ensures
        forall|k: Seq<char>| #[trigger] entries_map(s).contains_key(k) <==> (exists|i: int| 0 <= i < s.len() && s[i].0 == k),
    decreases s.len(),
{
    if s.len() > 0 {
        let t = s.drop_last();
        lemma_entries_map_domain(t);
        assert forall|k: Seq<char>| #[trigger] entries_map(s).contains_key(k) <==> (exists|i: int| 0 <= i < s.len() && s[i].0 == k) by {
            if exists|i: int| 0 <= i < s.len() && s[i].0 == k {
                let i = choose|i: int| 0 <= i < s.len() && s[i].0 == k;
                if i < s.len() - 1 {
                    assert(t[i] == s[i]);
                }
            }
            if entries_map(t).contains_key(k) {
                let i = choose|i: int| 0 <= i < t.len() && t[i].0 == k;
                assert(s[i] == t[i]);
            }
        }
    }
}

/// The map of a sequence of entries has finitely many keys.
pub proof fn lemma_entries_map_finite<W>(s: Seq<(Seq<char>, W)>)
    ensures
        entries_map(s).dom().finite(),
    decreases s.len(),
{
    if s.len() > 0 {
        lemma_entries_map_finite(s.drop_last());
    }
}

/// With distinct keys, the map holds exactly the entries of the sequence, and
/// has as many keys as the sequence has entries.
pub proof fn lemma_entries_map<W>(s: Seq<(Seq<char>, W)>)
    requires
        keys_distinct(s),
    ensures
        entries_map(s).dom().finite(),
        entries_map(s).dom().len() == s.len(),
        forall|k: Seq<char>| #[trigger] entries_map(s).contains_key(k) <==> (exists|i: int| 0 <= i < s.len() && s[i].0 == k),
        forall|i: int| 0 <= i < s.len() ==> #[trigger] entries_map(s)[s[i].0] == s[i].1,
    decreases s.len(),
{
    if s.len() > 0 {
        let t = s.drop_last();
        assert(keys_distinct(t)) by {
            assert forall|i: int, j: int| 0 <= i < t.len() && 0 <= j < t.len() && i != j implies #[trigger] t[i].0 != #[trigger] t[j].0 by {
                assert(t[i] == s[i] && t[j] == s[j]);
            }
        }
        lemma_entries_map(t);
        let last = s.last();
        assert(!entries_map(t).contains_key(last.0)) by {
            if entries_map(t).contains_key(last.0) {
                let i = choose|i: int| 0 <= i < t.len() && t[i].0 == last.0;
                assert(s[i].0 == s[s.len() - 1].0);
            }
        }
        assert forall|k: Seq<char>| #[trigger] entries_map(s).contains_key(k) <==> (exists|i: int| 0 <= i < s.len() && s[i].0 == k) by {
            if exists|i: int| 0 <= i < s.len() && s[i].0 == k {
                let i = choose|i: int| 0 <= i < s.len() && s[i].0 == k;
                if i < s.len() - 1 {
                    assert(t[i] == s[i]);
                }
            }
            if entries_map(t).contains_key(k) {
                let i = choose|i: int| 0 <= i < t.len() && t[i].0 == k;
                assert(s[i] == t[i]);
            }
        }
        assert forall|i: int| 0 <= i < s.len() implies #[trigger] entries_map(s)[s[i].0] == s[i].1 by {
            if i < s.len() - 1 {
                assert(t[i] == s[i]);
                assert(s[i].0 != last.0);
            }
        }
    }
}

/// A map from text keys to values, kept as a sequence of entries in the order
/// in which their keys were first inserted.
#[derive(Debug)]
pub struct StringMap<V: View> {
    entries: Vec<(String, V)>,
}

impl<V: View> StringMap<V> {
    /// The entries, keys and values taken by their views, in order.
    pub closed spec fn entries(&self) -> Seq<(Seq<char>, V::V)> {
        self.entries@.map_values(|e: (String, V)| (e.0@, e.1@))
    }

    /// The values of the entries, in order, as they are held.
    pub closed spec fn values(&self) -> Seq<V> {
        self.entries@.map_values(|e: (String, V)| e.1)
    }

    /// The values held are those of the entries, taken by their views.
    pub proof fn lemma_values(&self)
        ensures
            self.values().len() == self.entries().len(),
            forall|i: int| 0 <= i < self.entries().len() ==> #[trigger] self.values()[i]@ == self.entries()[i].1,
    {
    }

    /// Every key occurs in one entry only.
    #[verifier::type_invariant]
    closed spec fn distinct_keys(&self) -> bool {
        keys_distinct(self.entries())
    }

    /// With distinct keys, the map view holds exactly the entries.
    proof fn lemma_view(&self)
        requires
            keys_distinct(self.entries()),
        ensures
            self@ == entries_map(self.entries()),
            self@.dom().finite(),
            self@.dom().len() == self.entries().len(),
            forall|k: Seq<char>| #[trigger] self@.contains_key(k) <==> (exists|i: int| 0 <= i < self.entries().len() && self.entries()[i].0 == k),
            forall|i: int| 0 <= i < self.entries().len() ==> #[trigger] self@[self.entries()[i].0] == self.entries()[i].1,
    {
        lemma_entries_map(self.entries());
    }

    /// An empty map.
    pub fn new() -> (r: Self)
        ensures
            r.entries() == Seq::<(Seq<char>, V::V)>::empty(),
            r@ == Map::<Seq<char>, V::V>::empty(),
    {
        let r = StringMap { entries: Vec::new() };
        assert(r.entries() =~= Seq::<(Seq<char>, V::V)>::empty());
        r
    }

    /// The number of entries.
    pub fn len(&self) -> (r: usize)
        ensures
            r == self.entries().len(),
            r == self@.dom().len(),
    {
        proof {
            use_type_invariant(&*self);
            self.lemma_view();
        }
        self.entries.len()
    }

    /// Whether the map has no entries.
    pub fn is_empty(&self) -> (r: bool)
        ensures
            r == (self.entries().len() == 0),
            r == (self@ == Map::<Seq<char>, V::V>::empty()),
    {
        proof {
            use_type_invariant(self);
            self.lemma_view();
            if self.entries().len() > 0 {
                assert(self@.contains_key(self.entries()[0].0));
            } else {
                assert(self@ =~= Map::<Seq<char>, V::V>::empty());
            }
        }
        self.entries.len() == 0
    }

    /// The key of the entry at `i`.
    pub fn key_at(&self, i: usize) -> (r: &String)
        requires
            i < self.entries().len(),
        ensures
            r@ == self.entries()[i as int].0,
            forall|j: int| 0 <= j < self.entries().len() && j != i ==> #[trigger] self.entries()[j].0 != r@,
    {
        proof { use_type_invariant(self); }
        &self.entries[i].0
    }

    /// The value of the entry at `i`.
    pub fn value_at(&self, i: usize) -> (r: &V)
        requires
            i < self.entries().len(),
        ensures
            r@ == self.entries()[i as int].1,
    {
        &self.entries[i].1
    }

    /// The position of the entry with key `key`, if there is one.
    pub fn find(&self, key: &str) -> (r: Option<usize>)
        ensures
            r matches Some(i) ==> key_index(self.entries(), key@) == Some(i as int),
            r is None ==> key_index(self.entries(), key@) is None,
            match r {
                Some(i) => i < self.entries().len() && self.entries()[i as int].0 == key@,
                None => !self@.contains_key(key@),
            },
    {
        proof {
            use_type_invariant(self);
            self.lemma_view();
        }
        let n = self.entries.len();
        let mut i: usize = 0;
        while i < n
            invariant
                n == self.entries().len(),
                keys_distinct(self.entries()),
                i <= n,
                forall|j: int| 0 <= j < i ==> self.entries()[j].0 != key@,
            decreases n - i,
        {
            if str_equal(self.entries[i].0.as_str(), key) {
                assert(self.entries()[i as int].0 == key@);
                proof {
                    let c = choose|j: int| 0 <= j < self.entries().len() && #[trigger] self.entries()[j].0 == key@;
                    if c != i {
                        assert(self.entries()[c].0 != self.entries()[i as int].0);
                    }
                }
                return Some(i);
            }
            i = i + 1;
        }
        assert(key_index(self.entries(), key@) is None);
        None
    }

    /// The value stored under `key`, if any.
    pub fn get(&self, key: &str) -> (r: Option<&V>)
        ensures
            self@.contains_key(key@) == r is Some,
            r matches Some(v) ==> v@ == self@[key@],
    {
        proof {
            use_type_invariant(&*self);
            self.lemma_view();
        }
        match self.find(key) {
            Some(i) => Some(&self.entries[i].1),
            None => None,
        }
    }

    /// Whether some entry has the key `key`.
    pub fn contains_key(&self, key: &str) -> (r: bool)
        ensures
            r == self@.contains_key(key@),
    {
        proof {
            use_type_invariant(&*self);
            self.lemma_view();
        }
        self.find(key).is_some()
    }

    /// Stores `value` under `key`: in place of the present value if the key is
    /// there, else as a new last entry. Gives back the value it replaced.
    pub fn insert(&mut self, key: String, value: V) -> (r: Option<V>)
        ensures
            final(self)@ == old(self)@.insert(key@, value@),
            old(self)@.contains_key(key@) == r is Some,
            r matches Some(v) ==> v@ == old(self)@[key@],
            match key_index(old(self).entries(), key@) {
                Some(i) => final(self).entries() == old(self).entries().update(i, (key@, value@)),
                None => final(self).entries() == old(self).entries().push((key@, value@)),
            },
            !old(self)@.contains_key(key@) ==> final(self).entries() == old(self).entries().push((key@, value@)),
    {
        proof {
            use_type_invariant(&*self);
            self.lemma_view();
        }
        let ghost old_entries = self.entries();
        let found = self.find(key.as_str());
        let mut entries = Vec::new();
        std::mem::swap(&mut entries, &mut self.entries);
        let ghost n = entries@.len();
        let r = match found {
            Some(i) => {
                let mut old_entry = (key, value);
                std::mem::swap(&mut old_entry, &mut entries[i]);
                Some(old_entry.1)
            },
            None => {
                entries.push((key, value));
                None
            },
        };
        let ghost new_entries = entries@.map_values(|e: (String, V)| (e.0@, e.1@));
        proof {
            match found {
                Some(i) => {
                    assert(new_entries =~= old_entries.update(i as int, (key@, value@)));
                    assert forall|a: int, b: int| 0 <= a < new_entries.len() && 0 <= b < new_entries.len() && a != b implies #[trigger] new_entries[a].0 != #[trigger] new_entries[b].0 by {
                        if a != i && b != i {
                            assert(new_entries[a] == old_entries[a]);
                            assert(new_entries[b] == old_entries[b]);
                        } else if a == i {
                            assert(new_entries[b] == old_entries[b]);
                            assert(old_entries[a].0 == key@);
                        } else {
                            assert(new_entries[a] == old_entries[a]);
                            assert(old_entries[b].0 == key@);
                        }
                    }
                    lemma_entries_map(new_entries);
                    lemma_entries_map(old_entries);
                    assert(entries_map(new_entries) =~= entries_map(old_entries).insert(key@, value@)) by {
                        assert forall|k: Seq<char>| #[trigger] entries_map(new_entries).contains_key(k) == entries_map(old_entries).insert(key@, value@).contains_key(k) by {
                            if exists|a: int| 0 <= a < new_entries.len() && new_entries[a].0 == k {
                                let a = choose|a: int| 0 <= a < new_entries.len() && new_entries[a].0 == k;
                                if a != i {
                                    assert(old_entries[a] == new_entries[a]);
                                }
                            }
                            if exists|a: int| 0 <= a < old_entries.len() && old_entries[a].0 == k {
                                let a = choose|a: int| 0 <= a < old_entries.len() && old_entries[a].0 == k;
                                if a != i {
                                    assert(old_entries[a] == new_entries[a]);
                                } else {
                                    assert(new_entries[a].0 == k);
                                }
                            }
                        }
                        assert forall|k: Seq<char>| #[trigger] entries_map(new_entries).contains_key(k) implies entries_map(new_entries)[k] == entries_map(old_entries).insert(key@, value@)[k] by {
                            let a = choose|a: int| 0 <= a < new_entries.len() && new_entries[a].0 == k;
                            if a != i {
                                assert(old_entries[a] == new_entries[a]);
                            }
                        }
                    }
                },
                None => {
                    assert(new_entries =~= old_entries.push((key@, value@)));
                    assert forall|a: int, b: int| 0 <= a < new_entries.len() && 0 <= b < new_entries.len() && a != b implies #[trigger] new_entries[a].0 != #[trigger] new_entries[b].0 by {
                        if a < old_entries.len() && b < old_entries.len() {
                            assert(new_entries[a] == old_entries[a]);
                            assert(new_entries[b] == old_entries[b]);
                        } else if a < old_entries.len() {
                            assert(new_entries[a] == old_entries[a]);
                        } else {
                            assert(new_entries[b] == old_entries[b]);
                        }
                    }
                    assert(new_entries.drop_last() =~= old_entries);
                },
            }
        }
        self.entries = entries;
        r
    }
}

impl<V: View + Clone> Clone for StringMap<V> {
    /// A copy with the same keys in the same order, each value cloned.
    fn clone(&self) -> (r: Self)
        ensures
            r.entries().len() == self.entries().len(),
            forall|i: int| 0 <= i < self.entries().len() ==> #[trigger] r.entries()[i].0 == self.entries()[i].0,
            forall|i: int| 0 <= i < self.entries().len() ==> cloned::<V>(self.values()[i], #[trigger] r.values()[i]),
    {
        proof { use_type_invariant(self); }
        let n = self.entries.len();
        let mut entries: Vec<(String, V)> = Vec::new();
        let mut i: usize = 0;
        while i < n
            invariant
                n == self.entries@.len(),
                i <= n,
                keys_distinct(self.entries()),
                entries@.len() == i,
                forall|j: int| 0 <= j < i ==> #[trigger] entries@[j].0@ == self.entries@[j].0@,
                forall|j: int| 0 <= j < i ==> cloned::<V>(self.entries@[j].1, #[trigger] entries@[j].1),
            decreases n - i,
        {
            let key = self.entries[i].0.clone();
            let value = self.entries[i].1.clone();
            entries.push((key, value));
            i = i + 1;
        }
        let ghost ne = entries@.map_values(|e: (String, V)| (e.0@, e.1@));
        assert forall|a: int, b: int| 0 <= a < ne.len() && 0 <= b < ne.len() && a != b implies #[trigger] ne[a].0 != #[trigger] ne[b].0 by {
            assert(ne[a].0 == entries@[a].0@ && entries@[a].0@ == self.entries@[a].0@);
            assert(ne[b].0 == entries@[b].0@ && entries@[b].0@ == self.entries@[b].0@);
            assert(self.entries()[a].0 != self.entries()[b].0);
        }
        let r = StringMap { entries };
        assert(forall|j: int| 0 <= j < n ==> #[trigger] r.entries()[j].0 == self.entries()[j].0);
        assert(forall|j: int| 0 <= j < n ==> #[trigger] r.values()[j] == entries@[j].1 && self.values()[j] == self.entries@[j].1);
        r
    }
}

impl PartialEq for StringMap<String> {
    /// Two maps are equal when they hold the same keys with the same values,
    /// whatever the order of their entries.
    fn eq(&self, other: &Self) -> (r: bool) {
        proof {
            use_type_invariant(self);
            use_type_invariant(other);
            self.lemma_view();
            other.lemma_view();
        }
        let n = self.entries.len();
        if n != other.entries.len() {
            return false;
        }
        let mut i: usize = 0;
        while i < n
            invariant
                n == self.entries().len(),
                n == other.entries().len(),
                keys_distinct(self.entries()),
                keys_distinct(other.entries()),
                self@ == entries_map(self.entries()),
                other@ == entries_map(other.entries()),
                self@.dom().finite(),
                other@.dom().finite(),
                self@.dom().len() == n,
                other@.dom().len() == n,
                forall|k: Seq<char>| #[trigger] self@.contains_key(k) <==> (exists|j: int| 0 <= j < self.entries().len() && self.entries()[j].0 == k),
                forall|j: int| 0 <= j < self.entries().len() ==> #[trigger] self@[self.entries()[j].0] == self.entries()[j].1,
                i <= n,
                forall|j: int| 0 <= j < i ==> other@.contains_key(#[trigger] self.entries()[j].0)
                    && other@[self.entries()[j].0] == self.entries()[j].1,
            decreases n - i,
        {
            match other.get(self.entries[i].0.as_str()) {
                Some(v) => {
                    if !(*v == self.entries[i].1) {
                        assert(self@[self.entries()[i as int].0] == self.entries()[i as int].1);
                        return false;
                    }
                },
                None => {
                    assert(self@.contains_key(self.entries()[i as int].0));
                    return false;
                },
            }
            i = i + 1;
        }
        proof {
            assert forall|k: Seq<char>| #[trigger] self@.contains_key(k) implies other@.contains_key(k) && other@[k] == self@[k] by {
                let j = choose|j: int| 0 <= j < self.entries().len() && self.entries()[j].0 == k;
                assert(other@.contains_key(self.entries()[j].0));
            }
            vstd::set_lib::lemma_subset_equality(self@.dom(), other@.dom());
            assert(self@ =~= other@);
        }
        true
    }
}

impl Eq for StringMap<String> {
}

impl vstd::std_specs::cmp::PartialEqSpecImpl for StringMap<String> {
    open spec fn obeys_eq_spec() -> bool {
        true
    }

    open spec fn eq_spec(&self, other: &StringMap<String>) -> bool {
        self@ == other@
    }
}

impl<V: View> View for StringMap<V> {
    type V = Map<Seq<char>, V::V>;

    open spec fn view(&self) -> Map<Seq<char>, V::V> {
        entries_map(self.entries())
    }
}

} // verus!
