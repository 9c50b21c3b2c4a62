//! A map keyed by text, kept as a list of entries with distinct keys.
//!
//! Entries keep the order in which their keys were first inserted; the
//! content of the map is the function from each key to its value.

use vstd::prelude::*;
use crate::json::str_eq;

verus! {

/// The keys of a list of entries.
pub open spec fn key_seq<V>(s: Seq<(String, V)>) -> Seq<Seq<char>> {
    s.map_values(|e: (String, V)| e.0@)
}

/// The map that a list of entries denotes: later entries are inserted last.
pub open spec fn map_of<V>(s: Seq<(String, V)>) -> Map<Seq<char>, V>
    decreases s.len(),
{
    if s.len() == 0 {
        Map::empty()
    } else {
        map_of(s.drop_last()).insert(s.last().0@, s.last().1)
    }
}

/// The domain of the map of a list of entries is the set of its keys.
pub proof fn lemma_map_of_dom<V>(s: Seq<(String, V)>)
    ensures
        map_of(s).dom() == key_seq(s).to_set(),
    decreases s.len(),
{
    if s.len() > 0 {
        lemma_map_of_dom(s.drop_last());
        let ks = key_seq(s);
        let ks0 = key_seq(s.drop_last());
        assert(ks =~= ks0.push(s.last().0@));
        assert forall|x: Seq<char>| ks.contains(x) <==> (ks0.contains(x) || x == s.last().0@) by {
            if ks.contains(x) {
                let j = choose|j: int| 0 <= j < ks.len() && ks[j] == x;
                if j < ks0.len() { assert(ks0[j] == x); }
            }
            if ks0.contains(x) {
                let j = choose|j: int| 0 <= j < ks0.len() && ks0[j] == x;
                assert(ks[j] == x);
            }
            if x == s.last().0@ {
                assert(ks[ks.len() - 1] == x);
            }
        }
        assert(map_of(s).dom() =~= key_seq(s).to_set());
    } else {
        assert(key_seq(s) =~= Seq::<Seq<char>>::empty());
        assert(map_of(s).dom() =~= key_seq(s).to_set());
    }
}

/// With distinct keys, each entry's value is what the map gives for its key.
pub proof fn lemma_map_of_index<V>(s: Seq<(String, V)>, i: int)
    requires
        key_seq(s).no_duplicates(),
        0 <= i < s.len(),
    ensures
        map_of(s).contains_key(s[i].0@),
        map_of(s)[s[i].0@] == s[i].1,
    decreases s.len(),
{
    if i < s.len() - 1 {
        assert(key_seq(s.drop_last()) =~= key_seq(s).drop_last());
        assert(key_seq(s)[i] == s[i].0@);
        assert(key_seq(s)[s.len() - 1] == s.last().0@);
        lemma_map_of_index(s.drop_last(), i);
    }
}

/// Replacing the value of an existing entry replaces it in the map.
pub proof fn lemma_map_of_update<V>(s: Seq<(String, V)>, i: int, e: (String, V))
    requires
        key_seq(s).no_duplicates(),
        0 <= i < s.len(),
        e.0@ == s[i].0@,
    ensures
        map_of(s.update(i, e)) == map_of(s).insert(e.0@, e.1),
        key_seq(s.update(i, e)) == key_seq(s),
    decreases s.len(),
{
    assert(key_seq(s.update(i, e)) =~= key_seq(s));
    if i == s.len() - 1 {
        assert(s.update(i, e).drop_last() =~= s.drop_last());
        assert(map_of(s.update(i, e)) =~= map_of(s).insert(e.0@, e.1));
    } else {
        assert(s.update(i, e).drop_last() =~= s.drop_last().update(i, e));
        assert(key_seq(s.drop_last()) =~= key_seq(s).drop_last());
        assert(key_seq(s)[i] == s[i].0@);
        assert(key_seq(s)[s.len() - 1] == s.last().0@);
        lemma_map_of_update(s.drop_last(), i, e);
        assert(map_of(s.update(i, e)) =~= map_of(s).insert(e.0@, e.1));
    }
}

/// Removing an entry removes its key from the map.
pub proof fn lemma_map_of_remove<V>(s: Seq<(String, V)>, i: int)
    requires
        key_seq(s).no_duplicates(),
        0 <= i < s.len(),
    ensures
        map_of(s.remove(i)) == map_of(s).remove(s[i].0@),
        key_seq(s.remove(i)) == key_seq(s).remove(i),
        key_seq(s.remove(i)).no_duplicates(),
    decreases s.len(),
{
    assert(key_seq(s.remove(i)) =~= key_seq(s).remove(i));
    assert(key_seq(s.drop_last()) =~= key_seq(s).drop_last());
    if i == s.len() - 1 {
        assert(s.remove(i) =~= s.drop_last());
        lemma_map_of_dom(s.drop_last());
        assert(key_seq(s)[i] == s[i].0@);
        assert(!key_seq(s.drop_last()).contains(s[i].0@)) by {
            if key_seq(s.drop_last()).contains(s[i].0@) {
                let j = choose|j: int| 0 <= j < key_seq(s.drop_last()).len() && key_seq(s.drop_last())[j] == s[i].0@;
                assert(key_seq(s)[j] == key_seq(s)[i]);
            }
        }
        assert(map_of(s.remove(i)) =~= map_of(s).remove(s[i].0@));
    } else {
        assert(s.remove(i).drop_last() =~= s.drop_last().remove(i));
        assert(s.remove(i).last() == s.last());
        assert(key_seq(s)[i] == s[i].0@);
        assert(key_seq(s)[s.len() - 1] == s.last().0@);
        lemma_map_of_remove(s.drop_last(), i);
        assert(map_of(s.remove(i)) =~= map_of(s).remove(s[i].0@));
    }
}

/// A map keyed by text. Entries keep the order in which keys were first inserted.
#[derive(Debug)]
pub struct StrMap<V> {
    entries: Vec<(String, V)>,
}

impl<V> View for StrMap<V> {
    type V = Map<Seq<char>, V>;

    closed spec fn view(&self) -> Map<Seq<char>, V> {
        map_of(self.entries@)
    }
}

impl<V> StrMap<V> {
    /// The entries, in order.
    pub closed spec fn entry_seq(&self) -> Seq<(String, V)> {
        self.entries@
    }

    /// The keys, in order.
    pub open spec fn key_list(&self) -> Seq<Seq<char>> {
        key_seq(self.entry_seq())
    }

    /// Keys are distinct.
    #[verifier::type_invariant]
    pub closed spec fn wf(&self) -> bool {
        key_seq(self.entries@).no_duplicates()
    }

    /// The map, its keys and its entries agree.
    pub proof fn lemma_view(&self)
        requires
            self.wf(),
        ensures
            self@.dom() == self.key_list().to_set(),
            self@.dom().finite(),
            self@.len() == self.entry_seq().len(),
            self.key_list().no_duplicates(),
            self.key_list().len() == self.entry_seq().len(),
            forall|i: int| 0 <= i < self.entry_seq().len() ==>
                #[trigger] self.key_list()[i] == self.entry_seq()[i].0@
                && self@.contains_key(self.entry_seq()[i].0@)
                && self@[self.entry_seq()[i].0@] == self.entry_seq()[i].1,
            forall|k: Seq<char>| #[trigger] self@.contains_key(k) ==>
                exists|i: int| 0 <= i < self.entry_seq().len() && self.entry_seq()[i].0@ == k,
    {
        lemma_map_of_dom(self.entries@);
        key_seq(self.entries@).unique_seq_to_set();
        assert forall|i: int| 0 <= i < self.entry_seq().len() implies
            #[trigger] self.key_list()[i] == self.entry_seq()[i].0@
            && self@.contains_key(self.entry_seq()[i].0@)
            && self@[self.entry_seq()[i].0@] == self.entry_seq()[i].1 by {
            lemma_map_of_index(self.entries@, i);
        }
        assert forall|k: Seq<char>| #[trigger] self@.contains_key(k) implies
            exists|i: int| 0 <= i < self.entry_seq().len() && self.entry_seq()[i].0@ == k by {
            assert(key_seq(self.entries@).to_set().contains(k));
            let i = choose|i: int| 0 <= i < key_seq(self.entries@).len() && key_seq(self.entries@)[i] == k;
            assert(self.entry_seq()[i].0@ == k);
        }
    }

    /// An empty map.
    pub fn new() -> (m: Self)
        ensures
            m@ == Map::<Seq<char>, V>::empty(),
            m.entry_seq().len() == 0,
    {
        let m = StrMap { entries: Vec::new() };
        assert(key_seq(m.entries@) =~= Seq::<Seq<char>>::empty());
        m
    }

    /// The number of entries.
    pub fn len(&self) -> (n: usize)
        ensures
            n == self@.len(),
            n == self.entry_seq().len(),
    {
        proof { use_type_invariant(self); self.lemma_view(); }
        self.entries.len()
    }

    /// Whether the map has no entries.
    pub fn is_empty(&self) -> (b: bool)
        ensures
            b == (self@.len() == 0),
            b == (self@ == Map::<Seq<char>, V>::empty()),
    {
        proof { use_type_invariant(self); self.lemma_view(); }
        let b = self.entries.len() == 0;
        proof {
            if !b {
                assert(self.key_list()[0] == self.entry_seq()[0].0@);
                assert(self@.contains_key(self.entry_seq()[0].0@));
            } else {
                assert(self@ =~= Map::<Seq<char>, V>::empty());
            }
        }
        b
    }

    /// The position of the entry with the given key.
    fn find(&self, key: &str) -> (r: Option<usize>)
        ensures
            match r {
                Some(i) => i < self.entry_seq().len() && self.entry_seq()[i as int].0@ == key@
                    && self@.contains_key(key@) && self@[key@] == self.entry_seq()[i as int].1,
                None => !self@.contains_key(key@),
            },
    {
        proof { use_type_invariant(self); self.lemma_view(); }
        let mut i: usize = 0;
        while i < self.entries.len()
            invariant
                self.wf(),
                i <= self.entries@.len(),
                forall|j: int| 0 <= j < i ==> self.entries@[j].0@ != key@,
            decreases self.entries@.len() - i,
        {
            if str_eq(self.entries[i].0.as_str(), key) {
                proof { lemma_map_of_index(self.entries@, i as int); }
                return Some(i);
            }
            i = i + 1;
        }
        proof {
            if self@.contains_key(key@) {
                let j = choose|j: int| 0 <= j < self.entry_seq().len() && self.entry_seq()[j].0@ == key@;
                assert(self.entries@[j].0@ != key@);
            }
        }
        None
    }

    /// The value under `key`.
    pub fn get(&self, key: &str) -> (r: Option<&V>)
        ensures
            match r {
                Some(v) => self@.contains_key(key@) && self@[key@] == *v,
                None => !self@.contains_key(key@),
            },
    {
        match self.find(key) {
            Some(i) => Some(&self.entries[i].1),
            None => None,
        }
    }

    /// Whether a value is stored under `key`.
    pub fn contains_key(&self, key: &str) -> (b: bool)
        ensures
            b == self@.contains_key(key@),
    {
        self.find(key).is_some()
    }

    /// Stores `value` under `key`, replacing the value there before (which
    /// keeps its position); a new key goes last.
    pub fn insert(&mut self, key: String, value: V)
        ensures
            final(self)@ == old(self)@.insert(key@, value),
            old(self)@.contains_key(key@) ==> final(self).key_list() == old(self).key_list(),
            !old(self)@.contains_key(key@) ==> final(self).key_list() == old(self).key_list().push(key@),
            !old(self)@.contains_key(key@) ==> final(self).entry_seq() == old(self).entry_seq().push((key, value)),
    {
        proof { use_type_invariant(&*self); self.lemma_view(); }
        match self.find(key.as_str()) {
            Some(i) => {
                proof { lemma_map_of_update(self.entries@, i as int, (key, value)); }
                let mut entries: Vec<(String, V)> = Vec::new();
                std::mem::swap(&mut entries, &mut self.entries);
                entries.set(i, (key, value));
                self.entries = entries;
            },
            None => {
                let ghost old_entries = self.entries@;
                let mut entries: Vec<(String, V)> = Vec::new();
                std::mem::swap(&mut entries, &mut self.entries);
                entries.push((key, value));
                proof {
                    assert(key_seq(entries@) =~= key_seq(old_entries).push(key@));
                    assert(entries@.drop_last() =~= old_entries);
                    lemma_map_of_dom(old_entries);
                    assert forall|a: int, b: int| 0 <= a < b < key_seq(entries@).len() implies
                        key_seq(entries@)[a] != key_seq(entries@)[b] by {
                        if b == old_entries.len() {
                            assert(key_seq(old_entries).to_set().contains(key_seq(old_entries)[a]));
                        }
                    }
                }
                self.entries = entries;
            },
        }
    }

    /// Removes the entry under `key`, giving back its value. The other
    /// entries keep their order.
    pub fn remove(&mut self, key: &str) -> (r: Option<V>)
        ensures
            final(self)@ == old(self)@.remove(key@),
            match r {
                Some(v) => old(self)@.contains_key(key@) && old(self)@[key@] == v,
                None => !old(self)@.contains_key(key@),
            },
            forall|k: Seq<char>| final(self).key_list().contains(k) ==> old(self).key_list().contains(k),
            old(self)@.contains_key(key@) ==> exists|i: int| 0 <= i < old(self).entry_seq().len()
                && old(self).entry_seq()[i].0@ == key@ && final(self).entry_seq() == old(self).entry_seq().remove(i),
            !old(self)@.contains_key(key@) ==> final(self).entry_seq() == old(self).entry_seq(),
    {
        proof { use_type_invariant(&*self); self.lemma_view(); }
        match self.find(key) {
            Some(i) => {
                let ghost old_entries = self.entries@;
                proof { lemma_map_of_remove(self.entries@, i as int); }
                let mut entries: Vec<(String, V)> = Vec::new();
                std::mem::swap(&mut entries, &mut self.entries);
                let (_, v) = entries.remove(i);
                self.entries = entries;
                proof {
                    assert(self.entries@ =~= old_entries.remove(i as int));
                    assert(old_entries[i as int].0@ == key@);
                    assert forall|k: Seq<char>| self.key_list().contains(k) implies old(self).key_list().contains(k) by {
                        let j = choose|j: int| 0 <= j < self.key_list().len() && self.key_list()[j] == k;
                        if j < i { assert(old(self).key_list()[j] == k); } else { assert(old(self).key_list()[j + 1] == k); }
                    }
                }
                Some(v)
            },
            None => {
                proof { assert(self@ =~= old(self)@.remove(key@)); }
                None
            },
        }
    }

    /// Removes every entry.
    pub fn clear(&mut self)
        ensures
            final(self)@ == Map::<Seq<char>, V>::empty(),
    {
        let e: Vec<(String, V)> = Vec::new();
        proof { assert(key_seq(e@) =~= Seq::<Seq<char>>::empty()); }
        self.entries = e;
    }

    /// The key of the `i`-th entry.
    pub fn key_at(&self, i: usize) -> (k: &String)
        requires
            i < self.entry_seq().len(),
        ensures
            *k == self.entry_seq()[i as int].0,
    {
        &self.entries[i]
            .0
    }

    /// The value of the `i`-th entry.
    pub fn value_at(&self, i: usize) -> (v: &V)
        requires
            i < self.entry_seq().len(),
        ensures
            *v == self.entry_seq()[i as int].1,
    {
        &self.entries[i].1
    }

    /// The keys, in entry order.
    pub fn keys(&self) -> (ks: Vec<String>)
        ensures
            ks@.len() == self.entry_seq().len(),
            forall|i: int| 0 <= i < ks@.len() ==> (#[trigger] ks@[i])@ == self.key_list()[i],
    {
        let mut ks: Vec<String> = Vec::new();
        let mut i: usize = 0;
        while i < self.entries.len()
            invariant
                i <= self.entries@.len(),
                ks@.len() == i,
                forall|j: int| 0 <= j < i ==> (#[trigger] ks@[j])@ == key_seq(self.entries@)[j],
            decreases self.entries@.len() - i,
        {
            ks.push(self.entries[i].0.clone());
            i = i + 1;
        }
        ks
    }

    /// The entries, in order, taking the map apart.
    pub fn into_entries(self) -> (es: Vec<(String, V)>)
        ensures
            es@ == self.entry_seq(),
    {
        self.entries
    }
}

impl<V: Clone> Clone for StrMap<V> {
    /// A copy with the same keys in the same order, each value cloned.
    fn clone(&self) -> (res: Self)
        ensures
            res.key_list() == self.key_list(),
            res@.dom() == self@.dom(),
            forall|k: Seq<char>| #[trigger] self@.contains_key(k) ==> cloned::<V>(self@[k], res@[k]),
    {
        proof { use_type_invariant(self); self.lemma_view(); }
        let mut entries: Vec<(String, V)> = Vec::new();
        let mut i: usize = 0;
        while i < self.entries.len()
            invariant
                i <= self.entries@.len(),
                entries@.len() == i,
                forall|j: int| 0 <= j < i ==> (#[trigger] entries@[j]).0 == self.entries@[j].0
                    && cloned::<V>(self.entries@[j].1, entries@[j].1),
            decreases self.entries@.len() - i,
        {
            let k = self.entries[i].0.clone();
            let v = self.entries[i].1.clone();
            entries.push((k, v));
            i = i + 1;
        }
        proof {
            assert(key_seq(entries@) =~= key_seq(self.entries@));
        }
        let res = StrMap { entries };
        proof {
            res.lemma_view();
            assert(res.key_list() =~= self.key_list());
            assert(res@.dom() =~= self@.dom());
            assert forall|k: Seq<char>| #[trigger] self@.contains_key(k) implies cloned::<V>(self@[k], res@[k]) by {
                let i = choose|i: int| 0 <= i < self.entry_seq().len() && self.entry_seq()[i].0@ == k;
                assert(self.key_list()[i] == self.entry_seq()[i].0@);
                assert(res.key_list()[i] == res.entry_seq()[i].0@);
            }
        }
        res
    }
}

} // verus!
