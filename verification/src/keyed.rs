//! A small map from string keys to values, kept as a vector of entries in
//! which every key appears once.
use vstd::prelude::*;

use crate::text::str_eq;

verus! {

/// Entries keyed by string; a key appears at most once.
pub struct Keyed<V> {
    entries: Vec<(String, V)>,
}

/// The map held by a list of entries with distinct keys.
pub open spec fn entries_map<V>(entries: Seq<(Seq<char>, V)>) -> Map<Seq<char>, V> {
    Map::new(
        |k: Seq<char>| exists|i: int| 0 <= i < entries.len() && entries[i].0 == k,
        |k: Seq<char>| {
            let i = choose|i: int| 0 <= i < entries.len() && entries[i].0 == k;
            entries[i].1
        },
    )
}

pub open spec fn distinct_keys<V>(entries: Seq<(Seq<char>, V)>) -> bool {
    forall|i: int, j: int| 0 <= i < j < entries.len() ==> entries[i].0 != entries[j].0
}

impl<V> Keyed<V> {
    pub closed spec fn spec_entries(&self) -> Seq<(Seq<char>, V)> {
        self.entries@.map_values(|e: (String, V)| (e.0@, e.1))
    }

    /// The map the entries hold.
    pub open spec fn spec_map(&self) -> Map<Seq<char>, V> {
        entries_map(self.spec_entries())
    }

    /// Every key appears once.
    pub open spec fn wf(&self) -> bool {
        distinct_keys(self.spec_entries())
    }

    pub fn new() -> (k: Keyed<V>)
        ensures
            k.wf(),
            k.spec_map() == Map::<Seq<char>, V>::empty(),
    {
        let k = Keyed { entries: Vec::new() };
        assert(k.spec_map() =~= Map::<Seq<char>, V>::empty());
        k
    }

    fn position(&self, key: &str) -> (r: Option<usize>)
        ensures
            match r {
                Some(i) => i < self.spec_entries().len() && self.spec_entries()[i as int].0 == key@,
                None => forall|j: int| 0 <= j < self.spec_entries().len() ==> self.spec_entries()[j].0 != key@,
            },
    {
        let mut i: usize = 0;
        while i < self.entries.len()
            invariant
                i <= self.entries@.len(),
                forall|j: int| 0 <= j < i ==> self.spec_entries()[j].0 != key@,
            decreases self.entries.len() - i,
        {
            if str_eq(self.entries[i].0.as_str(), key) {
                return Some(i);
            }
            assert(self.spec_entries()[i as int].0 != key@);
            i += 1;
        }
        None
    }

    /// Whether `key` has a value.
    pub fn contains(&self, key: &str) -> (b: bool)
        ensures
            b == self.spec_map().contains_key(key@),
    {
        match self.position(key) {
            Some(i) => {
                assert(self.spec_map().contains_key(key@)) by {
                    assert(self.spec_entries()[i as int].0 == key@);
                }
                true
            },
            None => false,
        }
    }

    /// The value of `key`.
    pub fn get(&self, key: &str) -> (r: Option<&V>)
        requires
            self.wf(),
        ensures
            match r {
                Some(v) => self.spec_map().contains_key(key@) && *v == self.spec_map()[key@],
                None => !self.spec_map().contains_key(key@),
            },
    {
        match self.position(key) {
            Some(i) => {
                let ghost e = self.spec_entries();
                assert(self.spec_map().contains_key(key@) && self.spec_map()[key@] == e[i as int].1) by {
                    assert(e[i as int].0 == key@);
                    let c = choose|c: int| 0 <= c < e.len() && e[c].0 == key@;
                    assert(c == i as int);
                }
                Some(&self.entries[i].1)
            },
            None => None,
        }
    }

    /// Set the value of `key`, replacing its previous value.
    pub fn insert(&mut self, key: String, value: V)
        requires
            old(self).wf(),
        ensures
            final(self).wf(),
            final(self).spec_map() == old(self).spec_map().insert(key@, value),
    {
        let ghost e = self.spec_entries();
        let ghost k = key@;
        match self.position(key.as_str()) {
            Some(i) => {
                self.entries.set(i, (key, value));
                assert(self.spec_entries() =~= e.update(i as int, (k, value)));
                proof {
                    lemma_update_value(e, i as int, value);
                }
            },
            None => {
                self.entries.push((key, value));
                assert(self.spec_entries() =~= e.push((k, value)));
                proof {
                    lemma_push_new(e, k, value);
                }
            },
        }
    }

    /// Remove `key`, returning its value.
    pub fn remove(&mut self, key: &str) -> (r: Option<V>)
        requires
            old(self).wf(),
        ensures
            final(self).wf(),
            final(self).spec_map() == old(self).spec_map().remove(key@),
            match r {
                Some(v) => old(self).spec_map().contains_key(key@) && v == old(self).spec_map()[key@],
                None => !old(self).spec_map().contains_key(key@),
            },
    {
        let ghost e = self.spec_entries();
        match self.position(key) {
            Some(i) => {
                let (_, v) = self.entries.remove(i);
                assert(self.spec_entries() =~= e.remove(i as int));
                proof {
                    lemma_remove_entry(e, i as int);
                }
                Some(v)
            },
            None => {
                assert(self.spec_map() =~= self.spec_map().remove(key@));
                None
            },
        }
    }

    /// Remove every entry, returning them in order.
    pub fn drain(&mut self) -> (r: Vec<(String, V)>)
        ensures
            final(self).wf(),
            final(self).spec_map() == Map::<Seq<char>, V>::empty(),
            r@.map_values(|e: (String, V)| (e.0@, e.1)) == old(self).spec_entries(),
    {
        let mut out: Vec<(String, V)> = Vec::new();
        std::mem::swap(&mut out, &mut self.entries);
        assert(self.spec_map() =~= Map::<Seq<char>, V>::empty());
        out
    }
}

proof fn lemma_update_value<V>(e: Seq<(Seq<char>, V)>, i: int, v: V)
    requires
        distinct_keys(e),
        0 <= i < e.len(),
    ensures
        distinct_keys(e.update(i, (e[i].0, v))),
        entries_map(e.update(i, (e[i].0, v))) == entries_map(e).insert(e[i].0, v),
{
    let e2 = e.update(i, (e[i].0, v));
    let k = e[i].0;
    assert forall|key: Seq<char>| #![auto] entries_map(e2).contains_key(key) implies entries_map(e).insert(k, v).contains_key(key)
        && entries_map(e2)[key] == entries_map(e).insert(k, v)[key] by {
        let j = choose|j: int| 0 <= j < e2.len() && e2[j].0 == key;
        if key != k {
            assert(e[j].0 == key);
            let c = choose|c: int| 0 <= c < e.len() && e[c].0 == key;
            assert(c == j);
        } else {
            assert(j == i);
        }
    }
    assert forall|key: Seq<char>| #![auto] entries_map(e).insert(k, v).contains_key(key) implies entries_map(e2).contains_key(key) by {
        if key == k {
            assert(e2[i].0 == key);
        } else {
            let j = choose|j: int| 0 <= j < e.len() && e[j].0 == key;
            assert(e2[j].0 == key);
        }
    }
    assert(entries_map(e2) =~= entries_map(e).insert(k, v));
}

proof fn lemma_push_new<V>(e: Seq<(Seq<char>, V)>, k: Seq<char>, v: V)
    requires
        distinct_keys(e),
        forall|j: int| 0 <= j < e.len() ==> e[j].0 != k,
    ensures
        distinct_keys(e.push((k, v))),
        entries_map(e.push((k, v))) == entries_map(e).insert(k, v),
{
    let e2 = e.push((k, v));
    assert forall|key: Seq<char>| #![auto] entries_map(e2).contains_key(key) implies entries_map(e).insert(k, v).contains_key(key)
        && entries_map(e2)[key] == entries_map(e).insert(k, v)[key] by {
        let j = choose|j: int| 0 <= j < e2.len() && e2[j].0 == key;
        if key != k {
            assert(e[j].0 == key);
            let c = choose|c: int| 0 <= c < e.len() && e[c].0 == key;
            assert(c == j);
        } else {
            assert(j == e.len());
        }
    }
    assert forall|key: Seq<char>| #![auto] entries_map(e).insert(k, v).contains_key(key) implies entries_map(e2).contains_key(key) by {
        if key == k {
            assert(e2[e.len() as int].0 == key);
        } else {
            let j = choose|j: int| 0 <= j < e.len() && e[j].0 == key;
            assert(e2[j].0 == key);
        }
    }
    assert(entries_map(e2) =~= entries_map(e).insert(k, v));
}

proof fn lemma_remove_entry<V>(e: Seq<(Seq<char>, V)>, i: int)
    requires
        distinct_keys(e),
        0 <= i < e.len(),
    ensures
        distinct_keys(e.remove(i)),
        entries_map(e.remove(i)) == entries_map(e).remove(e[i].0),
        entries_map(e).contains_key(e[i].0),
        entries_map(e)[e[i].0] == e[i].1,
{
    let e2 = e.remove(i);
    let k = e[i].0;
    assert(entries_map(e).contains_key(k));
    let c = choose|c: int| 0 <= c < e.len() && e[c].0 == k;
    assert(c == i);
    assert forall|a: int, b: int| 0 <= a < b < e2.len() implies e2[a].0 != e2[b].0 by {
        let aa = if a < i { a } else { a + 1 };
        let bb = if b < i { b } else { b + 1 };
        assert(e2[a] == e[aa]);
        assert(e2[b] == e[bb]);
    }
    assert forall|key: Seq<char>| #![auto] entries_map(e2).contains_key(key) implies entries_map(e).remove(k).contains_key(key)
        && entries_map(e2)[key] == entries_map(e).remove(k)[key] by {
        let j = choose|j: int| 0 <= j < e2.len() && e2[j].0 == key;
        let jj = if j < i { j } else { j + 1 };
        assert(e2[j] == e[jj]);
        assert(jj != i);
        let c2 = choose|c2: int| 0 <= c2 < e.len() && e[c2].0 == key;
        assert(c2 == jj);
        let c3 = choose|c3: int| 0 <= c3 < e2.len() && e2[c3].0 == key;
        assert(c3 == j) by {
            let cc = if c3 < i { c3 } else { c3 + 1 };
            assert(e2[c3] == e[cc]);
        }
    }
    assert forall|key: Seq<char>| #![auto] entries_map(e).remove(k).contains_key(key) implies entries_map(e2).contains_key(key) by {
        let j = choose|j: int| 0 <= j < e.len() && e[j].0 == key;
        assert(j != i);
        let jj = if j < i { j } else { j - 1 };
        assert(e2[jj] == e[j]);
    }
    assert(entries_map(e2) =~= entries_map(e).remove(k));
}

} // verus!
