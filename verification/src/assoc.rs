//! A map from text keys to values, kept as a list of entries with each key
//! once.  Its contents are a `Map`; the order of the entries is the order
//! in which keys were first inserted.
use vstd::prelude::*;
use crate::text::str_eq;

verus! {

/// The entries as a map from key to value.
pub open spec fn assoc_map<V>(entries: Seq<(String, V)>) -> Map<Seq<char>, V>
    decreases entries.len(),
{
    if entries.len() == 0 {
        Map::empty()
    } else {
        assoc_map(entries.drop_last()).insert(entries.last().0@, entries.last().1)
    }
}

/// The keys of the entries, in order.
pub open spec fn assoc_keys<V>(entries: Seq<(String, V)>) -> Seq<Seq<char>> {
    entries.map_values(|p: (String, V)| p.0@)
}

/// No key occurs twice.
pub open spec fn distinct_entry_keys<V>(entries: Seq<(String, V)>) -> bool {
    forall|i: int, j: int|
        0 <= i < entries.len() && 0 <= j < entries.len() && i != j ==> #[trigger] entries[i].0@
            != #[trigger] entries[j].0@
}

/// With distinct keys, the map holds exactly the entries' keys, each with
/// its entry's value.
pub proof fn lemma_assoc_map<V>(entries: Seq<(String, V)>)
    requires
        distinct_entry_keys(entries),
    ensures
        forall|k: Seq<char>| #[trigger] assoc_map(entries).contains_key(k) <==> exists|i: int|
            0 <= i < entries.len() && entries[i].0@ == k,
        forall|i: int| 0 <= i < entries.len() ==> #[trigger] assoc_map(entries)[entries[i].0@] == entries[i].1,
    decreases entries.len(),
{
    if entries.len() > 0 {
        let d = entries.drop_last();
        assert(distinct_entry_keys(d));
        lemma_assoc_map(d);
        assert forall|k: Seq<char>| #[trigger] assoc_map(entries).contains_key(k) <==> exists|i: int|
            0 <= i < entries.len() && entries[i].0@ == k by {
            if assoc_map(d).contains_key(k) {
                let i = choose|i: int| 0 <= i < d.len() && d[i].0@ == k;
                assert(entries[i].0@ == k);
            }
            if exists|i: int| 0 <= i < entries.len() && entries[i].0@ == k {
                let i = choose|i: int| 0 <= i < entries.len() && entries[i].0@ == k;
                if i < d.len() {
                    assert(d[i].0@ == k);
                }
            }
        }
        assert forall|i: int| 0 <= i < entries.len() implies #[trigger] assoc_map(entries)[entries[i].0@]
            == entries[i].1 by {
            if i < d.len() {
                assert(d[i] == entries[i]);
                assert(entries[i].0@ != entries[entries.len() - 1].0@);
                assert(assoc_map(d)[d[i].0@] == d[i].1);
            }
        }
    }
}

/// With distinct keys, the map has as many keys as there are entries.
pub proof fn lemma_assoc_len<V>(entries: Seq<(String, V)>)
    requires
        distinct_entry_keys(entries),
    ensures
        assoc_map(entries).dom() == assoc_keys(entries).to_set(),
        assoc_map(entries).dom().len() == entries.len(),
{
    lemma_assoc_map(entries);
    let keys = assoc_keys(entries);
    assert(assoc_map(entries).dom() =~= keys.to_set()) by {
        assert forall|k: Seq<char>| #[trigger] assoc_map(entries).dom().contains(k) <==> keys.to_set().contains(k) by {
            if keys.contains(k) {
                let i = choose|i: int| 0 <= i < keys.len() && keys[i] == k;
                assert(entries[i].0@ == k);
            }
            if assoc_map(entries).contains_key(k) {
                let i = choose|i: int| 0 <= i < entries.len() && entries[i].0@ == k;
                assert(keys[i] == k);
            }
        }
    }
    assert(keys.no_duplicates()) by {
        assert forall|i: int, j: int| 0 <= i < keys.len() && 0 <= j < keys.len() && i != j implies keys[i]
            != keys[j] by {
            assert(keys[i] == entries[i].0@ && keys[j] == entries[j].0@);
        }
    }
    keys.unique_seq_to_set();
}

/// A map from text keys to values.
#[derive(Debug, Clone)]
pub struct Assoc<V> {
    entries: Vec<(String, V)>,
}

impl<V> View for Assoc<V> {
    type V = Map<Seq<char>, V>;

    closed spec fn view(&self) -> Map<Seq<char>, V> {
        assoc_map(self.entries@)
    }
}

impl<V> Assoc<V> {
    /// Each key is held once.
    pub closed spec fn wf(&self) -> bool {
        distinct_entry_keys(self.entries@)
    }

    /// The keys in entry order.
    pub closed spec fn key_seq(&self) -> Seq<Seq<char>> {
        assoc_keys(self.entries@)
    }

    /// The keys in entry order are the map's keys, each once.
    pub proof fn lemma_keys(&self)
        requires
            self.wf(),
        ensures
            self.key_seq().no_duplicates(),
            self.key_seq().to_set() == self@.dom(),
            self@.dom().len() == self.key_seq().len(),
            forall|i: int| 0 <= i < self.key_seq().len() ==> #[trigger] self@.contains_key(self.key_seq()[i]),
            forall|k: Seq<char>| #[trigger] self@.contains_key(k) ==> self.key_seq().contains(k),
    {
        lemma_assoc_len(self.entries@);
        lemma_assoc_map(self.entries@);
        let keys = self.key_seq();
        assert forall|i: int, j: int| 0 <= i < keys.len() && 0 <= j < keys.len() && i != j implies keys[i]
            != keys[j] by {
            assert(keys[i] == self.entries@[i].0@ && keys[j] == self.entries@[j].0@);
        }
        assert forall|i: int| 0 <= i < keys.len() implies #[trigger] self@.contains_key(keys[i]) by {
            assert(keys[i] == self.entries@[i].0@);
        }
        assert forall|k: Seq<char>| #[trigger] self@.contains_key(k) implies keys.contains(k) by {
            let i = choose|i: int| 0 <= i < self.entries@.len() && self.entries@[i].0@ == k;
            assert(keys[i] == k);
        }
    }

    /// An empty map.
    pub fn new() -> (r: Self)
        ensures
            r.wf(),
            r@ == Map::<Seq<char>, V>::empty(),
            r.key_seq().len() == 0,
    {
        Assoc { entries: Vec::new() }
    }

    /// The number of keys.
    pub fn len(&self) -> (r: usize)
        requires
            self.wf(),
        ensures
            r == self@.dom().len(),
            r == self.key_seq().len(),
    {
        proof {
            lemma_assoc_len(self.entries@);
        }
        self.entries.len()
    }

    /// Copies of the keys, in entry order.
    pub fn keys(&self) -> (r: Vec<String>)
        requires
            self.wf(),
        ensures
            r@.len() == self.key_seq().len(),
            forall|i: int| 0 <= i < r@.len() ==> #[trigger] r@[i]@ == self.key_seq()[i],
    {
        let n = self.entries.len();
        let mut out: Vec<String> = Vec::new();
        for i in 0..n
            invariant
                n == self.entries@.len(),
                out@.len() == i,
                forall|j: int| 0 <= j < i ==> #[trigger] out@[j]@ == self.key_seq()[j],
        {
            out.push(self.entries[i].0.clone());
        }
        out
    }

    /// The `i`-th key in entry order.
    pub fn key_at(&self, i: usize) -> (r: &String)
        requires
            self.wf(),
            i < self.key_seq().len(),
        ensures
            r@ == self.key_seq()[i as int],
            self@.contains_key(r@),
    {
        proof {
            lemma_assoc_map(self.entries@);
        }
        &self.entries[i].0
    }

    /// The value of the `i`-th key in entry order.
    pub fn value_at(&self, i: usize) -> (r: &V)
        requires
            self.wf(),
            i < self.key_seq().len(),
        ensures
            *r == self@[self.key_seq()[i as int]],
    {
        proof {
            lemma_assoc_map(self.entries@);
        }
        &self.entries[i].1
    }

    /// The value of `key`, if it is held.
    pub fn get(&self, key: &str) -> (r: Option<&V>)
        requires
            self.wf(),
        ensures
            self@.contains_key(key@) ==> r == Some(&self@[key@]),
            !self@.contains_key(key@) ==> r is None,
    {
        proof {
            lemma_assoc_map(self.entries@);
        }
        let n = self.entries.len();
        for i in 0..n
            invariant
                n == self.entries@.len(),
                self.wf(),
                forall|j: int| 0 <= j < i ==> #[trigger] self.entries@[j].0@ != key@,
        {
            if str_eq(self.entries[i].0.as_str(), key) {
                proof {
                    lemma_assoc_map(self.entries@);
                }
                return Some(&self.entries[i].1);
            }
        }
        proof {
            lemma_assoc_map(self.entries@);
            if self@.contains_key(key@) {
                let j = choose|j: int| 0 <= j < self.entries@.len() && self.entries@[j].0@ == key@;
                assert(self.entries@[j].0@ != key@);
            }
        }
        None
    }

    /// Sets the value of `key`.
    pub fn insert(&mut self, key: String, value: V)
        requires
            old(self).wf(),
        ensures
            final(self).wf(),
            final(self)@ == old(self)@.insert(key@, value),
    {
        let ghost old_entries = self.entries@;
        proof {
            lemma_assoc_map(old_entries);
        }
        let n = self.entries.len();
        let mut i: usize = 0;
        while i < n
            invariant
                n == self.entries@.len(),
                self.entries@ == old_entries,
                old_entries == old(self).entries@,
                distinct_entry_keys(old_entries),
                i <= n,
                forall|j: int| 0 <= j < i ==> #[trigger] old_entries[j].0@ != key@,
            decreases n - i,
        {
            if str_eq(self.entries[i].0.as_str(), key.as_str()) {
                self.entries.set(i, (key, value));
                proof {
                    lemma_assoc_map(old_entries);
                    let ne = self.entries@;
                    assert(distinct_entry_keys(ne)) by {
                        assert forall|a: int, b: int| 0 <= a < ne.len() && 0 <= b < ne.len() && a != b implies #[trigger] ne[a].0@
                            != #[trigger] ne[b].0@ by {
                            assert(ne[a].0@ == old_entries[a].0@);
                            assert(ne[b].0@ == old_entries[b].0@);
                        }
                    }
                    lemma_assoc_map(ne);
                    let target = assoc_map(old_entries).insert(key@, value);
                    assert forall|k: Seq<char>| #[trigger] assoc_map(ne).contains_key(k) <==> target.contains_key(k) by {
                        if exists|j: int| 0 <= j < ne.len() && ne[j].0@ == k {
                            let j = choose|j: int| 0 <= j < ne.len() && ne[j].0@ == k;
                            assert(old_entries[j].0@ == k);
                        }
                        if exists|j: int| 0 <= j < old_entries.len() && old_entries[j].0@ == k {
                            let j = choose|j: int| 0 <= j < old_entries.len() && old_entries[j].0@ == k;
                            assert(ne[j].0@ == k);
                        }
                    }
                    assert forall|k: Seq<char>| #[trigger] assoc_map(ne).contains_key(k) implies assoc_map(ne)[k]
                        == target[k] by {
                        let j = choose|j: int| 0 <= j < ne.len() && ne[j].0@ == k;
                        assert(old_entries[j].0@ == k);
                        assert(assoc_map(ne)[ne[j].0@] == ne[j].1);
                        if j != i {
                            assert(assoc_map(old_entries)[old_entries[j].0@] == old_entries[j].1);
                        }
                    }
                    assert(assoc_map(ne) =~= target);
                }
                return;
            }
            i = i + 1;
        }
        self.entries.push((key, value));
        proof {
            let ne = self.entries@;
            assert(ne.drop_last() == old_entries);
            assert(distinct_entry_keys(ne)) by {
                assert forall|a: int, b: int| 0 <= a < ne.len() && 0 <= b < ne.len() && a != b implies #[trigger] ne[a].0@
                    != #[trigger] ne[b].0@ by {
                    if a < old_entries.len() && b < old_entries.len() {
                        assert(ne[a] == old_entries[a] && ne[b] == old_entries[b]);
                    } else if a < old_entries.len() {
                        assert(ne[a] == old_entries[a]);
                    } else {
                        assert(ne[b] == old_entries[b]);
                    }
                }
            }
        }
    }

    /// Removes `key`, if it is held, and hands back its value.
    pub fn remove(&mut self, key: &str) -> (r: Option<V>)
        requires
            old(self).wf(),
        ensures
            final(self).wf(),
            final(self)@ == old(self)@.remove(key@),
            old(self)@.contains_key(key@) ==> r == Some(old(self)@[key@]),
            !old(self)@.contains_key(key@) ==> r is None,
            final(self).key_seq().len() <= old(self).key_seq().len(),
    {
        let ghost old_entries = self.entries@;
        proof {
            lemma_assoc_map(old_entries);
        }
        let n = self.entries.len();
        let mut i: usize = 0;
        while i < n
            invariant
                n == self.entries@.len(),
                self.entries@ == old_entries,
                old_entries == old(self).entries@,
                distinct_entry_keys(old_entries),
                i <= n,
                forall|j: int| 0 <= j < i ==> #[trigger] old_entries[j].0@ != key@,
            decreases n - i,
        {
            if str_eq(self.entries[i].0.as_str(), key) {
                let (_, value) = self.entries.remove(i);
                proof {
                    lemma_assoc_map(old_entries);
                    let ne = self.entries@;
                    assert(ne =~= old_entries.remove(i as int));
                    assert(distinct_entry_keys(ne)) by {
                        assert forall|a: int, b: int| 0 <= a < ne.len() && 0 <= b < ne.len() && a != b implies #[trigger] ne[a].0@
                            != #[trigger] ne[b].0@ by {
                            let oa = if a < i { a } else { a + 1 };
                            let ob = if b < i { b } else { b + 1 };
                            assert(ne[a] == old_entries[oa] && ne[b] == old_entries[ob]);
                        }
                    }
                    lemma_assoc_map(ne);
                    let target = assoc_map(old_entries).remove(key@);
                    assert forall|k: Seq<char>| #[trigger] assoc_map(ne).contains_key(k) <==> target.contains_key(k) by {
                        if exists|j: int| 0 <= j < ne.len() && ne[j].0@ == k {
                            let j = choose|j: int| 0 <= j < ne.len() && ne[j].0@ == k;
                            let oj = if j < i { j } else { j + 1 };
                            assert(old_entries[oj].0@ == k);
                            assert(old_entries[oj].0@ != old_entries[i as int].0@);
                        }
                        if target.contains_key(k) {
                            let j = choose|j: int| 0 <= j < old_entries.len() && old_entries[j].0@ == k;
                            assert(j != i);
                            let nj = if j < i { j } else { j - 1 };
                            assert(ne[nj].0@ == k);
                        }
                    }
                    assert forall|k: Seq<char>| #[trigger] assoc_map(ne).contains_key(k) implies assoc_map(ne)[k]
                        == target[k] by {
                        let j = choose|j: int| 0 <= j < ne.len() && ne[j].0@ == k;
                        let oj = if j < i { j } else { j + 1 };
                        assert(ne[j] == old_entries[oj]);
                        assert(assoc_map(ne)[ne[j].0@] == ne[j].1);
                        assert(assoc_map(old_entries)[old_entries[oj].0@] == old_entries[oj].1);
                    }
                    assert(assoc_map(ne) =~= target);
                    assert(assoc_map(old_entries)[old_entries[i as int].0@] == old_entries[i as int].1);
                }
                return Some(value);
            }
            i = i + 1;
        }
        proof {
            lemma_assoc_map(old_entries);
            assert(!assoc_map(old_entries).contains_key(key@)) by {
                if assoc_map(old_entries).contains_key(key@) {
                    let j = choose|j: int| 0 <= j < old_entries.len() && old_entries[j].0@ == key@;
                    assert(old_entries[j].0@ != key@);
                }
            }
            assert(assoc_map(old_entries).remove(key@) =~= assoc_map(old_entries));
        }
        None
    }
}

} // verus!
