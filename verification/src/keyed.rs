//! Small maps and sets keyed by text, kept as insertion-ordered entry lists
//! with distinct keys.

use vstd::prelude::*;
use crate::chars::text_eq;

verus! {

/// The map described by an entry list (later entries win).
pub open spec fn entries_map<V>(es: Seq<(String, V)>) -> Map<Seq<char>, V>
    decreases es.len(),
{
    if es.len() == 0 {
        Map::empty()
    } else {
        entries_map(es.drop_last()).insert(es.last().0@, es.last().1)
    }
}

/// No key occurs twice.
pub open spec fn distinct_keys<V>(es: Seq<(String, V)>) -> bool {
    forall|i: int, j: int| 0 <= i < j < es.len() ==> (#[trigger] es[i]).0@ != (#[trigger] es[j]).0@
}

proof fn lemma_entries_map_lookup<V>(es: Seq<(String, V)>)
    requires
        distinct_keys(es),
    ensures
        forall|i: int| 0 <= i < es.len() ==> #[trigger] entries_map(es).contains_key(es[i].0@)
            && entries_map(es)[es[i].0@] == es[i].1,
        forall|k: Seq<char>| #[trigger] entries_map(es).contains_key(k) ==> exists|i: int|
            0 <= i < es.len() && (#[trigger] es[i]).0@ == k,
    decreases es.len(),
{
    if es.len() > 0 {
        let init = es.drop_last();
        assert(distinct_keys(init)) by {
            assert forall|i: int, j: int| 0 <= i < j < init.len() implies (#[trigger] init[i]).0@
                != (#[trigger] init[j]).0@ by {
                assert(init[i] == es[i] && init[j] == es[j]);
            }
        }
        lemma_entries_map_lookup(init);
        assert forall|i: int| 0 <= i < es.len() implies #[trigger] entries_map(es).contains_key(
            es[i].0@,
        ) && entries_map(es)[es[i].0@] == es[i].1 by {
            if i < es.len() - 1 {
                assert(init[i] == es[i]);
                assert(es[i].0@ != es[es.len() - 1].0@);
                assert(entries_map(init).contains_key(init[i].0@));
                assert(entries_map(init)[init[i].0@] == init[i].1);
            }
        }
        assert forall|k: Seq<char>| #[trigger] entries_map(es).contains_key(k) implies exists|i: int|
            0 <= i < es.len() && (#[trigger] es[i]).0@ == k by {
            if k == es.last().0@ {
                assert(es[es.len() - 1].0@ == k);
            } else {
                assert(entries_map(init).contains_key(k));
                let i: int = choose|i: int| 0 <= i < init.len() && (#[trigger] init[i]).0@ == k;
                assert(es[i] == init[i]);
            }
        }
    }
}

/// A map from text keys to values.
#[derive(Debug)]
pub struct KeyedMap<V> {
    entries: Vec<(String, V)>,
}

impl<V> View for KeyedMap<V> {
    type V = Map<Seq<char>, V>;

    closed spec fn view(&self) -> Map<Seq<char>, V> {
        entries_map(self.entries@)
    }
}

impl<V> KeyedMap<V> {
    #[verifier::type_invariant]
    closed spec fn wf(self) -> bool {
        distinct_keys(self.entries@)
    }

    pub fn new() -> (r: Self)
        ensures
            r@ == Map::<Seq<char>, V>::empty(),
    {
        KeyedMap { entries: Vec::new() }
    }

    fn position(&self, key: &str) -> (r: Option<usize>)
        ensures
            match r {
                Some(i) => i < self.entries@.len() && self.entries@[i as int].0@ == key@,
                None => forall|i: int| 0 <= i < self.entries@.len() ==> (
                #[trigger] self.entries@[i]).0@ != key@,
            },
    {
        let mut i: usize = 0;
        while i < self.entries.len()
            invariant
                i <= self.entries@.len(),
                forall|k: int| 0 <= k < i ==> (#[trigger] self.entries@[k]).0@ != key@,
            decreases self.entries@.len() - i,
        {
            if text_eq(self.entries[i].0.as_str(), key) {
                return Some(i);
            }
            i = i + 1;
        }
        None
    }

    /// The value stored under `key`.
    pub fn get(&self, key: &str) -> (r: Option<&V>)
        ensures
            match r {
                Some(v) => self@.contains_key(key@) && self@[key@] == *v,
                None => !self@.contains_key(key@),
            },
    {
        proof {
            use_type_invariant(self);
            lemma_entries_map_lookup(self.entries@);
        }
        match self.position(key) {
            Some(i) => {
                assert(entries_map(self.entries@).contains_key(self.entries@[i as int].0@));
                Some(&self.entries[i].1)
            },
            None => None,
        }
    }

    pub fn contains_key(&self, key: &str) -> (r: bool)
        ensures
            r == self@.contains_key(key@),
    {
        proof {
            use_type_invariant(self);
            lemma_entries_map_lookup(self.entries@);
        }
        self.position(key).is_some()
    }

    /// Stores `value` under `key`, replacing any previous value.
    pub fn insert(&mut self, key: String, value: V)
        ensures
            final(self)@ == old(self)@.insert(key@, value),
    {
        proof {
            use_type_invariant(&*self);
            lemma_entries_map_lookup(self.entries@);
        }
        let ghost before = self.entries@;
        match self.position(key.as_str()) {
            Some(i) => {
                let mut entries: Vec<(String, V)> = Vec::new();
                std::mem::swap(&mut entries, &mut self.entries);
                entries.remove(i);
                entries.push((key, value));
                proof {
                    let es = entries@;
                    assert(distinct_keys(es)) by {
                        assert forall|a: int, b: int| 0 <= a < b < es.len() implies (
                        #[trigger] es[a]).0@ != (#[trigger] es[b]).0@ by {
                            if b == es.len() - 1 {
                                let a0: int = if a < i { a } else { a + 1 };
                                assert(es[a] == before[a0]);
                            } else {
                                let a0: int = if a < i { a } else { a + 1 };
                                let b0: int = if b < i { b } else { b + 1 };
                                assert(es[a] == before[a0] && es[b] == before[b0]);
                            }
                        }
                    }
                    lemma_entries_map_lookup(es);
                    assert(entries_map(es) =~= entries_map(before).insert(key@, value)) by {
                        assert forall|k: Seq<char>| #[trigger] entries_map(es).contains_key(k)
                            == entries_map(before).insert(key@, value).contains_key(k) by {
                            if entries_map(es).contains_key(k) {
                                let j: int = choose|j: int| 0 <= j < es.len() && (#[trigger] es[j]).0@ == k;
                                if j < es.len() - 1 {
                                    let j0: int = if j < i { j } else { j + 1 };
                                    assert(es[j] == before[j0]);
                                }
                            }
                            if entries_map(before).contains_key(k) && k != key@ {
                                let j: int = choose|j: int| 0 <= j < before.len() && (#[trigger] before[j]).0@ == k;
                                assert(j != i);
                                let j1: int = if j < i { j } else { j - 1 };
                                assert(es[j1] == before[j]);
                            }
                        }
                        assert forall|k: Seq<char>| #[trigger] entries_map(es).contains_key(k) implies
                            entries_map(es)[k] == entries_map(before).insert(key@, value)[k] by {
                            let j: int = choose|j: int| 0 <= j < es.len() && (#[trigger] es[j]).0@ == k;
                            if j < es.len() - 1 {
                                let j0: int = if j < i { j } else { j + 1 };
                                assert(es[j] == before[j0]);
                            }
                        }
                    }
                }
                self.entries = entries;
            },
            None => {
                let mut entries: Vec<(String, V)> = Vec::new();
                std::mem::swap(&mut entries, &mut self.entries);
                entries.push((key, value));
                proof {
                    let es = entries@;
                    assert(es.drop_last() =~= before);
                    assert(distinct_keys(es)) by {
                        assert forall|a: int, b: int| 0 <= a < b < es.len() implies (
                        #[trigger] es[a]).0@ != (#[trigger] es[b]).0@ by {
                            assert(es[a] == before[a]);
                            if b < es.len() - 1 {
                                assert(es[b] == before[b]);
                            }
                        }
                    }
                }
                self.entries = entries;
            },
        }
    }

    /// Number of keys.
    pub fn len(&self) -> (r: usize)
        ensures
            r == self@.len(),
    {
        proof {
            use_type_invariant(self);
            lemma_entries_map_len(self.entries@);
        }
        self.entries.len()
    }
}

proof fn lemma_entries_map_len<V>(es: Seq<(String, V)>)
    requires
        distinct_keys(es),
    ensures
        entries_map(es).len() == es.len(),
        entries_map(es).dom().finite(),
    decreases es.len(),
{
    if es.len() > 0 {
        let init = es.drop_last();
        assert(distinct_keys(init)) by {
            assert forall|i: int, j: int| 0 <= i < j < init.len() implies (#[trigger] init[i]).0@
                != (#[trigger] init[j]).0@ by {
                assert(init[i] == es[i] && init[j] == es[j]);
            }
        }
        lemma_entries_map_len(init);
        lemma_entries_map_lookup(init);
        if entries_map(init).contains_key(es.last().0@) {
            let i: int = choose|i: int| 0 <= i < init.len() && (#[trigger] init[i]).0@ == es.last().0@;
            assert(es[i] == init[i]);
            assert(false);
        }
    }
}

} // verus!
