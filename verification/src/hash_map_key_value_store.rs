//! The in-process reference store: an association list of entries, each
//! exclusively owned by the store, abstracted by the map it represents.
//! The module also holds the association-list model (`pairs_map` and its
//! lemmas), which the library's laws reuse.

use vstd::prelude::*;

use crate::errors::{Error, no_existing_value_error};
use crate::key::Key;
use crate::key_value_store::KeyValueStore;
use crate::value::Value;

verus! {

/// The key of each pair, in order.
pub open spec fn keys_of(s: Seq<(Seq<u8>, Seq<u8>)>) -> Seq<Seq<u8>> {
    s.map_values(|p: (Seq<u8>, Seq<u8>)| p.0)
}

/// No two pairs share a key.
pub open spec fn distinct_keys(s: Seq<(Seq<u8>, Seq<u8>)>) -> bool {
    forall|i: int, j: int| 0 <= i < j < s.len() ==> s[i].0 != s[j].0
}

/// The map that a sequence of key-value pairs represents; a later pair
/// overrides an earlier one with the same key.
pub open spec fn pairs_map(s: Seq<(Seq<u8>, Seq<u8>)>) -> Map<Seq<u8>, Seq<u8>>
    decreases s.len(),
{
    if s.len() == 0 {
        Map::empty()
    } else {
        pairs_map(s.drop_last()).insert(s.last().0, s.last().1)
    }
}

/// The domain of `pairs_map(s)` is finite and holds exactly the keys of `s`.
pub proof fn lemma_pairs_map_dom(s: Seq<(Seq<u8>, Seq<u8>)>)
    ensures
        pairs_map(s).dom().finite(),
        forall|k: Seq<u8>| #[trigger]
            pairs_map(s).contains_key(k) <==> (exists|i: int| 0 <= i < s.len() && s[i].0 == k),
    decreases s.len(),
{
    if s.len() == 0 {
    } else {
        lemma_pairs_map_dom(s.drop_last());
        assert forall|k: Seq<u8>| #[trigger] pairs_map(s).contains_key(k) implies (exists|i: int|
            0 <= i < s.len() && s[i].0 == k) by {
            if k == s.last().0 {
                assert(s[s.len() - 1].0 == k);
            } else {
                let i = choose|i: int| 0 <= i < s.drop_last().len() && s.drop_last()[i].0 == k;
                assert(s[i].0 == k);
            }
        }
        assert forall|k: Seq<u8>| (exists|i: int| 0 <= i < s.len() && s[i].0 == k) implies #[trigger]
            pairs_map(s).contains_key(k) by {
            let i = choose|i: int| 0 <= i < s.len() && s[i].0 == k;
            if i < s.len() - 1 {
                assert(s.drop_last()[i].0 == k);
                assert(pairs_map(s.drop_last()).contains_key(k));
            }
        }
    }
}

/// Under distinct keys, the map holds each pair's value at its key.
pub proof fn lemma_pairs_map_index(s: Seq<(Seq<u8>, Seq<u8>)>, i: int)
    requires
        distinct_keys(s),
        0 <= i < s.len(),
    ensures
        pairs_map(s).contains_key(s[i].0),
        pairs_map(s)[s[i].0] == s[i].1,
    decreases s.len(),
{
    if i == s.len() - 1 {
    } else {
        assert(distinct_keys(s.drop_last())) by {
            assert(forall|x: int, y: int|
                0 <= x < y < s.drop_last().len() ==> s.drop_last()[x] == s[x] && s.drop_last()[y]
                    == s[y]);
        }
        assert(s.drop_last()[i] == s[i]);
        lemma_pairs_map_index(s.drop_last(), i);
        assert(s.last().0 != s[i].0);
    }
}

/// Under distinct keys, the map has exactly one entry per pair.
pub proof fn lemma_pairs_map_len(s: Seq<(Seq<u8>, Seq<u8>)>)
    requires
        distinct_keys(s),
    ensures
        pairs_map(s).dom().len() == s.len(),
    decreases s.len(),
{
    lemma_pairs_map_dom(s);
    if s.len() == 0 {
        assert(pairs_map(s).dom() =~= Set::empty());
    } else {
        assert(distinct_keys(s.drop_last())) by {
            assert(forall|x: int, y: int|
                0 <= x < y < s.drop_last().len() ==> s.drop_last()[x] == s[x] && s.drop_last()[y]
                    == s[y]);
        }
        lemma_pairs_map_len(s.drop_last());
        lemma_pairs_map_dom(s.drop_last());
        assert(!pairs_map(s.drop_last()).contains_key(s.last().0)) by {
            if pairs_map(s.drop_last()).contains_key(s.last().0) {
                let i = choose|i: int|
                    0 <= i < s.drop_last().len() && s.drop_last()[i].0 == s.last().0;
                assert(s[i].0 == s[s.len() - 1].0);
            }
        }
        assert(pairs_map(s).dom() =~= pairs_map(s.drop_last()).dom().insert(s.last().0));
    }
}

/// Appending a pair with a fresh key inserts it into the map.
pub proof fn lemma_pairs_map_push(s: Seq<(Seq<u8>, Seq<u8>)>, k: Seq<u8>, v: Seq<u8>)
    ensures
        pairs_map(s.push((k, v))) == pairs_map(s).insert(k, v),
{
    assert(s.push((k, v)).drop_last() =~= s);
}

/// Under distinct keys, replacing the value of the pair at `i` updates the
/// map at that pair's key.
pub proof fn lemma_pairs_map_update(s: Seq<(Seq<u8>, Seq<u8>)>, i: int, v: Seq<u8>)
    requires
        distinct_keys(s),
        0 <= i < s.len(),
    ensures
        pairs_map(s.update(i, (s[i].0, v))) == pairs_map(s).insert(s[i].0, v),
    decreases s.len(),
{
    let t = s.update(i, (s[i].0, v));
    if i == s.len() - 1 {
        assert(t.drop_last() =~= s.drop_last());
        assert(t.last() == (s[i].0, v));
        assert(pairs_map(s.drop_last()).insert(s[i].0, v) =~= pairs_map(s).insert(s[i].0, v));
    } else {
        assert(distinct_keys(s.drop_last())) by {
            assert(forall|x: int, y: int|
                0 <= x < y < s.drop_last().len() ==> s.drop_last()[x] == s[x] && s.drop_last()[y]
                    == s[y]);
        }
        assert(s.drop_last()[i] == s[i]);
        lemma_pairs_map_update(s.drop_last(), i, v);
        assert(t.drop_last() =~= s.drop_last().update(i, (s[i].0, v)));
        assert(t.last() == s.last());
        assert(s.last().0 != s[i].0);
        assert(pairs_map(s.drop_last()).insert(s[i].0, v).insert(s.last().0, s.last().1)
            =~= pairs_map(s.drop_last()).insert(s.last().0, s.last().1).insert(s[i].0, v));
    }
}

/// Under distinct keys, removing the pair at `i` removes its key from the
/// map.
pub proof fn lemma_pairs_map_remove(s: Seq<(Seq<u8>, Seq<u8>)>, i: int)
    requires
        distinct_keys(s),
        0 <= i < s.len(),
    ensures
        pairs_map(s.remove(i)) == pairs_map(s).remove(s[i].0),
    decreases s.len(),
{
    let t = s.remove(i);
    lemma_pairs_map_dom(s.drop_last());
    assert(distinct_keys(s.drop_last())) by {
        assert(forall|x: int, y: int|
            0 <= x < y < s.drop_last().len() ==> s.drop_last()[x] == s[x] && s.drop_last()[y]
                == s[y]);
    }
    if i == s.len() - 1 {
        assert(t =~= s.drop_last());
        assert(!pairs_map(s.drop_last()).contains_key(s.last().0)) by {
            if pairs_map(s.drop_last()).contains_key(s.last().0) {
                let j = choose|j: int|
                    0 <= j < s.drop_last().len() && s.drop_last()[j].0 == s.last().0;
                assert(s[j].0 == s[s.len() - 1].0);
            }
        }
        assert(pairs_map(s).remove(s.last().0) =~= pairs_map(s.drop_last()));
    } else {
        assert(s.drop_last()[i] == s[i]);
        lemma_pairs_map_remove(s.drop_last(), i);
        assert(t.drop_last() =~= s.drop_last().remove(i));
        assert(t.last() == s.last());
        assert(s.last().0 != s[i].0);
        assert(pairs_map(s.drop_last()).remove(s[i].0).insert(s.last().0, s.last().1)
            =~= pairs_map(s.drop_last()).insert(s.last().0, s.last().1).remove(s[i].0));
    }
}

/// The in-process store: a vector of entries with pairwise distinct keys.
pub struct HashmapKeyValueStore {
    entries: Vec<(Key, Value)>,
}

impl HashmapKeyValueStore {
    /// The views of the held entries, in insertion order.
    pub closed spec fn entry_views(&self) -> Seq<(Seq<u8>, Seq<u8>)> {
        self.entries@.map_values(|kv: (Key, Value)| (kv.0@, kv.1@))
    }

    /// Builds an empty store.
    pub fn new() -> (s: HashmapKeyValueStore)
        ensures
            s.inv(),
            s.contents() == Map::<Seq<u8>, Seq<u8>>::empty(),
    {
        let s = HashmapKeyValueStore { entries: Vec::new() };
        proof {
            assert(s.entry_views() =~= Seq::<(Seq<u8>, Seq<u8>)>::empty());
        }
        s
    }

    /// The position of the entry under `key`, if any.
    fn find_index(&self, key: &Key) -> (r: Option<usize>)
        ensures
            match r {
                Some(i) => i < self.entry_views().len() && self.entry_views()[i as int].0 == key@,
                None => forall|j: int|
                    0 <= j < self.entry_views().len() ==> self.entry_views()[j].0 != key@,
            },
    {
        let mut i: usize = 0;
        while i < self.entries.len()
            invariant
                i <= self.entries.len(),
                forall|j: int| 0 <= j < i ==> self.entry_views()[j].0 != key@,
            decreases self.entries.len() - i,
        {
            if self.entries[i].0 == *key {
                return Some(i);
            }
            i = i + 1;
        }
        None
    }
}

impl KeyValueStore for HashmapKeyValueStore {
    closed spec fn contents(&self) -> Map<Seq<u8>, Seq<u8>> {
        pairs_map(self.entry_views())
    }

    closed spec fn inv(&self) -> bool {
        distinct_keys(self.entry_views())
    }

    proof fn lemma_inv_contents_finite(&self) {
        lemma_pairs_map_dom(self.entry_views());
    }

    fn size(&self) -> (n: usize) {
        proof {
            lemma_pairs_map_len(self.entry_views());
        }
        self.entries.len()
    }

    fn contains(&self, key: &Key) -> (present: bool) {
        proof {
            lemma_pairs_map_dom(self.entry_views());
        }
        self.find_index(key).is_some()
    }

    fn read(&self, key: &Key) -> (r: Option<Value>) {
        proof {
            lemma_pairs_map_dom(self.entry_views());
        }
        match self.find_index(key) {
            Some(i) => {
                proof {
                    lemma_pairs_map_index(self.entry_views(), i as int);
                }
                Some(self.entries[i].1.clone())
            },
            None => None,
        }
    }

    fn create(&mut self, key: &Key, value: &Value) -> (previous: Option<Value>) {
        proof {
            lemma_pairs_map_dom(self.entry_views());
        }
        match self.find_index(key) {
            Some(i) => {
                proof {
                    lemma_pairs_map_index(self.entry_views(), i as int);
                    lemma_pairs_map_update(self.entry_views(), i as int, value@);
                }
                let ghost old_views = self.entry_views();
                let previous = self.entries[i].1.clone();
                self.entries.set(i, (key.clone(), value.clone()));
                proof {
                    assert(self.entry_views() =~= old_views.update(
                        i as int,
                        (old_views[i as int].0, value@),
                    ));
                    assert(distinct_keys(self.entry_views()));
                }
                Some(previous)
            },
            None => {
                let ghost old_views = self.entry_views();
                proof {
                    lemma_pairs_map_push(old_views, key@, value@);
                }
                self.entries.push((key.clone(), value.clone()));
                proof {
                    assert(self.entry_views() =~= old_views.push((key@, value@)));
                    assert(distinct_keys(self.entry_views()));
                }
                None
            },
        }
    }

    fn update(&mut self, key: &Key, value: &Value) -> (r: Result<Option<Value>, Error>) {
        proof {
            lemma_pairs_map_dom(self.entry_views());
        }
        match self.find_index(key) {
            Some(i) => {
                proof {
                    lemma_pairs_map_index(self.entry_views(), i as int);
                    lemma_pairs_map_update(self.entry_views(), i as int, value@);
                }
                let ghost old_views = self.entry_views();
                let previous = self.entries[i].1.clone();
                self.entries.set(i, (key.clone(), value.clone()));
                proof {
                    assert(self.entry_views() =~= old_views.update(
                        i as int,
                        (old_views[i as int].0, value@),
                    ));
                    assert(distinct_keys(self.entry_views()));
                }
                Ok(Some(previous))
            },
            None => Err(no_existing_value_error()),
        }
    }

    fn delete(&mut self, key: &Key) -> (removed: Option<Value>) {
        proof {
            lemma_pairs_map_dom(self.entry_views());
        }
        match self.find_index(key) {
            Some(i) => {
                proof {
                    lemma_pairs_map_index(self.entry_views(), i as int);
                    lemma_pairs_map_remove(self.entry_views(), i as int);
                }
                let ghost old_views = self.entry_views();
                let entry = self.entries.remove(i);
                proof {
                    assert(self.entry_views() =~= old_views.remove(i as int));
                    assert(distinct_keys(self.entry_views())) by {
                        assert(forall|x: int, y: int|
                            0 <= x < y < old_views.remove(i as int).len()
                                ==> old_views.remove(i as int)[x] == (if x < i as int {
                                old_views[x]
                            } else {
                                old_views[x + 1]
                            }) && old_views.remove(i as int)[y] == (if y < i as int {
                                old_views[y]
                            } else {
                                old_views[y + 1]
                            }));
                    }
                }
                Some(entry.1)
            },
            None => {
                proof {
                    assert(self.contents().remove(key@) =~= self.contents());
                }
                None
            },
        }
    }
}

} // verus!
