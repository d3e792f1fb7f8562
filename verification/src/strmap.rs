use vstd::prelude::*;
use crate::text::str_eq;

verus! {

/// A map from string keys to values that remembers insertion order.
///
/// Lookups see the first entry with a given key; `insert` keeps keys distinct,
/// so a map built with its own methods holds each key once.
pub struct StrMap<V> {
    pub entries: Vec<(String, V)>,
}

/// The value of the first entry whose key is `k`.
pub open spec fn lookup<V>(s: Seq<(String, V)>, k: Seq<char>) -> Option<V>
    decreases s.len(),
{
    if s.len() == 0 {
        None
    } else if s[0].0@ == k {
        Some(s[0].1)
    } else {
        lookup(s.drop_first(), k)
    }
}

/// The keys of the entries, in order.
pub open spec fn keys_of<V>(s: Seq<(String, V)>) -> Seq<Seq<char>> {
    s.map_values(|e: (String, V)| e.0@)
}

/// Appending an entry changes only a key that was absent.
pub proof fn lemma_lookup_push<V>(s: Seq<(String, V)>, e: (String, V), k: Seq<char>)
    ensures
        lookup(s.push(e), k) == (if lookup(s, k) is Some {
            lookup(s, k)
        } else if e.0@ == k {
            Some(e.1)
        } else {
            None::<V>
        }),
    decreases s.len(),
{
    if s.len() > 0 {
        assert(s.push(e).drop_first() =~= s.drop_first().push(e));
        assert(s.push(e)[0] == s[0]);
        lemma_lookup_push(s.drop_first(), e, k);
    } else {
        assert(s.push(e).drop_first() =~= Seq::<(String, V)>::empty());
        assert(lookup(s.push(e).drop_first(), k) is None);
        assert(s.push(e)[0] == e);
    }
}

/// A key is found exactly when some entry carries it, and then at its first position.
pub proof fn lemma_lookup_index<V>(s: Seq<(String, V)>, k: Seq<char>, i: int)
    requires
        0 <= i < s.len(),
        s[i].0@ == k,
        forall|j: int| 0 <= j < i ==> s[j].0@ != k,
    ensures
        lookup(s, k) == Some(s[i].1),
    decreases s.len(),
{
    if i > 0 {
        lemma_lookup_index(s.drop_first(), k, i - 1);
    }
}

/// A key that no entry carries is not found.
pub proof fn lemma_lookup_absent<V>(s: Seq<(String, V)>, k: Seq<char>)
    requires
        forall|j: int| 0 <= j < s.len() ==> s[j].0@ != k,
    ensures
        lookup(s, k) is None,
    decreases s.len(),
{
    if s.len() > 0 {
        lemma_lookup_absent(s.drop_first(), k);
    }
}

/// A found key is carried by some entry.
pub proof fn lemma_lookup_some<V>(s: Seq<(String, V)>, k: Seq<char>)
    requires
        lookup(s, k) is Some,
    ensures
        exists|j: int| 0 <= j < s.len() && s[j].0@ == k && s[j].1 == lookup(s, k)->0,
    decreases s.len(),
{
    if s[0].0@ != k {
        lemma_lookup_some(s.drop_first(), k);
        let j = choose|j: int|
            0 <= j < s.drop_first().len() && s.drop_first()[j].0@ == k && s.drop_first()[j].1
                == lookup(s.drop_first(), k)->0;
        assert(s[j + 1] == s.drop_first()[j]);
    }
}

/// Replacing the value of the first entry with a key changes only that key.
pub proof fn lemma_lookup_update<V>(s: Seq<(String, V)>, i: int, e: (String, V), k: Seq<char>)
    requires
        0 <= i < s.len(),
        s[i].0@ == e.0@,
        forall|j: int| 0 <= j < i ==> s[j].0@ != e.0@,
    ensures
        lookup(s.update(i, e), k) == (if k == e.0@ {
            Some(e.1)
        } else {
            lookup(s, k)
        }),
    decreases s.len(),
{
    if i > 0 {
        assert(s.update(i, e).drop_first() =~= s.drop_first().update(i - 1, e));
        assert(s.update(i, e)[0] == s[0]);
        lemma_lookup_update(s.drop_first(), i - 1, e, k);
    } else {
        assert(s.update(0, e).drop_first() =~= s.drop_first());
        assert(s.update(0, e)[0] == e);
    }
}

impl<V> StrMap<V> {
    /// The map from keys to the value of their first entry.
    pub open spec fn view_map(&self) -> Map<Seq<char>, V> {
        Map::new(
            |k: Seq<char>| lookup(self.entries@, k) is Some,
            |k: Seq<char>| lookup(self.entries@, k)->0,
        )
    }

    /// The value stored under `k`, if any.
    pub open spec fn spec_get(&self, k: Seq<char>) -> Option<V> {
        lookup(self.entries@, k)
    }

    /// No key occurs in two entries.
    pub open spec fn keys_distinct(&self) -> bool {
        keys_of(self.entries@).no_duplicates()
    }

    /// An empty map.
    pub fn new() -> (m: Self)
        ensures
            m.entries@.len() == 0,
            forall|k: Seq<char>| m.spec_get(k) is None,
            m.keys_distinct(),
    {
        StrMap { entries: Vec::new() }
    }

    /// Number of entries.
    pub fn len(&self) -> (r: usize)
        ensures
            r == self.entries@.len(),
    {
        self.entries.len()
    }

    /// Whether the map has no entries.
    pub fn is_empty(&self) -> (r: bool)
        ensures
            r == (self.entries@.len() == 0),
            r ==> forall|k: Seq<char>| self.spec_get(k) is None,
    {
        proof {
            if self.entries@.len() == 0 {
                assert forall|k: Seq<char>| self.spec_get(k) is None by {
                    lemma_lookup_absent(self.entries@, k);
                }
            }
        }
        self.entries.len() == 0
    }

    /// Position of the first entry whose key is `key`.
    pub fn find(&self, key: &str) -> (r: Option<usize>)
        ensures
            r matches Some(i) ==> i < self.entries@.len() && self.entries@[i as int].0@ == key@
                && forall|j: int| 0 <= j < i ==> self.entries@[j].0@ != key@,
            r is None ==> forall|j: int| 0 <= j < self.entries@.len() ==> self.entries@[j].0@ != key@,
            r matches Some(i) ==> self.spec_get(key@) == Some(self.entries@[i as int].1),
            r is None ==> self.spec_get(key@) is None,
    {
        let mut i: usize = 0;
        while i < self.entries.len()
            invariant
                i <= self.entries@.len(),
                forall|j: int| 0 <= j < i ==> self.entries@[j].0@ != key@,
            decreases self.entries@.len() - i,
        {
            if str_eq(self.entries[i].0.as_str(), key) {
                proof {
                    lemma_lookup_index(self.entries@, key@, i as int);
                }
                return Some(i);
            }
            i = i + 1;
        }
        proof {
            lemma_lookup_absent(self.entries@, key@);
        }
        None
    }

    /// The value stored under `key`.
    pub fn get(&self, key: &str) -> (r: Option<&V>)
        ensures
            r matches Some(v) ==> self.spec_get(key@) == Some(*v),
            r is None ==> self.spec_get(key@) is None,
    {
        match self.find(key) {
            Some(i) => Some(&self.entries[i].1),
            None => None,
        }
    }

    /// Whether a value is stored under `key`.
    pub fn contains_key(&self, key: &str) -> (r: bool)
        ensures
            r == (self.spec_get(key@) is Some),
    {
        match self.find(key) {
            Some(_) => true,
            None => false,
        }
    }

    /// Stores `value` under `key`, replacing the value stored there before.
    pub fn insert(&mut self, key: String, value: V)
        ensures
            forall|k: Seq<char>|
                #![trigger final(self).spec_get(k)]
                final(self).spec_get(k) == (if k == key@ {
                    Some(value)
                } else {
                    old(self).spec_get(k)
                }),
            old(self).keys_distinct() ==> final(self).keys_distinct(),
            old(self).spec_get(key@) is Some ==> final(self).entries@.len()
                == old(self).entries@.len(),
            old(self).spec_get(key@) is None ==> final(self).entries@.len()
                == old(self).entries@.len() + 1,
            final(self).view_map() == old(self).view_map().insert(key@, value),
    {
        let ghost kv = key@;
        let ghost before = self.view_map();
        let ghost old_self = *self;
        self.insert_entry_raw(key, value);
        assert forall|k: Seq<char>| #[trigger] self.view_map().contains_key(k) == before.insert(
            kv,
            value,
        ).contains_key(k) && (self.view_map().contains_key(k) ==> self.view_map()[k] == before.insert(
            kv,
            value,
        )[k]) by {
            assert(self.spec_get(k) == (if k == kv {
                Some(value)
            } else {
                old_self.spec_get(k)
            }));
        }
        assert(self.view_map() =~= before.insert(kv, value));
    }

    fn insert_entry_raw(&mut self, key: String, value: V)
        ensures
            forall|k: Seq<char>|
                #![trigger final(self).spec_get(k)]
                final(self).spec_get(k) == (if k == key@ {
                    Some(value)
                } else {
                    old(self).spec_get(k)
                }),
            old(self).keys_distinct() ==> final(self).keys_distinct(),
            old(self).spec_get(key@) is Some ==> final(self).entries@.len()
                == old(self).entries@.len(),
            old(self).spec_get(key@) is None ==> final(self).entries@.len()
                == old(self).entries@.len() + 1,
    {
        match self.find(key.as_str()) {
            Some(i) => {
                let ghost s = self.entries@;
                let ghost kv = key@;
                self.entries.set(i, (key, value));
                proof {
                    assert(self.entries@ == s.update(i as int, self.entries@[i as int]));
                    assert forall|k: Seq<char>| #![trigger self.spec_get(k)]
                        self.spec_get(k) == (if k == kv {
                            Some(value)
                        } else {
                            lookup(s, k)
                        }) by {
                        lemma_lookup_update(s, i as int, self.entries@[i as int], k);
                    }
                    assert(keys_of(self.entries@) =~= keys_of(s));
                }
            },
            None => {
                let ghost s = self.entries@;
                let ghost kv = key@;
                self.entries.push((key, value));
                proof {
                    assert forall|k: Seq<char>| #![trigger self.spec_get(k)]
                        self.spec_get(k) == (if k == kv {
                            Some(value)
                        } else {
                            lookup(s, k)
                        }) by {
                        lemma_lookup_push(s, self.entries@.last(), k);
                        assert(self.entries@ =~= s.push(self.entries@.last()));
                    }
                    assert(keys_of(self.entries@) =~= keys_of(s).push(kv));
                }
            },
        }
    }

    /// Stores `value` under `key` only when nothing is stored there yet.
    pub fn insert_if_absent(&mut self, key: String, value: V)
        ensures
            forall|k: Seq<char>|
                #![trigger final(self).spec_get(k)]
                final(self).spec_get(k) == (if k == key@ && old(self).spec_get(k) is None {
                    Some(value)
                } else {
                    old(self).spec_get(k)
                }),
            old(self).keys_distinct() ==> final(self).keys_distinct(),
    {
        if !self.contains_key(key.as_str()) {
            self.insert(key, value);
        }
    }
}

impl StrMap<String> {
    /// A copy of the map with the same entries in the same order.
    pub fn copy(&self) -> (r: Self)
        ensures
            r.entries@ == self.entries@,
    {
        let mut out: Vec<(String, String)> = Vec::new();
        let mut i: usize = 0;
        while i < self.entries.len()
            invariant
                i <= self.entries@.len(),
                out@ == self.entries@.subrange(0, i as int),
            decreases self.entries@.len() - i,
        {
            let k = self.entries[i].0.clone();
            let v = self.entries[i].1.clone();
            out.push((k, v));
            i = i + 1;
            assert(out@ =~= self.entries@.subrange(0, i as int));
        }
        assert(out@ =~= self.entries@);
        StrMap { entries: out }
    }
}

impl StrMap<bool> {
    /// A copy of the map with the same entries in the same order.
    pub fn copy(&self) -> (r: Self)
        ensures
            r.entries@ == self.entries@,
    {
        let mut out: Vec<(String, bool)> = Vec::new();
        let mut i: usize = 0;
        while i < self.entries.len()
            invariant
                i <= self.entries@.len(),
                out@ == self.entries@.subrange(0, i as int),
            decreases self.entries@.len() - i,
        {
            let k = self.entries[i].0.clone();
            let v = self.entries[i].1;
            out.push((k, v));
            i = i + 1;
            assert(out@ =~= self.entries@.subrange(0, i as int));
        }
        assert(out@ =~= self.entries@);
        StrMap { entries: out }
    }
}

impl<V> StrMap<V> {
    /// Removes and returns the entry at `i`.
    pub fn remove_entry(&mut self, i: usize) -> (r: (String, V))
        requires
            i < old(self).entries@.len(),
        ensures
            final(self).entries@ == old(self).entries@.remove(i as int),
            r == old(self).entries@[i as int],
    {
        self.entries.remove(i)
    }

    /// Puts an entry back at position `i`.
    pub fn insert_entry(&mut self, i: usize, e: (String, V))
        requires
            i <= old(self).entries@.len(),
        ensures
            final(self).entries@ == old(self).entries@.insert(i as int, e),
    {
        self.entries.insert(i, e);
    }
}

/// Removing the first entry with a key and putting a new entry with the same key
/// back in its place changes only that key's value.
pub proof fn lemma_replace_first<V>(s: Seq<(String, V)>, i: int, e: (String, V), k: Seq<char>)
    requires
        0 <= i < s.len(),
        s[i].0@ == e.0@,
        forall|j: int| 0 <= j < i ==> s[j].0@ != e.0@,
    ensures
        s.remove(i).insert(i, e) == s.update(i, e),
        lookup(s.remove(i).insert(i, e), k) == (if k == e.0@ {
            Some(e.1)
        } else {
            lookup(s, k)
        }),
{
    assert(s.remove(i).insert(i, e) =~= s.update(i, e));
    lemma_lookup_update(s, i, e, k);
}

/// Appending an entry to a prefix: the prefix of one more element.
pub proof fn lemma_lookup_take_next<V>(s: Seq<(String, V)>, i: int, k: Seq<char>)
    requires
        0 <= i < s.len(),
    ensures
        lookup(s.subrange(0, i + 1), k) == (if lookup(s.subrange(0, i), k) is Some {
            lookup(s.subrange(0, i), k)
        } else if s[i].0@ == k {
            Some(s[i].1)
        } else {
            None::<V>
        }),
{
    assert(s.subrange(0, i + 1) =~= s.subrange(0, i).push(s[i]));
    lemma_lookup_push(s.subrange(0, i), s[i], k);
}

/// Dropping the first element of a suffix.
pub proof fn lemma_lookup_skip_prev<V>(s: Seq<(String, V)>, i: int, k: Seq<char>)
    requires
        0 < i <= s.len(),
    ensures
        lookup(s.subrange(i - 1, s.len() as int), k) == (if s[i - 1].0@ == k {
            Some(s[i - 1].1)
        } else {
            lookup(s.subrange(i, s.len() as int), k)
        }),
{
    assert(s.subrange(i - 1, s.len() as int).drop_first() =~= s.subrange(i, s.len() as int));
    assert(s.subrange(i - 1, s.len() as int)[0] == s[i - 1]);
}

impl StrMap<String> {
    /// Adds every entry of `other` whose key is not yet present.
    pub fn extend_if_absent(&mut self, other: &StrMap<String>)
        ensures
            forall|k: Seq<char>|
                #![trigger final(self).spec_get(k)]
                final(self).spec_get(k) == (if old(self).spec_get(k) is Some {
                    old(self).spec_get(k)
                } else {
                    other.spec_get(k)
                }),
            old(self).keys_distinct() ==> final(self).keys_distinct(),
    {
        let mut i: usize = 0;
        while i < other.entries.len()
            invariant
                i <= other.entries@.len(),
                forall|k: Seq<char>|
                    #![trigger self.spec_get(k)]
                    self.spec_get(k) == (if old(self).spec_get(k) is Some {
                        old(self).spec_get(k)
                    } else {
                        lookup(other.entries@.subrange(0, i as int), k)
                    }),
                old(self).keys_distinct() ==> self.keys_distinct(),
            decreases other.entries@.len() - i,
        {
            let k = other.entries[i].0.clone();
            let v = other.entries[i].1.clone();
            self.insert_if_absent(k, v);
            proof {
                assert forall|k2: Seq<char>| #![trigger self.spec_get(k2)]
                    self.spec_get(k2) == (if old(self).spec_get(k2) is Some {
                        old(self).spec_get(k2)
                    } else {
                        lookup(other.entries@.subrange(0, i + 1), k2)
                    }) by {
                    lemma_lookup_take_next(other.entries@, i as int, k2);
                }
            }
            i = i + 1;
        }
        assert(other.entries@.subrange(0, other.entries@.len() as int) =~= other.entries@);
    }

    /// Stores every entry of `other`, replacing values stored under the same keys.
    pub fn overwrite_from(&mut self, other: &StrMap<String>)
        ensures
            forall|k: Seq<char>|
                #![trigger final(self).spec_get(k)]
                final(self).spec_get(k) == (if other.spec_get(k) is Some {
                    other.spec_get(k)
                } else {
                    old(self).spec_get(k)
                }),
            old(self).keys_distinct() ==> final(self).keys_distinct(),
    {
        let mut i: usize = other.entries.len();
        assert(other.entries@.subrange(i as int, other.entries@.len() as int) =~= Seq::<
            (String, String),
        >::empty());
        while i > 0
            invariant
                i <= other.entries@.len(),
                forall|k: Seq<char>|
                    #![trigger self.spec_get(k)]
                    self.spec_get(k) == (if lookup(
                        other.entries@.subrange(i as int, other.entries@.len() as int),
                        k,
                    ) is Some {
                        lookup(other.entries@.subrange(i as int, other.entries@.len() as int), k)
                    } else {
                        old(self).spec_get(k)
                    }),
                old(self).keys_distinct() ==> self.keys_distinct(),
            decreases i,
        {
            let k = other.entries[i - 1].0.clone();
            let v = other.entries[i - 1].1.clone();
            self.insert(k, v);
            proof {
                assert forall|k2: Seq<char>| #![trigger self.spec_get(k2)]
                    self.spec_get(k2) == (if lookup(
                        other.entries@.subrange(i - 1, other.entries@.len() as int),
                        k2,
                    ) is Some {
                        lookup(other.entries@.subrange(i - 1, other.entries@.len() as int), k2)
                    } else {
                        old(self).spec_get(k2)
                    }) by {
                    lemma_lookup_skip_prev(other.entries@, i as int, k2);
                }
            }
            i = i - 1;
        }
        assert(other.entries@.subrange(0, other.entries@.len() as int) =~= other.entries@);
    }
}

/// The map from keys to the text of their value.
pub open spec fn text_view(m: StrMap<String>) -> Map<Seq<char>, Seq<char>> {
    Map::new(
        |k: Seq<char>| lookup(m.entries@, k) is Some,
        |k: Seq<char>| lookup(m.entries@, k)->0@,
    )
}

impl StrMap<String> {
    /// Stores the text `value` under `key`.
    pub fn put(&mut self, key: String, value: String)
        ensures
            text_view(*final(self)) == text_view(*old(self)).insert(key@, value@),
            forall|k: Seq<char>|
                #![trigger final(self).spec_get(k)]
                final(self).spec_get(k) == (if k == key@ {
                    Some(value)
                } else {
                    old(self).spec_get(k)
                }),
            old(self).keys_distinct() ==> final(self).keys_distinct(),
    {
        let ghost kv = key@;
        let ghost vv = value@;
        let ghost before = text_view(*self);
        let ghost old_self = *self;
        let ghost val = value;
        self.insert(key, value);
        assert forall|k: Seq<char>| #[trigger] text_view(*self).contains_key(k) == before.insert(
            kv,
            vv,
        ).contains_key(k) && (text_view(*self).contains_key(k) ==> text_view(*self)[k]
            == before.insert(kv, vv)[k]) by {
            assert(self.spec_get(k) == (if k == kv {
                Some(val)
            } else {
                old_self.spec_get(k)
            }));
        }
        assert(text_view(*self) =~= before.insert(kv, vv));
    }
}

} // verus!
