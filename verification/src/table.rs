//! A small association table keyed by procedure identifier, the backing
//! store for the hook registry and the machine's program table. Keys are
//! unique: a fresh insert demands an absent key, an upsert replaces in
//! place.

use vstd::prelude::*;

verus! {

/// What a lookup finds in a run of entries: the value beside the first
/// matching key.
pub open spec fn find_seq<V>(s: Seq<(u32, V)>, k: u32) -> Option<V>
    decreases s.len(),
{
    if s.len() == 0 {
        None
    } else if s[0].0 == k {
        Some(s[0].1)
    } else {
        find_seq(s.drop_first(), k)
    }
}

proof fn lemma_find_absent<V>(s: Seq<(u32, V)>, k: u32)
    requires
        forall|j: int| 0 <= j < s.len() ==> (#[trigger] s[j]).0 != k,
    ensures
        find_seq(s, k) is None,
    decreases s.len(),
{
    if s.len() > 0 {
        assert(forall|j: int|
            0 <= j < s.drop_first().len() ==> (#[trigger] s.drop_first()[j]).0 != k);
        lemma_find_absent(s.drop_first(), k);
    }
}

proof fn lemma_find_at<V>(s: Seq<(u32, V)>, k: u32, i: int)
    requires
        0 <= i < s.len(),
        s[i].0 == k,
        forall|j: int| 0 <= j < i ==> (#[trigger] s[j]).0 != k,
    ensures
        find_seq(s, k) == Some(s[i].1),
    decreases i,
{
    if i > 0 {
        lemma_find_at(s.drop_first(), k, i - 1);
    }
}

proof fn lemma_find_push<V>(s: Seq<(u32, V)>, e: (u32, V), k: u32)
    ensures
        find_seq(s.push(e), k) == (if find_seq(s, k) is Some {
            find_seq(s, k)
        } else if e.0 == k {
            Some(e.1)
        } else {
            None
        }),
    decreases s.len(),
{
    if s.len() == 0 {
        assert(s.push(e).drop_first() =~= s);
    } else {
        assert(s.push(e).drop_first() =~= s.drop_first().push(e));
        lemma_find_push(s.drop_first(), e, k);
    }
}

proof fn lemma_find_update<V>(s: Seq<(u32, V)>, i: int, v2: V, k: u32)
    requires
        0 <= i < s.len(),
        forall|j: int| 0 <= j < i ==> (#[trigger] s[j]).0 != s[i].0,
    ensures
        find_seq(s.update(i, (s[i].0, v2)), k) == (if k == s[i].0 {
            Some(v2)
        } else {
            find_seq(s, k)
        }),
    decreases i,
{
    let s2 = s.update(i, (s[i].0, v2));
    if i == 0 {
        assert(s2.drop_first() =~= s.drop_first());
    } else {
        assert(s2.drop_first() =~= s.drop_first().update(i - 1, (s[i].0, v2)));
        lemma_find_update(s.drop_first(), i - 1, v2, k);
    }
}

/// An association table with unique keys; its model is the finite map from
/// keys to values.
pub struct Table<V> {
    entries: Vec<(u32, V)>,
}

impl<V> Table<V> {
    /// The value stored beside `k`, if any.
    pub closed spec fn spec_find(self, k: u32) -> Option<V> {
        find_seq(self.entries@, k)
    }

    /// The table as a finite map.
    pub open spec fn view(self) -> Map<u32, V> {
        Map::new(|k: u32| self.spec_find(k) is Some, |k: u32| self.spec_find(k).unwrap())
    }

    pub fn new() -> (t: Table<V>)
        ensures
            t@ == Map::<u32, V>::empty(),
    {
        let t = Table { entries: Vec::new() };
        proof {
            assert(t@ =~= Map::<u32, V>::empty());
        }
        t
    }

    /// Where the first entry for `k` sits.
    fn index_of(&self, k: u32) -> (r: Option<usize>)
        ensures
            match r {
                Some(i) => i < self.entries@.len() && self.entries@[i as int].0 == k && (forall|
                    j: int,
                |
                    0 <= j < i ==> (#[trigger] self.entries@[j]).0 != k) && self@.contains_key(k)
                    && self@[k] == self.entries@[i as int].1,
                None => !self@.contains_key(k),
            },
    {
        let mut i: usize = 0;
        while i < self.entries.len()
            invariant
                i <= self.entries@.len(),
                forall|j: int| 0 <= j < i ==> (#[trigger] self.entries@[j]).0 != k,
            decreases self.entries@.len() - i,
        {
            if self.entries[i].0 == k {
                proof {
                    lemma_find_at(self.entries@, k, i as int);
                }
                return Some(i);
            }
            i = i + 1;
        }
        proof {
            lemma_find_absent(self.entries@, k);
        }
        None
    }

    /// Whether an entry exists for `k`.
    pub fn contains(&self, k: u32) -> (r: bool)
        ensures
            r == self@.contains_key(k),
    {
        self.index_of(k).is_some()
    }

    /// A borrow of the value stored beside `k`.
    pub fn get(&self, k: u32) -> (r: Option<&V>)
        ensures
            match r {
                Some(v) => self@.contains_key(k) && *v == self@[k],
                None => !self@.contains_key(k),
            },
    {
        match self.index_of(k) {
            Some(i) => Some(&self.entries[i].1),
            None => None,
        }
    }

    /// Inserts a value under a key not yet present.
    pub fn insert(&mut self, k: u32, v: V)
        requires
            !old(self)@.contains_key(k),
        ensures
            final(self)@ == old(self)@.insert(k, v),
    {
        proof {
            let ghost s = self.entries@;
            assert forall|k2: u32| true implies #[trigger] find_seq(s.push((k, v)), k2) == (
            if find_seq(s, k2) is Some {
                find_seq(s, k2)
            } else if k2 == k {
                Some(v)
            } else {
                None
            }) by {
                lemma_find_push(s, (k, v), k2);
            }
        }
        self.entries.push((k, v));
        proof {
            assert(self@ =~= old(self)@.insert(k, v));
        }
    }

    /// Inserts a value under `k`, replacing any previous one: the
    /// last-write-wins shape of the machine's program table.
    pub fn upsert(&mut self, k: u32, v: V)
        ensures
            final(self)@ == old(self)@.insert(k, v),
    {
        match self.index_of(k) {
            Some(i) => {
                proof {
                    let ghost s = self.entries@;
                    assert forall|k2: u32| true implies #[trigger] find_seq(
                        s.update(i as int, (k, v)),
                        k2,
                    ) == (if k2 == k {
                        Some(v)
                    } else {
                        find_seq(s, k2)
                    }) by {
                        lemma_find_update(s, i as int, v, k2);
                    }
                }
                self.entries.set(i, (k, v));
                proof {
                    assert(self@ =~= old(self)@.insert(k, v));
                }
            }
            None => {
                self.insert(k, v);
            }
        }
    }

    /// Removes every entry.
    pub fn clear(&mut self)
        ensures
            final(self)@ == Map::<u32, V>::empty(),
    {
        self.entries = Vec::new();
        proof {
            assert(self@ =~= Map::<u32, V>::empty());
        }
    }
}

} // verus!
