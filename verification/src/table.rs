//! Tables keyed by text: what a path or an author name maps to.
//!
//! A table is a list of entries. The first entry with a key is the one that
//! counts; `insert` and `add` never add a second one.

use vstd::prelude::*;
use vstd::string::StringExecFns;

verus! {

/// One entry of a table.
#[derive(Debug)]
pub struct Entry<V> {
    pub key: String,
    pub value: V,
}

/// A table from text to values of `V`.
#[derive(Debug)]
pub struct Table<V> {
    pub entries: Vec<Entry<V>>,
}

/// What the entries `es` hold for the key `k`: the value of the first entry
/// with that key.
pub open spec fn lookup<V>(es: Seq<Entry<V>>, k: Seq<char>) -> Option<V>
    decreases es.len(),
{
    if es.len() == 0 {
        None
    } else if es[0].key@ == k {
        Some(es[0].value)
    } else {
        lookup(es.drop_first(), k)
    }
}

/// Whether no key occurs twice in `es`.
pub open spec fn distinct_keys<V>(es: Seq<Entry<V>>) -> bool {
    forall|i: int, j: int| 0 <= i < j < es.len() ==> (#[trigger] es[i]).key@ != (#[trigger] es[j]).key@
}

/// Entries before the first one with the key `k` do not matter to `k`.
pub proof fn lemma_lookup_skip<V>(es: Seq<Entry<V>>, k: Seq<char>, i: int)
    requires
        0 <= i <= es.len(),
        forall|j: int| 0 <= j < i ==> (#[trigger] es[j]).key@ != k,
    ensures
        lookup(es, k) == lookup(es.skip(i), k),
    decreases i,
{
    if i == 0 {
        assert(es.skip(0) =~= es);
    } else {
        let t = es.drop_first();
        assert forall|j: int| 0 <= j < i - 1 implies (#[trigger] t[j]).key@ != k by {
            assert(t[j] == es[j + 1]);
        }
        lemma_lookup_skip(t, k, i - 1);
        assert(t.skip(i - 1) =~= es.skip(i));
    }
}

/// A key that no entry has is looked up in vain.
pub proof fn lemma_lookup_absent<V>(es: Seq<Entry<V>>, k: Seq<char>)
    requires
        forall|j: int| 0 <= j < es.len() ==> (#[trigger] es[j]).key@ != k,
    ensures
        lookup(es, k).is_none(),
{
    lemma_lookup_skip(es, k, es.len() as int);
}

/// Replacing the first entry with a key changes what that key maps to, and
/// nothing else.
pub proof fn lemma_lookup_update<V>(es: Seq<Entry<V>>, i: int, e: Entry<V>, q: Seq<char>)
    requires
        0 <= i < es.len(),
        forall|j: int| 0 <= j < i ==> (#[trigger] es[j]).key@ != e.key@,
        es[i].key@ == e.key@,
    ensures
        lookup(es.update(i, e), q) == if q == e.key@ {
            Some(e.value)
        } else {
            lookup(es, q)
        },
    decreases i,
{
    let new = es.update(i, e);
    if i == 0 {
        assert(new.drop_first() =~= es.drop_first());
    } else {
        let t = es.drop_first();
        assert forall|j: int| 0 <= j < i - 1 implies (#[trigger] t[j]).key@ != e.key@ by {
            assert(t[j] == es[j + 1]);
        }
        lemma_lookup_update(t, i - 1, e, q);
        assert(new.drop_first() =~= t.update(i - 1, e));
        assert(new[0] == es[0]);
    }
}

/// A new entry at the end gives its key a value, where the key had none, and
/// changes nothing else.
pub proof fn lemma_lookup_push<V>(es: Seq<Entry<V>>, e: Entry<V>, q: Seq<char>)
    requires
        forall|j: int| 0 <= j < es.len() ==> (#[trigger] es[j]).key@ != e.key@,
    ensures
        lookup(es.push(e), q) == if q == e.key@ {
            Some(e.value)
        } else {
            lookup(es, q)
        },
    decreases es.len(),
{
    let new = es.push(e);
    assert(new[0] == if es.len() == 0 {
        e
    } else {
        es[0]
    });
    if es.len() == 0 {
        assert(new.drop_first() =~= Seq::<Entry<V>>::empty());
        assert(lookup(new.drop_first(), q).is_none());
    } else {
        let t = es.drop_first();
        assert(es[0].key@ != e.key@);
        assert forall|j: int| 0 <= j < t.len() implies (#[trigger] t[j]).key@ != e.key@ by {
            assert(t[j] == es[j + 1]);
        }
        lemma_lookup_push(t, e, q);
        assert(new.drop_first() =~= t.push(e));
    }
}

impl<V> Table<V> {
    /// What the table holds for the key `k`.
    pub open spec fn get_spec(&self, k: Seq<char>) -> Option<V> {
        lookup(self.entries@, k)
    }

    /// Whether no key occurs twice.
    pub open spec fn is_distinct(&self) -> bool {
        distinct_keys(self.entries@)
    }

    /// The empty table.
    pub fn new() -> (t: Self)
        ensures
            t.entries@.len() == 0,
            t.is_distinct(),
            forall|k: Seq<char>| t.get_spec(k).is_none(),
    {
        Table { entries: Vec::new() }
    }

    /// The number of entries.
    pub fn len(&self) -> (n: usize)
        ensures
            n == self.entries@.len(),
    {
        self.entries.len()
    }

    /// The index of the first entry with the key `key`.
    pub fn position(&self, key: &str) -> (r: Option<usize>)
        ensures
            match r {
                Some(i) => i < self.entries@.len() && self.entries@[i as int].key@ == key@
                    && self.get_spec(key@) == Some(self.entries@[i as int].value) && forall|j: int|
                    0 <= j < i ==> (#[trigger] self.entries@[j]).key@ != key@,
                None => self.get_spec(key@).is_none() && forall|j: int|
                    0 <= j < self.entries@.len() ==> (#[trigger] self.entries@[j]).key@ != key@,
            },
    {
        let wanted = String::from_str(key);
        let mut i: usize = 0;
        while i < self.entries.len()
            invariant
                i <= self.entries@.len(),
                wanted@ == key@,
                forall|j: int| 0 <= j < i ==> (#[trigger] self.entries@[j]).key@ != key@,
            decreases self.entries@.len() - i,
        {
            if self.entries[i].key == wanted {
                proof {
                    lemma_lookup_skip(self.entries@, key@, i as int);
                }
                return Some(i);
            }
            i += 1;
        }
        proof {
            lemma_lookup_absent(self.entries@, key@);
        }
        None
    }

    /// What the table holds for the key `key`.
    pub fn get(&self, key: &str) -> (r: Option<&V>)
        ensures
            match r {
                Some(v) => self.get_spec(key@) == Some(*v),
                None => self.get_spec(key@).is_none(),
            },
    {
        match self.position(key) {
            Some(i) => Some(&self.entries[i].value),
            None => None,
        }
    }

    /// Whether the table holds the key `key`.
    pub fn contains_key(&self, key: &str) -> (r: bool)
        ensures
            r == self.get_spec(key@).is_some(),
    {
        self.position(key).is_some()
    }

    /// Lets `key` map to `value`, whatever it mapped to before.
    pub fn insert(&mut self, key: String, value: V)
        ensures
            forall|q: Seq<char>|
                final(self).get_spec(q) == if q == key@ {
                    Some(value)
                } else {
                    old(self).get_spec(q)
                },
            old(self).is_distinct() ==> final(self).is_distinct(),
            final(self).entries@.len() == old(self).entries@.len() + if old(self).get_spec(
                key@,
            ).is_some() {
                0int
            } else {
                1int
            },
    {
        let found = self.position(key.as_str());
        let entry = Entry { key, value };
        let ghost before = self.entries@;
        match found {
            Some(i) => {
                proof {
                    assert forall|q: Seq<char>|
                        lookup(before.update(i as int, entry), q) == if q == key@ {
                            Some(value)
                        } else {
                            lookup(before, q)
                        } by {
                        lemma_lookup_update(before, i as int, entry, q);
                    }
                }
                self.entries[i] = entry;
            },
            None => {
                proof {
                    assert forall|q: Seq<char>|
                        lookup(before.push(entry), q) == if q == key@ {
                            Some(value)
                        } else {
                            lookup(before, q)
                        } by {
                        lemma_lookup_push(before, entry, q);
                    }
                }
                self.entries.push(entry);
            },
        }
    }
}

impl Table<usize> {
    /// The count that the table holds for the key `k`, 0 where it holds none.
    pub open spec fn count_spec(&self, k: Seq<char>) -> nat {
        match self.get_spec(k) {
            Some(n) => n as nat,
            None => 0,
        }
    }

    /// The count that the table holds for the key `key`, 0 where it holds
    /// none.
    pub fn count(&self, key: &str) -> (n: usize)
        ensures
            n == self.count_spec(key@),
    {
        match self.get(key) {
            Some(n) => *n,
            None => 0,
        }
    }

    /// Adds `n` to the count of `key`. A count that would pass the largest
    /// `usize` stays there.
    pub fn add(&mut self, key: &str, n: usize)
        ensures
            forall|q: Seq<char>|
                final(self).count_spec(q) == if q == key@ {
                    if old(self).count_spec(q) + n <= usize::MAX {
                        (old(self).count_spec(q) + n) as nat
                    } else {
                        usize::MAX as nat
                    }
                } else {
                    old(self).count_spec(q)
                },
            old(self).is_distinct() ==> final(self).is_distinct(),
    {
        let now = self.count(key);
        let next = if now <= usize::MAX - n {
            now + n
        } else {
            usize::MAX
        };
        self.insert(String::from_str(key), next);
    }

    /// Adds one to the count of `key`. A count at the largest `usize` stays
    /// there.
    pub fn increment(&mut self, key: &str)
        ensures
            forall|q: Seq<char>|
                final(self).count_spec(q) == if q == key@ {
                    if old(self).count_spec(q) < usize::MAX {
                        old(self).count_spec(q) + 1
                    } else {
                        old(self).count_spec(q)
                    }
                } else {
                    old(self).count_spec(q)
                },
            old(self).is_distinct() ==> final(self).is_distinct(),
    {
        let now = self.count(key);
        let next = if now < usize::MAX {
            now + 1
        } else {
            now
        };
        self.insert(String::from_str(key), next);
    }
}

} // verus!
