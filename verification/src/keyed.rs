//! A table of values keyed by strings, with the semantics of a map: each
//! key has at most one value, and setting or removing one key leaves the
//! others as they were.
use vstd::prelude::*;
use crate::text::str_eq;

verus! {

/// The position of the first entry with `key`.
pub open spec fn key_position<V>(entries: Seq<(String, V)>, key: Seq<char>) -> Option<int>
    decreases entries.len(),
{
    if entries.len() == 0 {
        None
    } else {
        match key_position(entries.drop_last(), key) {
            Some(i) => Some(i),
            None => if entries.last().0@ == key {
                Some(entries.len() - 1)
            } else {
                None
            },
        }
    }
}

pub proof fn lemma_key_position<V>(entries: Seq<(String, V)>, key: Seq<char>)
    ensures
        key_position(entries, key) matches Some(i) ==> 0 <= i < entries.len() && entries[i].0@ == key && forall|j: int|
            0 <= j < i ==> (#[trigger] entries[j]).0@ != key,
        key_position(entries, key) is None ==> forall|j: int| 0 <= j < entries.len() ==> (#[trigger] entries[j]).0@ != key,
    decreases entries.len(),
{
    if entries.len() > 0 {
        let pre = entries.drop_last();
        lemma_key_position(pre, key);
        match key_position(pre, key) {
            Some(i) => {
                assert(entries[i] == pre[i]);
                assert forall|j: int| 0 <= j < i implies (#[trigger] entries[j]).0@ != key by {
                    assert(entries[j] == pre[j]);
                }
            },
            None => {
                assert forall|j: int| 0 <= j < entries.len() - 1 implies (#[trigger] entries[j]).0@ != key by {
                    assert(entries[j] == pre[j]);
                }
            },
        }
    }
}

/// The first position of a key is the one before which it does not occur.
pub proof fn lemma_key_position_at<V>(entries: Seq<(String, V)>, key: Seq<char>, p: int)
    requires
        0 <= p < entries.len(),
        entries[p].0@ == key,
        forall|j: int| 0 <= j < p ==> (#[trigger] entries[j]).0@ != key,
    ensures
        key_position(entries, key) == Some(p),
{
    lemma_key_position(entries, key);
    if let Some(q) = key_position(entries, key) {
        if q > p {
            assert(entries[p].0@ == key);
        }
    } else {
        assert(entries[p].0@ != key);
    }
}

/// The value that `entries` hold for `key`.
pub open spec fn value_in<V>(entries: Seq<(String, V)>, key: Seq<char>) -> Option<V> {
    match key_position(entries, key) {
        Some(i) => Some(entries[i].1),
        None => None,
    }
}

/// No key occurs twice.
pub open spec fn keys_unique<V>(entries: Seq<(String, V)>) -> bool {
    forall|i: int, j: int| 0 <= i < j < entries.len() ==> (#[trigger] entries[i]).0@ != (#[trigger] entries[j]).0@
}

/// Values keyed by strings.
#[derive(Debug)]
pub struct KeyedTable<V> {
    entries: Vec<(String, V)>,
}

impl<V> KeyedTable<V> {
    /// The value of `key`.
    pub closed spec fn value(self, key: Seq<char>) -> Option<V> {
        value_in(self.entries@, key)
    }

    /// The table is well formed.
    pub closed spec fn wf(self) -> bool {
        keys_unique(self.entries@)
    }

    /// An empty table.
    pub fn new() -> (r: Self)
        ensures
            r.wf(),
            forall|k: Seq<char>| #[trigger] r.value(k) is None,
    {
        KeyedTable { entries: Vec::new() }
    }

    fn position(&self, key: &str) -> (r: Option<usize>)
        ensures
            match key_position(self.entries@, key@) {
                Some(i) => r == Some(i as usize),
                None => r is None,
            },
            r matches Some(i) ==> i < self.entries@.len() && key_position(self.entries@, key@) == Some(i as int),
    {
        proof {
            lemma_key_position(self.entries@, key@);
        }
        let mut i: usize = 0;
        while i < self.entries.len()
            invariant
                i <= self.entries@.len(),
                forall|j: int| 0 <= j < i ==> (#[trigger] self.entries@[j]).0@ != key@,
                key_position(self.entries@, key@) matches Some(p) ==> 0 <= p < self.entries@.len()
                    && self.entries@[p].0@ == key@ && forall|j: int|
                    0 <= j < p ==> (#[trigger] self.entries@[j]).0@ != key@,
                key_position(self.entries@, key@) is None ==> forall|j: int|
                    0 <= j < self.entries@.len() ==> (#[trigger] self.entries@[j]).0@ != key@,
            decreases self.entries@.len() - i,
        {
            if str_eq(self.entries[i].0.as_str(), key) {
                return Some(i);
            }
            i = i + 1;
        }
        None
    }

    /// The value for `key`.
    pub fn get(&self, key: &str) -> (r: Option<&V>)
        ensures
            match r {
                Some(v) => self.value(key@) == Some(*v),
                None => self.value(key@) is None,
            },
    {
        match self.position(key) {
            Some(i) => Some(&self.entries[i].1),
            None => None,
        }
    }

    /// Whether the table is empty.
    pub fn is_empty(&self) -> (r: bool)
        ensures
            r == forall|k: Seq<char>| #[trigger] self.value(k) is None,
    {
        proof {
            if self.entries@.len() > 0 {
                let k = self.entries@[0].0@;
                lemma_key_position(self.entries@, k);
                assert(self.value(k) is Some);
            } else {
                assert forall|k: Seq<char>| #[trigger] self.value(k) is None by {
                    lemma_key_position(self.entries@, k);
                }
            }
        }
        self.entries.len() == 0
    }

    /// Sets the value of `key`, in place of any it had.
    pub fn set(&mut self, key: String, value: V)
        requires
            old(self).wf(),
        ensures
            final(self).wf(),
            final(self).value(key@) == Some(value),
            forall|k: Seq<char>| k != key@ ==> #[trigger] final(self).value(k) == old(self).value(k),
    {
        let ghost k = key@;
        let ghost v = value;
        let ghost before = self.entries@;
        match self.position(key.as_str()) {
            Some(i) => {
                proof {
                    lemma_key_position(before, k);
                }
                self.entries.set(i, (key, value));
                proof {
                    let after = self.entries@;
                    assert forall|kk: Seq<char>| #[trigger] value_in(after, kk) == (if kk == k {
                        Some(v)
                    } else {
                        value_in(before, kk)
                    }) by {
                        lemma_key_position(before, kk);
                        lemma_key_position(after, kk);
                        if kk != k {
                            match key_position(before, kk) {
                                Some(p) => {
                                    assert(p != i);
                                    assert forall|j: int| 0 <= j < p implies (#[trigger] after[j]).0@ != kk by {
                                        if j != i {
                                            assert(after[j] == before[j]);
                                        }
                                    }
                                    assert(after[p] == before[p]);
                                    lemma_key_position_at(after, kk, p);
                                },
                                None => {
                                    if let Some(q) = key_position(after, kk) {
                                        assert(q != i);
                                        assert(after[q] == before[q]);
                                    }
                                },
                            }
                        } else {
                            assert forall|j: int| 0 <= j < i implies (#[trigger] after[j]).0@ != kk by {
                                assert(after[j] == before[j]);
                            }
                            lemma_key_position_at(after, kk, i as int);
                        }
                    }
                    assert forall|a: int, b: int| 0 <= a < b < after.len() implies (#[trigger] after[a]).0@
                        != (#[trigger] after[b]).0@ by {
                        if a == i {
                            assert(before[b] == after[b]);
                        } else if b == i {
                            assert(before[a] == after[a]);
                        } else {
                            assert(before[a] == after[a] && before[b] == after[b]);
                        }
                    }
                }
            },
            None => {
                proof {
                    lemma_key_position(before, k);
                }
                self.entries.push((key, value));
                proof {
                    let after = self.entries@;
                    assert(after.drop_last() =~= before);
                    assert forall|kk: Seq<char>| #[trigger] value_in(after, kk) == (if kk == k {
                        Some(v)
                    } else {
                        value_in(before, kk)
                    }) by {
                        lemma_key_position(before, kk);
                    }
                    assert forall|a: int, b: int| 0 <= a < b < after.len() implies (#[trigger] after[a]).0@
                        != (#[trigger] after[b]).0@ by {
                        if b == before.len() {
                            assert(after[a] == before[a]);
                        } else {
                            assert(after[a] == before[a] && after[b] == before[b]);
                        }
                    }
                }
            },
        }
    }

    /// Drops the value of `key`, if any.
    pub fn remove(&mut self, key: &str)
        requires
            old(self).wf(),
        ensures
            final(self).wf(),
            final(self).value(key@) is None,
            forall|k: Seq<char>| k != key@ ==> #[trigger] final(self).value(k) == old(self).value(k),
    {
        let ghost k = key@;
        let ghost before = self.entries@;
        proof {
            lemma_key_position(before, k);
        }
        match self.position(key) {
            Some(i) => {
                self.entries.remove(i);
                proof {
                    let after = self.entries@;
                    assert forall|j: int| 0 <= j < after.len() implies #[trigger] after[j] == if j < i {
                        before[j]
                    } else {
                        before[j + 1]
                    } by {}
                    assert forall|kk: Seq<char>| #[trigger] value_in(after, kk) == (if kk == k {
                        None
                    } else {
                        value_in(before, kk)
                    }) by {
                        lemma_key_position(before, kk);
                        lemma_key_position(after, kk);
                        if kk == k {
                            if let Some(q) = key_position(after, kk) {
                                if q < i {
                                    assert(after[q] == before[q]);
                                } else {
                                    assert(after[q] == before[q + 1]);
                                    assert(before[i as int].0@ == k);
                                }
                            }
                        } else {
                            match key_position(before, kk) {
                                Some(p) => {
                                    assert(p != i);
                                    let pp = if p < i {
                                        p
                                    } else {
                                        p - 1
                                    };
                                    assert(after[pp] == before[p]);
                                    assert(key_position(after, kk) == Some(pp)) by {
                                        if let Some(q) = key_position(after, kk) {
                                            if q < pp {
                                                if q < i {
                                                    assert(after[q] == before[q]);
                                                } else {
                                                    assert(after[q] == before[q + 1]);
                                                }
                                            } else if q > pp {
                                                assert(after[pp].0@ == kk);
                                            }
                                        }
                                    }
                                },
                                None => {
                                    if let Some(q) = key_position(after, kk) {
                                        if q < i {
                                            assert(after[q] == before[q]);
                                        } else {
                                            assert(after[q] == before[q + 1]);
                                        }
                                    }
                                },
                            }
                        }
                    }
                    assert forall|a: int, b: int| 0 <= a < b < after.len() implies (#[trigger] after[a]).0@
                        != (#[trigger] after[b]).0@ by {
                        let a0 = if a < i {
                            a
                        } else {
                            a + 1
                        };
                        let b0 = if b < i {
                            b
                        } else {
                            b + 1
                        };
                        assert(after[a] == before[a0] && after[b] == before[b0]);
                    }
                }
            },
            None => {
                assert forall|kk: Seq<char>| kk != k implies #[trigger] value_in(self.entries@, kk) == value_in(
                    before,
                    kk,
                ) by {}
            },
        }
    }

}

} // verus!
