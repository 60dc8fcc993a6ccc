//! Host keys trusted for one connection only, kept per profile until the
//! connection that uses them takes them, and put back when it fails.
use vstd::prelude::*;
use crate::host_keys::copy_host_key;
use crate::profile::TrustedHostKey;
use crate::text::str_eq;

verus! {

/// The keys that the entries hold for a profile (none when absent).
pub open spec fn keys_in(es: Seq<(String, Vec<TrustedHostKey>)>, id: Seq<char>) -> Seq<TrustedHostKey> {
    if exists|i: int| 0 <= i < es.len() && (#[trigger] es[i]).0@ == id {
        es[choose|i: int| 0 <= i < es.len() && (#[trigger] es[i]).0@ == id].1@
    } else {
        seq![]
    }
}

/// No profile occurs twice among the entries.
pub open spec fn profiles_unique(es: Seq<(String, Vec<TrustedHostKey>)>) -> bool {
    forall|i: int, j: int|
        0 <= i < es.len() && 0 <= j < es.len() && (#[trigger] es[i]).0@ == (#[trigger] es[j]).0@
            ==> i == j
}

pub proof fn lemma_keys_at(es: Seq<(String, Vec<TrustedHostKey>)>, i: int)
    requires
        profiles_unique(es),
        0 <= i < es.len(),
    ensures
        keys_in(es, es[i].0@) == es[i].1@,
{
    assert(es[i].0@ == es[i].0@);
}

/// Some key of `keys` has the id.
pub open spec fn has_key_id(keys: Seq<TrustedHostKey>, id: Seq<char>) -> bool {
    exists|j: int| 0 <= j < keys.len() && (#[trigger] keys[j]).id@ == id
}

/// `existing` with each of `keys` appended, in order, unless a key with its
/// id is already there.
pub open spec fn restored(existing: Seq<TrustedHostKey>, keys: Seq<TrustedHostKey>) -> Seq<TrustedHostKey>
    decreases keys.len(),
{
    if keys.len() == 0 {
        existing
    } else {
        let r = restored(existing, keys.drop_last());
        if has_key_id(r, keys.last().id@) {
            r
        } else {
            r.push(keys.last())
        }
    }
}

/// No two keys share an id.
pub open spec fn key_ids_unique(keys: Seq<TrustedHostKey>) -> bool {
    forall|i: int, j: int| 0 <= i < keys.len() && 0 <= j < keys.len() && (#[trigger] keys[i]).id@ == (#[trigger] keys[j]).id@ ==> i == j
}

/// The one-time host keys of all profiles.
#[derive(Debug)]
pub struct OneTimeHostKeys {
    entries: Vec<(String, Vec<TrustedHostKey>)>,
}

impl OneTimeHostKeys {
    /// The one-time keys of a profile, in the order they were added.
    pub closed spec fn keys_of(&self, profile_id: Seq<char>) -> Seq<TrustedHostKey> {
        keys_in(self.entries@, profile_id)
    }

    /// Each profile has at most one entry.
    pub closed spec fn wf(&self) -> bool {
        profiles_unique(self.entries@)
    }

    /// No one-time keys.
    pub fn new() -> (r: Self)
        ensures
            r.wf(),
            forall|id: Seq<char>| r.keys_of(id) == Seq::<TrustedHostKey>::empty(),
    {
        OneTimeHostKeys { entries: Vec::new() }
    }

    fn find(&self, profile_id: &str) -> (r: Option<usize>)
        ensures
            match r {
                Some(i) => i < self.entries@.len() && self.entries@[i as int].0@ == profile_id@,
                None => forall|i: int| 0 <= i < self.entries@.len() ==> (#[trigger] self.entries@[i]).0@ != profile_id@,
            },
    {
        let mut i: usize = 0;
        while i < self.entries.len()
            invariant
                i <= self.entries@.len(),
                forall|k: int| 0 <= k < i ==> (#[trigger] self.entries@[k]).0@ != profile_id@,
            decreases self.entries@.len() - i,
        {
            if str_eq(self.entries[i].0.as_str(), profile_id) {
                return Some(i);
            }
            i = i + 1;
        }
        None
    }

    /// Gives the profile an entry (empty if it had none) and returns its
    /// position.
    fn entry(&mut self, profile_id: &str) -> (r: usize)
        requires
            old(self).wf(),
        ensures
            final(self).wf(),
            r < final(self).entries@.len(),
            final(self).entries@[r as int].0@ == profile_id@,
            forall|id: Seq<char>| #[trigger] final(self).keys_of(id) == old(self).keys_of(id),
    {
        match self.find(profile_id) {
            Some(i) => i,
            None => {
                let ghost old_es = self.entries@;
                self.entries.push((String::from_str(profile_id), Vec::new()));
                proof {
                    let es = self.entries@;
                    assert forall|id: Seq<char>| #[trigger] keys_in(es, id) == keys_in(old_es, id) by {
                        if id == profile_id@ {
                            lemma_keys_at(es, es.len() - 1);
                        } else if exists|k: int| 0 <= k < es.len() && (#[trigger] es[k]).0@ == id {
                            let k = choose|k: int| 0 <= k < es.len() && (#[trigger] es[k]).0@ == id;
                            lemma_keys_at(es, k);
                            assert(es[k] == old_es[k]);
                            lemma_keys_at(old_es, k);
                        } else {
                            assert forall|k: int| 0 <= k < old_es.len() implies (#[trigger] old_es[k]).0@ != id by {
                                assert(es[k] == old_es[k]);
                            }
                        }
                    }
                }
                self.entries.len() - 1
            },
        }
    }

    proof fn lemma_update_at(
        old_es: Seq<(String, Vec<TrustedHostKey>)>,
        es: Seq<(String, Vec<TrustedHostKey>)>,
        i: int,
    )
        requires
            profiles_unique(old_es),
            0 <= i < old_es.len(),
            es.len() == old_es.len(),
            forall|k: int| 0 <= k < es.len() ==> (#[trigger] es[k]).0@ == old_es[k].0@,
            forall|k: int| 0 <= k < es.len() && k != i ==> #[trigger] es[k] == old_es[k],
        ensures
            profiles_unique(es),
            keys_in(es, old_es[i].0@) == es[i].1@,
            forall|id: Seq<char>| id != old_es[i].0@ ==> #[trigger] keys_in(es, id) == keys_in(old_es, id),
    {
        lemma_keys_at(es, i);
        assert forall|id: Seq<char>| id != old_es[i].0@ implies #[trigger] keys_in(es, id) == keys_in(old_es, id) by {
            if exists|k: int| 0 <= k < es.len() && (#[trigger] es[k]).0@ == id {
                let k = choose|k: int| 0 <= k < es.len() && (#[trigger] es[k]).0@ == id;
                lemma_keys_at(es, k);
                lemma_keys_at(old_es, k);
            } else {
                assert forall|k: int| 0 <= k < old_es.len() implies (#[trigger] old_es[k]).0@ != id by {
                    assert(es[k].0@ == old_es[k].0@);
                }
            }
        }
    }

    /// Adds a key trusted for one connection of the profile.
    pub fn remember_one_time_host_key_in(&mut self, profile_id: &str, key: TrustedHostKey)
        requires
            old(self).wf(),
        ensures
            final(self).wf(),
            final(self).keys_of(profile_id@) == old(self).keys_of(profile_id@).push(key),
            forall|id: Seq<char>| id != profile_id@ ==> #[trigger] final(self).keys_of(id) == old(self).keys_of(id),
    {
        let i = self.entry(profile_id);
        let ghost mid = self.entries@;
        let ghost mid_self = *self;
        proof {
            lemma_keys_at(mid, i as int);
            assert(mid_self.keys_of(profile_id@) == old(self).keys_of(profile_id@));
        }
        self.entries[i].1.push(key);
        proof {
            Self::lemma_update_at(mid, self.entries@, i as int);
            assert forall|id: Seq<char>| id != profile_id@ implies #[trigger] self.keys_of(id) == old(self).keys_of(id) by {
                assert(mid_self.keys_of(id) == old(self).keys_of(id));
            }
        }
    }

    /// Removes and returns the one-time keys of the profile.
    pub fn take_one_time_host_keys_from(&mut self, profile_id: &str) -> (r: Vec<TrustedHostKey>)
        requires
            old(self).wf(),
        ensures
            final(self).wf(),
            r@ == old(self).keys_of(profile_id@),
            final(self).keys_of(profile_id@) == Seq::<TrustedHostKey>::empty(),
            forall|id: Seq<char>| id != profile_id@ ==> #[trigger] final(self).keys_of(id) == old(self).keys_of(id),
    {
        match self.find(profile_id) {
            Some(i) => {
                let ghost old_es = self.entries@;
                proof {
                    lemma_keys_at(old_es, i as int);
                }
                let (_, keys) = self.entries.remove(i);
                proof {
                    let es = self.entries@;
                    assert forall|k: int| 0 <= k < es.len() implies (#[trigger] es[k]).0@ != profile_id@ by {
                        if k < i {
                            assert(es[k] == old_es[k]);
                        } else {
                            assert(es[k] == old_es[k + 1]);
                        }
                    }
                    assert forall|id: Seq<char>| id != profile_id@ implies #[trigger] keys_in(es, id) == keys_in(old_es, id) by {
                        if exists|k: int| 0 <= k < es.len() && (#[trigger] es[k]).0@ == id {
                            let k = choose|k: int| 0 <= k < es.len() && (#[trigger] es[k]).0@ == id;
                            lemma_keys_at(es, k);
                            if k < i {
                                assert(es[k] == old_es[k]);
                                lemma_keys_at(old_es, k);
                            } else {
                                assert(es[k] == old_es[k + 1]);
                                lemma_keys_at(old_es, k + 1);
                            }
                        } else {
                            assert forall|k: int| 0 <= k < old_es.len() implies (#[trigger] old_es[k]).0@ != id by {
                                if k < i {
                                    assert(es[k] == old_es[k]);
                                } else if k > i {
                                    assert(es[k - 1] == old_es[k]);
                                }
                            }
                        }
                    }
                }
                keys
            },
            None => Vec::new(),
        }
    }

    /// A copy of the one-time keys of the profile.
    pub fn one_time_host_keys_snapshot_from(&self, profile_id: &str) -> (r: Vec<TrustedHostKey>)
        requires
            self.wf(),
        ensures
            r@ == self.keys_of(profile_id@),
    {
        match self.find(profile_id) {
            Some(i) => {
                proof {
                    lemma_keys_at(self.entries@, i as int);
                }
                crate::host_keys::copy_keys(&self.entries[i].1)
            },
            None => Vec::new(),
        }
    }

    /// Puts keys taken for a connection back, skipping those whose id the
    /// profile already has.
    pub fn restore_one_time_host_keys_in(&mut self, profile_id: &str, keys: Vec<TrustedHostKey>)
        requires
            old(self).wf(),
        ensures
            final(self).wf(),
            final(self).keys_of(profile_id@) == restored(old(self).keys_of(profile_id@), keys@),
            forall|id: Seq<char>| id != profile_id@ ==> #[trigger] final(self).keys_of(id) == old(self).keys_of(id),
    {
        if keys.len() == 0 {
            return;
        }
        let i = self.entry(profile_id);
        let ghost mid = self.entries@;
        let ghost mid_self = *self;
        let ghost start = mid[i as int].1@;
        proof {
            lemma_keys_at(mid, i as int);
            assert(mid_self.keys_of(profile_id@) == old(self).keys_of(profile_id@));
        }
        let mut n: usize = 0;
        while n < keys.len()
            invariant
                n <= keys@.len(),
                i < self.entries@.len(),
                self.entries@.len() == mid.len(),
                profiles_unique(mid),
                forall|k: int| 0 <= k < mid.len() ==> (#[trigger] self.entries@[k]).0@ == mid[k].0@,
                forall|k: int| 0 <= k < mid.len() && k != i ==> #[trigger] self.entries@[k] == mid[k],
                self.entries@[i as int].1@ == restored(start, keys@.take(n as int)),
            decreases keys@.len() - n,
        {
            let key = &keys[n];
            let mut present = false;
            let mut j: usize = 0;
            while j < self.entries[i].1.len()
                invariant
                    i < self.entries@.len(),
                    j <= self.entries@[i as int].1@.len(),
                    present == exists|m: int| 0 <= m < j && (#[trigger] self.entries@[i as int].1@[m]).id@ == key.id@,
                decreases self.entries@[i as int].1@.len() - j,
            {
                if str_eq(self.entries[i].1[j].id.as_str(), key.id.as_str()) {
                    present = true;
                }
                j = j + 1;
            }
            proof {
                assert(keys@.take(n + 1).drop_last() =~= keys@.take(n as int));
                assert(keys@.take(n + 1).last() == keys@[n as int]);
            }
            if !present {
                let copy = copy_host_key(key);
                self.entries[i].1.push(copy);
            }
            n = n + 1;
        }
        proof {
            assert(keys@.take(keys@.len() as int) =~= keys@);
            Self::lemma_update_at(mid, self.entries@, i as int);
            assert forall|id: Seq<char>| id != profile_id@ implies #[trigger] self.keys_of(id) == old(self).keys_of(id) by {
                assert(mid_self.keys_of(id) == old(self).keys_of(id));
            }
        }
    }
}

pub proof fn lemma_restored_distinct(keys: Seq<TrustedHostKey>)
    requires
        key_ids_unique(keys),
    ensures
        restored(seq![], keys) == keys,
    decreases keys.len(),
{
    if keys.len() > 0 {
        let front = keys.drop_last();
        assert forall|i: int, j: int| 0 <= i < front.len() && 0 <= j < front.len() && (#[trigger] front[i]).id@ == (#[trigger] front[j]).id@ implies i == j by {
            assert(front[i] == keys[i]);
            assert(front[j] == keys[j]);
        }
        lemma_restored_distinct(front);
        if has_key_id(front, keys.last().id@) {
            let j = choose|j: int| 0 <= j < front.len() && (#[trigger] front[j]).id@ == keys.last().id@;
            assert(front[j] == keys[j]);
        }
        assert(front.push(keys.last()) =~= keys);
    }
}

/// Keys taken for a connection and put back unused are what the profile
/// had, when their ids are distinct.
pub proof fn lemma_take_then_restore(
    a: OneTimeHostKeys,
    b: OneTimeHostKeys,
    c: OneTimeHostKeys,
    profile_id: Seq<char>,
    taken: Seq<TrustedHostKey>,
)
    requires
        key_ids_unique(a.keys_of(profile_id)),
        taken == a.keys_of(profile_id),
        b.keys_of(profile_id) == Seq::<TrustedHostKey>::empty(),
        forall|id: Seq<char>| id != profile_id ==> #[trigger] b.keys_of(id) == a.keys_of(id),
        c.keys_of(profile_id) == restored(b.keys_of(profile_id), taken),
        forall|id: Seq<char>| id != profile_id ==> #[trigger] c.keys_of(id) == b.keys_of(id),
    ensures
        forall|id: Seq<char>| #[trigger] c.keys_of(id) == a.keys_of(id),
{
    lemma_restored_distinct(taken);
    assert forall|id: Seq<char>| #[trigger] c.keys_of(id) == a.keys_of(id) by {
        if id != profile_id {
            assert(c.keys_of(id) == b.keys_of(id));
        }
    }
}

} // verus!
