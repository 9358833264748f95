//! An in-memory model of the key/value backing store.
//!
//! The real stores are origin-scoped browser services reached only through
//! unverified glue; this module gives the library a faithful stand-in with
//! the same interface contract: get, set and delete by string key, a store
//! identity, and writes that may be refused (quota, service unavailable).
//! Containers are verified against it, and a test or driver can inject
//! write failures and out-of-band writes, playing the part of another
//! execution context.

use vstd::prelude::*;

verus! {

/// Which of the two backing stores a key lives in: the one persisted
/// across sessions and shared by tabs, or the per-tab one.
#[derive(Clone, Copy, PartialEq, Eq, Structural, Debug)]
pub enum StoreKind {
    Local,
    Session,
}

/// Why a write was refused.
#[derive(Clone, Copy, PartialEq, Eq, Structural, Debug)]
pub enum StoreError {
    QuotaExceeded,
    Unavailable,
}

/// The text most recently written under `k`, if any.
///
/// Entries are kept in write order, so the match nearest the end wins.
pub open spec fn lookup(entries: Seq<(String, String)>, k: Seq<char>) -> Option<Seq<char>>
    decreases entries.len(),
{
    if entries.len() == 0 {
        None
    } else if entries.last().0@ == k {
        Some(entries.last().1@)
    } else {
        lookup(entries.drop_last(), k)
    }
}

proof fn lemma_lookup_push(entries: Seq<(String, String)>, p: (String, String), k: Seq<char>)
    ensures
        lookup(entries.push(p), k) == if p.0@ == k {
            Some(p.1@)
        } else {
            lookup(entries, k)
        },
{
    assert(entries.push(p).last() == p);
    assert(entries.push(p).drop_last() =~= entries);
}

proof fn lemma_lookup_take_step(entries: Seq<(String, String)>, i: int, k: Seq<char>)
    requires
        0 <= i < entries.len(),
    ensures
        lookup(entries.take(i + 1), k) == if entries[i].0@ == k {
            Some(entries[i].1@)
        } else {
            lookup(entries.take(i), k)
        },
{
    assert(entries.take(i + 1).last() == entries[i]);
    assert(entries.take(i + 1).drop_last() =~= entries.take(i));
}

/// The view-level shape of a raw read result, as `get` hands it out.
pub open spec fn raw_view(raw: &Option<String>) -> Option<Seq<char>> {
    match raw {
        Option::Some(s) => Some(s@),
        Option::None => None,
    }
}

/// An in-memory backing store with an identity and an injectable
/// write-failure mode.
pub struct MemStore {
    kind: StoreKind,
    failure: Option<StoreError>,
    entries: Vec<(String, String)>,
}

impl MemStore {
    /// Which store this is, fixed at construction.
    pub closed spec fn spec_kind(&self) -> StoreKind {
        self.kind
    }

    /// The failure every write currently runs into, if any.
    pub closed spec fn spec_failure(&self) -> Option<StoreError> {
        self.failure
    }

    /// The text stored under `k`, if any.
    pub closed spec fn spec_lookup(&self, k: Seq<char>) -> Option<Seq<char>> {
        lookup(self.entries@, k)
    }

    /// An empty, healthy store of the given kind.
    pub fn new(kind: StoreKind) -> (s: Self)
        ensures
            s.spec_kind() == kind,
            s.spec_failure() is None,
            forall|k: Seq<char>| s.spec_lookup(k) is None,
    {
        let s = MemStore { kind, failure: None, entries: Vec::new() };
        proof {
            assert(forall|k: Seq<char>| lookup(s.entries@, k) is None);
        }
        s
    }

    /// The store's identity, as the change-event collaborator reports it.
    pub fn kind(&self) -> (k: StoreKind)
        ensures
            k == self.spec_kind(),
    {
        self.kind
    }

    /// Failure injection: make every following write fail with `failure`
    /// (or succeed again, with `None`). Stored entries are untouched.
    pub fn set_failure(&mut self, failure: Option<StoreError>)
        ensures
            final(self).spec_kind() == old(self).spec_kind(),
            final(self).spec_failure() == failure,
            forall|k: Seq<char>| final(self).spec_lookup(k) == old(self).spec_lookup(k),
    {
        self.failure = failure;
    }

    /// Read the text stored under `key`.
    pub fn get(&self, key: &String) -> (r: Option<String>)
        ensures
            match r {
                Some(v) => self.spec_lookup(key@) == Some(v@),
                None => self.spec_lookup(key@) is None,
            },
    {
        let mut i: usize = self.entries.len();
        proof {
            assert(self.entries@.take(i as int) =~= self.entries@);
        }
        while i > 0
            invariant
                i <= self.entries.len(),
                lookup(self.entries@, key@) == lookup(self.entries@.take(i as int), key@),
            decreases i,
        {
            i = i - 1;
            proof {
                lemma_lookup_take_step(self.entries@, i as int, key@);
            }
            if self.entries[i].0 == *key {
                return Some(self.entries[i].1.clone());
            }
        }
        None
    }

    /// Write `value` under `key`. Refused, with nothing changed, whenever
    /// a failure mode is in force; otherwise the entry is replaced.
    pub fn set(&mut self, key: &String, value: &String) -> (r: Result<(), StoreError>)
        ensures
            final(self).spec_kind() == old(self).spec_kind(),
            final(self).spec_failure() == old(self).spec_failure(),
            match old(self).spec_failure() {
                Some(e) => r == Err::<(), StoreError>(e) && forall|k: Seq<char>|
                    final(self).spec_lookup(k) == old(self).spec_lookup(k),
                None => r == Ok::<(), StoreError>(()) && final(self).spec_lookup(key@) == Some(
                    value@,
                ) && forall|k: Seq<char>|
                    k != key@ ==> final(self).spec_lookup(k) == old(self).spec_lookup(k),
            },
    {
        match self.failure {
            Some(e) => Err(e),
            None => {
                let pair = (key.clone(), value.clone());
                proof {
                    assert(pair.0@ == key@);
                    assert(pair.1@ == value@);
                }
                self.entries.push(pair);
                proof {
                    assert forall|k: Seq<char>|
                        lookup(self.entries@, k) == if k == key@ {
                            Some(value@)
                        } else {
                            lookup(old(self).entries@, k)
                        } by {
                        lemma_lookup_push(old(self).entries@, self.entries@.last(), k);
                    }
                }
                Ok(())
            },
        }
    }

    /// Remove whatever is stored under `key`. Deleting an absent key is
    /// not an error, and deletion never fails.
    pub fn delete(&mut self, key: &String)
        ensures
            final(self).spec_kind() == old(self).spec_kind(),
            final(self).spec_failure() == old(self).spec_failure(),
            final(self).spec_lookup(key@) is None,
            forall|k: Seq<char>|
                k != key@ ==> final(self).spec_lookup(k) == old(self).spec_lookup(k),
    {
        let n = self.entries.len();
        let mut kept: Vec<(String, String)> = Vec::new();
        let mut i: usize = 0;
        proof {
            assert(self.entries@.take(0) =~= Seq::<(String, String)>::empty());
        }
        while i < n
            invariant
                i <= n,
                n == self.entries.len(),
                lookup(kept@, key@) is None,
                forall|k: Seq<char>|
                    k != key@ ==> lookup(kept@, k) == lookup(
                        self.entries@.take(i as int),
                        k,
                    ),
            decreases n - i,
        {
            proof {
                lemma_lookup_take_step(self.entries@, i as int, key@);
            }
            if !(self.entries[i].0 == *key) {
                let ks = self.entries[i].0.clone();
                let vs = self.entries[i].1.clone();
                let ghost kept_before = kept@;
                kept.push((ks, vs));
                proof {
                    assert forall|k: Seq<char>|
                        lookup(kept@, k) == if k == self.entries@[i as int].0@ {
                            Some(self.entries@[i as int].1@)
                        } else {
                            lookup(kept_before, k)
                        } by {
                        lemma_lookup_push(kept_before, kept@.last(), k);
                    }
                    assert forall|k: Seq<char>|
                        k != key@ implies lookup(kept@, k) == lookup(
                        self.entries@.take(i as int + 1),
                        k,
                    ) by {
                        lemma_lookup_take_step(self.entries@, i as int, k);
                    }
                }
            } else {
                proof {
                    assert forall|k: Seq<char>|
                        k != key@ implies lookup(kept@, k) == lookup(
                        self.entries@.take(i as int + 1),
                        k,
                    ) by {
                        lemma_lookup_take_step(self.entries@, i as int, k);
                    }
                }
            }
            i = i + 1;
        }
        proof {
            assert(self.entries@.take(n as int) =~= self.entries@);
        }
        self.entries = kept;
    }
}

} // verus!
