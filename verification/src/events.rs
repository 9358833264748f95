//! Storage-change events and the filtering that attributes them.
//!
//! The global event collaborator delivers one record to every listener in
//! the current execution context whenever any key changes in any store.
//! A container reacts only to its own key in its own store; everything
//! else is dropped, a matching key in the wrong store loudly, the rest
//! silently.  The decision is a pure function of the record, so the glue
//! that receives real events and the tests that fake them share it.

use crate::store::StoreKind;
use vstd::prelude::*;

verus! {

/// What the event collaborator hands every listener: the key that
/// changed (absent for a whole-store clear), the raw new value as the
/// event carries it, and the identity of the store it happened in, when
/// known.
pub struct StorageEventRecord {
    pub key: Option<String>,
    pub new_value: Option<String>,
    pub store: Option<StoreKind>,
}

/// What a container does with one storage-change event.
#[derive(Clone, Copy, PartialEq, Eq, Structural, Debug)]
pub enum EventDecision {
    /// No key (a whole-store clear), or some other container's key:
    /// nothing to do.
    Ignored,
    /// Our key's name, but not our store: a naming collision across store
    /// kinds. The event is dropped and a warning trace is owed.
    CrossStoreMismatch,
    /// Our key in our store: re-read the backing store and take what it
    /// holds now. An informational trace is owed.
    Reconcile,
}

/// The filtering rule, in the order the component design gives it: an
/// absent key is ignored, a foreign key is ignored, a foreign store is a
/// collision, and only the remainder is reconciled.
pub open spec fn event_decision(key: Seq<char>, kind: StoreKind, ev: &StorageEventRecord) -> EventDecision {
    match ev.key {
        Option::None => EventDecision::Ignored,
        Option::Some(k) => if k@ != key {
            EventDecision::Ignored
        } else if ev.store != Some(kind) {
            EventDecision::CrossStoreMismatch
        } else {
            EventDecision::Reconcile
        },
    }
}

/// Decide what to do with `ev`, for a container watching `key` in the
/// store of kind `kind`.
pub fn decide_event(key: &String, kind: StoreKind, ev: &StorageEventRecord) -> (d: EventDecision)
    ensures
        d == event_decision(key@, kind, ev),
{
    match &ev.key {
        None => EventDecision::Ignored,
        Some(k) => {
            if !(*k == *key) {
                EventDecision::Ignored
            } else {
                match ev.store {
                    Some(s) => if s == kind {
                        EventDecision::Reconcile
                    } else {
                        EventDecision::CrossStoreMismatch
                    },
                    None => EventDecision::CrossStoreMismatch,
                }
            }
        },
    }
}

/// Key isolation: an event naming any other key is ignored outright,
/// whatever store it reports.
pub proof fn lemma_key_isolation(key: Seq<char>, kind: StoreKind, ev: &StorageEventRecord)
    requires
        ev.key matches Some(k) && k@ != key,
    ensures
        event_decision(key, kind, ev) == EventDecision::Ignored,
{
}

/// A whole-store clear (an event without a key) is ignored outright.
pub proof fn lemma_clear_ignored(key: Seq<char>, kind: StoreKind, ev: &StorageEventRecord)
    requires
        ev.key is None,
    ensures
        event_decision(key, kind, ev) == EventDecision::Ignored,
{
}

/// Store-kind isolation: even our own key's name, reported for a store
/// other than ours, is never applied.
pub proof fn lemma_store_kind_isolation(key: Seq<char>, kind: StoreKind, ev: &StorageEventRecord)
    requires
        ev.key matches Some(k) && k@ == key,
        ev.store != Some(kind),
    ensures
        event_decision(key, kind, ev) == EventDecision::CrossStoreMismatch,
{
}

} // verus!
