//! The storage-synchronized cell over the per-tab store, optional flavour.
//!
//! The same component as the default flavour, over the session-scoped
//! store and with the other null policy: the cell holds an optional
//! value, and a read that finds nothing usable (no entry, or text that
//! does not parse) degrades silently to absent rather than to a default.
//! Everything else — store-first writes, refused writes as no-ops,
//! event-filtered reconciliation that re-reads the store — is identical.

use crate::events::{decide_event, event_decision, EventDecision, StorageEventRecord};
use crate::listeners::ListenerRegistry;
use crate::state_handle::UseStateHandle;
use crate::store::{raw_view, MemStore, StoreKind};
use crate::value::StorageValue;
use vstd::prelude::*;

verus! {

/// What reading `raw` yields under the absent policy: a stored text that
/// parses is taken as present, and anything else degrades to absent.
pub open spec fn resolves_with_absent<T: StorageValue>(raw: Option<Seq<char>>, v: Option<T>) -> bool {
    match raw {
        Option::Some(s) => if T::decodable(s) {
            v matches Some(w) && w.encoding() == s
        } else {
            v is None
        },
        Option::None => v is None,
    }
}

/// Apply the absent read policy to a raw read result.
pub fn resolve_read_absent<T: StorageValue>(raw: Option<String>) -> (v: Option<T>)
    ensures
        resolves_with_absent::<T>(raw_view(&raw), v),
{
    match raw {
        Some(s) => T::decode(s.as_str()),
        None => None,
    }
}

/// A reactive cell mirrored to one key of the per-tab store, absent
/// whenever nothing usable is stored.
pub struct UseSessionStorageWithListenHandle<T: StorageValue> {
    key: String,
    token: u64,
    live: bool,
    inner: UseStateHandle<Option<T>>,
}

impl<T: StorageValue> UseSessionStorageWithListenHandle<T> {
    /// The key this handle owns.
    pub closed spec fn spec_key(&self) -> Seq<char> {
        self.key@
    }

    /// The reconciled value the cell holds, if any.
    pub closed spec fn spec_value(&self) -> Option<T> {
        self.inner.spec_value()
    }

    /// How many times the cell has signalled its dependents.
    pub closed spec fn spec_version(&self) -> int {
        self.inner.spec_version()
    }

    /// The token of this handle's change-listener registration.
    pub closed spec fn spec_token(&self) -> u64 {
        self.token
    }

    /// Whether the registration has not been released yet.
    pub closed spec fn spec_live(&self) -> bool {
        self.live
    }

    /// Borrow the current value.
    pub fn get(&self) -> (v: &Option<T>)
        ensures
            *v == self.spec_value(),
    {
        self.inner.get()
    }

    /// Persist `value` under the key, then mirror it in the cell as
    /// present.
    ///
    /// A refused write is a no-op from the caller's side: the cell keeps
    /// its value, no dependent is signalled, and nothing is raised.
    pub fn set(&mut self, store: &mut MemStore, value: T)
        requires
            old(store).spec_kind() == StoreKind::Session,
        ensures
            final(self).spec_key() == old(self).spec_key(),
            final(self).spec_token() == old(self).spec_token(),
            final(self).spec_live() == old(self).spec_live(),
            final(store).spec_kind() == old(store).spec_kind(),
            final(store).spec_failure() == old(store).spec_failure(),
            forall|k: Seq<char>|
                k != old(self).spec_key() ==> final(store).spec_lookup(k) == old(store).spec_lookup(k),
            old(store).spec_failure() is Some ==> *final(self) == *old(self) && final(store).spec_lookup(old(self).spec_key()) == old(store).spec_lookup(old(self).spec_key()),
            old(store).spec_failure() is None ==> {
                &&& final(self).spec_value() == Some(value)
                &&& final(self).spec_version() == old(self).spec_version() + 1
                &&& final(store).spec_lookup(old(self).spec_key()) == Some(value.encoding())
                &&& resolves_with_absent::<T>(
                    final(store).spec_lookup(old(self).spec_key()),
                    final(self).spec_value(),
                )
            },
    {
        let encoded = value.encode();
        match store.set(&self.key, &encoded) {
            Ok(()) => {
                proof {
                    value.lemma_encoding_decodable();
                }
                self.inner.set(Some(value));
            },
            Err(_) => {},
        }
    }

    /// Remove the key from the store and reset the cell to absent.
    ///
    /// Deletion cannot fail observably: a missing key deletes to the same
    /// place, and the write-failure mode does not apply.
    pub fn delete(&mut self, store: &mut MemStore)
        requires
            old(store).spec_kind() == StoreKind::Session,
        ensures
            final(self).spec_key() == old(self).spec_key(),
            final(self).spec_token() == old(self).spec_token(),
            final(self).spec_live() == old(self).spec_live(),
            final(store).spec_kind() == old(store).spec_kind(),
            final(store).spec_failure() == old(store).spec_failure(),
            final(store).spec_lookup(old(self).spec_key()) is None,
            forall|k: Seq<char>|
                k != old(self).spec_key() ==> final(store).spec_lookup(k) == old(store).spec_lookup(k),
            final(self).spec_value() is None,
            final(self).spec_version() == old(self).spec_version() + 1,
    {
        store.delete(&self.key);
        self.inner.set(None);
    }

    /// Reconcile one storage-change event.
    ///
    /// Filtered by key and store identity; only a match on both re-reads
    /// the store and replaces the cell with what it holds now, resolved
    /// with the absent policy — never with the event's own payload.  The
    /// returned decision is the caller's trace duty.
    pub fn on_storage_event(&mut self, store: &MemStore, ev: &StorageEventRecord) -> (d:
        EventDecision)
        requires
            store.spec_kind() == StoreKind::Session,
        ensures
            d == event_decision(old(self).spec_key(), StoreKind::Session, ev),
            final(self).spec_key() == old(self).spec_key(),
            final(self).spec_token() == old(self).spec_token(),
            final(self).spec_live() == old(self).spec_live(),
            d is Reconcile ==> {
                &&& resolves_with_absent::<T>(
                    store.spec_lookup(old(self).spec_key()),
                    final(self).spec_value(),
                )
                &&& final(self).spec_version() == old(self).spec_version() + 1
            },
            !(d is Reconcile) ==> *final(self) == *old(self),
    {
        let d = decide_event(&self.key, StoreKind::Session, ev);
        match d {
            EventDecision::Reconcile => {
                let v: Option<T> = resolve_read_absent::<T>(store.get(&self.key));
                self.inner.set(v);
            },
            _ => {},
        }
        d
    }

    /// The token of this handle's change-listener registration.
    pub fn token(&self) -> (t: u64)
        ensures
            t == self.spec_token(),
    {
        self.token
    }

    /// Release this handle's change-listener registration.
    ///
    /// Owed exactly once, when the handle's owning scope ends, on every
    /// exit path: a registration left behind would keep a callback alive
    /// over discarded state.  The handle keeps its value; only the
    /// registration goes.
    pub fn unsubscribe(&mut self, listeners: &mut ListenerRegistry)
        requires
            old(self).spec_live(),
            old(listeners).wf(),
        ensures
            final(listeners).wf(),
            final(listeners).spec_next() == old(listeners).spec_next(),
            forall|x: u64|
                final(listeners).spec_tokens().contains(x) <==> (old(listeners).spec_tokens().contains(x) && x != old(self).spec_token()),
            !final(self).spec_live(),
            final(self).spec_token() == old(self).spec_token(),
            final(self).spec_key() == old(self).spec_key(),
            final(self).spec_value() == old(self).spec_value(),
            final(self).spec_version() == old(self).spec_version(),
    {
        listeners.unregister(self.token);
        self.live = false;
    }
}

/// Handles compare by the values they currently observe: both absent, or
/// both present and writing out to the same stored text.
impl<T: StorageValue> PartialEq for UseSessionStorageWithListenHandle<T> {
    fn eq(&self, other: &Self) -> (r: bool) {
        match (self.inner.get(), other.inner.get()) {
            (Some(a), Some(b)) => a.encode() == b.encode(),
            (None, None) => true,
            _ => false,
        }
    }
}

impl<T: StorageValue> vstd::std_specs::cmp::PartialEqSpecImpl for UseSessionStorageWithListenHandle<T> {
    open spec fn obeys_eq_spec() -> bool {
        true
    }

    open spec fn eq_spec(&self, other: &Self) -> bool {
        match (self.spec_value(), other.spec_value()) {
            (Some(a), Some(b)) => a.encoding() == b.encoding(),
            (None, None) => true,
            _ => false,
        }
    }
}

/// Build a handle over `key`: read what the store holds now, resolve it
/// with the absent policy, and start a fresh cell on it.
pub fn use_session_storage_with_listen<T: StorageValue>(
    key: String,
    store: &MemStore,
    listeners: &mut ListenerRegistry,
) -> (h: UseSessionStorageWithListenHandle<T>)
    requires
        store.spec_kind() == StoreKind::Session,
        old(listeners).wf(),
        old(listeners).spec_next() < u64::MAX,
    ensures
        h.spec_key() == key@,
        resolves_with_absent::<T>(store.spec_lookup(key@), h.spec_value()),
        h.spec_version() == 0,
        h.spec_live(),
        !old(listeners).spec_tokens().contains(h.spec_token()),
        final(listeners).wf(),
        final(listeners).spec_tokens() == old(listeners).spec_tokens().push(h.spec_token()),
{
    let raw = store.get(&key);
    let v: Option<T> = resolve_read_absent::<T>(raw);
    let token = listeners.subscribe();
    UseSessionStorageWithListenHandle { key, token, live: true, inner: UseStateHandle::new(v) }
}

} // verus!
