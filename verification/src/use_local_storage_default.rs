//! The storage-synchronized cell over the persisted store, default flavour.
//!
//! One handle owns one key in the cross-session store.  Its cell always
//! holds a value: a read that finds nothing usable (no entry, or text
//! that does not parse) degrades silently to the payload type's default.
//! Local writes go store first, cell second, so a refused write leaves
//! the cell untouched; changes made by other execution contexts arrive as
//! storage-change events and are reconciled by re-reading the store, so a
//! corrupt value degrades on reconciliation exactly as it does at
//! construction.

use crate::events::{decide_event, event_decision, EventDecision, StorageEventRecord};
use crate::listeners::ListenerRegistry;
use crate::state_handle::UseStateHandle;
use crate::store::{raw_view, MemStore, StoreKind};
use crate::value::StorageValue;
use vstd::prelude::*;

verus! {

/// What reading `raw` yields under the default-substitution policy: a
/// stored text that parses is taken as it stands, and anything else
/// degrades to the default.
pub open spec fn resolves_with_default<T: StorageValue>(raw: Option<Seq<char>>, v: T) -> bool {
    match raw {
        Option::Some(s) => if T::decodable(s) {
            v.encoding() == s
        } else {
            v.is_default()
        },
        Option::None => v.is_default(),
    }
}

/// Apply the default-substitution read policy to a raw read result.
///
/// This is the whole read path of the default flavour in one place:
/// construction, and reconciliation after an external change, both come
/// here, as does glue that reads a real store.
pub fn resolve_read_default<T: StorageValue>(raw: Option<String>) -> (v: T)
    ensures
        resolves_with_default::<T>(raw_view(&raw), v),
{
    match raw {
        Some(s) => match T::decode(s.as_str()) {
            Some(v) => v,
            None => T::default_value(),
        },
        None => T::default_value(),
    }
}

/// A reactive cell mirrored to one key of the persisted store, holding
/// the type's default whenever nothing usable is stored.
pub struct UseLocalStorageDefaultHandle<T: StorageValue> {
    key: String,
    token: u64,
    live: bool,
    inner: UseStateHandle<T>,
}

impl<T: StorageValue> UseLocalStorageDefaultHandle<T> {
    /// The key this handle owns.
    pub closed spec fn spec_key(&self) -> Seq<char> {
        self.key@
    }

    /// The reconciled value the cell holds.
    pub closed spec fn spec_value(&self) -> T {
        self.inner.spec_value()
    }

    /// How many times the cell has signalled its dependents.
    pub closed spec fn spec_version(&self) -> int {
        self.inner.spec_version()
    }

    /// The token of this handle's change-listener registration.
    pub closed spec fn spec_token(&self) -> u64 {
        self.token
    }

    /// Whether the registration has not been released yet.
    pub closed spec fn spec_live(&self) -> bool {
        self.live
    }

    /// Borrow the current value.
    pub fn get(&self) -> (v: &T)
        ensures
            *v == self.spec_value(),
    {
        self.inner.get()
    }

    /// Persist `value` under the key, then mirror it in the cell.
    ///
    /// A refused write is a no-op from the caller's side: the cell keeps
    /// its value, no dependent is signalled, and nothing is raised.  On
    /// success the cell and the store agree at once, and the caller is
    /// owed an informational trace.
    pub fn set(&mut self, store: &mut MemStore, value: T)
        requires
            old(store).spec_kind() == StoreKind::Local,
        ensures
            final(self).spec_key() == old(self).spec_key(),
            final(self).spec_token() == old(self).spec_token(),
            final(self).spec_live() == old(self).spec_live(),
            final(store).spec_kind() == old(store).spec_kind(),
            final(store).spec_failure() == old(store).spec_failure(),
            forall|k: Seq<char>|
                k != old(self).spec_key() ==> final(store).spec_lookup(k) == old(store).spec_lookup(k),
            old(store).spec_failure() is Some ==> *final(self) == *old(self) && final(store).spec_lookup(old(self).spec_key()) == old(store).spec_lookup(old(self).spec_key()),
            old(store).spec_failure() is None ==> {
                &&& final(self).spec_value() == value
                &&& final(self).spec_version() == old(self).spec_version() + 1
                &&& final(store).spec_lookup(old(self).spec_key()) == Some(value.encoding())
                &&& resolves_with_default::<T>(
                    final(store).spec_lookup(old(self).spec_key()),
                    final(self).spec_value(),
                )
            },
    {
        let encoded = value.encode();
        match store.set(&self.key, &encoded) {
            Ok(()) => {
                proof {
                    value.lemma_encoding_decodable();
                }
                self.inner.set(value);
            },
            Err(_) => {},
        }
    }

    /// Remove the key from the store and reset the cell to the default.
    ///
    /// Deletion cannot fail observably: a missing key deletes to the same
    /// place, and the write-failure mode does not apply.
    pub fn delete(&mut self, store: &mut MemStore)
        requires
            old(store).spec_kind() == StoreKind::Local,
        ensures
            final(self).spec_key() == old(self).spec_key(),
            final(self).spec_token() == old(self).spec_token(),
            final(self).spec_live() == old(self).spec_live(),
            final(store).spec_kind() == old(store).spec_kind(),
            final(store).spec_failure() == old(store).spec_failure(),
            final(store).spec_lookup(old(self).spec_key()) is None,
            forall|k: Seq<char>|
                k != old(self).spec_key() ==> final(store).spec_lookup(k) == old(store).spec_lookup(k),
            final(self).spec_value().is_default(),
            final(self).spec_version() == old(self).spec_version() + 1,
    {
        store.delete(&self.key);
        self.inner.set(T::default_value());
    }

    /// Reconcile one storage-change event.
    ///
    /// The event is filtered by key and by store identity; only a match
    /// on both re-reads the store and replaces the cell with what it
    /// holds now — never with the event's own payload, so a partial or
    /// corrupt value degrades exactly as at construction.  The cell is
    /// replaced even when the fresh value equals the old one; equality
    /// suppression is the cell's consumer's business.  The returned
    /// decision is the caller's trace duty: a collision is owed a
    /// warning, a reconciliation an informational record.
    pub fn on_storage_event(&mut self, store: &MemStore, ev: &StorageEventRecord) -> (d:
        EventDecision)
        requires
            store.spec_kind() == StoreKind::Local,
        ensures
            d == event_decision(old(self).spec_key(), StoreKind::Local, ev),
            final(self).spec_key() == old(self).spec_key(),
            final(self).spec_token() == old(self).spec_token(),
            final(self).spec_live() == old(self).spec_live(),
            d is Reconcile ==> {
                &&& resolves_with_default::<T>(
                    store.spec_lookup(old(self).spec_key()),
                    final(self).spec_value(),
                )
                &&& final(self).spec_version() == old(self).spec_version() + 1
            },
            !(d is Reconcile) ==> *final(self) == *old(self),
    {
        let d = decide_event(&self.key, StoreKind::Local, ev);
        match d {
            EventDecision::Reconcile => {
                let v: T = resolve_read_default::<T>(store.get(&self.key));
                self.inner.set(v);
            },
            _ => {},
        }
        d
    }

    /// The token of this handle's change-listener registration.
    pub fn token(&self) -> (t: u64)
        ensures
            t == self.spec_token(),
    {
        self.token
    }

    /// Release this handle's change-listener registration.
    ///
    /// Owed exactly once, when the handle's owning scope ends, on every
    /// exit path: a registration left behind would keep a callback alive
    /// over discarded state.  The handle keeps its value; only the
    /// registration goes.
    pub fn unsubscribe(&mut self, listeners: &mut ListenerRegistry)
        requires
            old(self).spec_live(),
            old(listeners).wf(),
        ensures
            final(listeners).wf(),
            final(listeners).spec_next() == old(listeners).spec_next(),
            forall|x: u64|
                final(listeners).spec_tokens().contains(x) <==> (old(listeners).spec_tokens().contains(x) && x != old(self).spec_token()),
            !final(self).spec_live(),
            final(self).spec_token() == old(self).spec_token(),
            final(self).spec_key() == old(self).spec_key(),
            final(self).spec_value() == old(self).spec_value(),
            final(self).spec_version() == old(self).spec_version(),
    {
        listeners.unregister(self.token);
        self.live = false;
    }
}

/// Handles compare by the values they currently observe — equal exactly
/// when the observed values write out to the same stored text — so a
/// dependency on a handle can skip recomputation when nothing observable
/// changed.
impl<T: StorageValue> PartialEq for UseLocalStorageDefaultHandle<T> {
    fn eq(&self, other: &Self) -> (r: bool) {
        self.inner.get().encode() == other.inner.get().encode()
    }
}

impl<T: StorageValue> vstd::std_specs::cmp::PartialEqSpecImpl for UseLocalStorageDefaultHandle<T> {
    open spec fn obeys_eq_spec() -> bool {
        true
    }

    open spec fn eq_spec(&self, other: &Self) -> bool {
        self.spec_value().encoding() == other.spec_value().encoding()
    }
}

/// Build a handle over `key`: read what the store holds now, resolve it
/// with the default-substitution policy, and start a fresh cell on it.
///
/// A read that finds nothing usable is not an error; it is the default.
pub fn use_local_storage_default<T: StorageValue>(
    key: String,
    store: &MemStore,
    listeners: &mut ListenerRegistry,
) -> (h: UseLocalStorageDefaultHandle<T>)
    requires
        store.spec_kind() == StoreKind::Local,
        old(listeners).wf(),
        old(listeners).spec_next() < u64::MAX,
    ensures
        h.spec_key() == key@,
        resolves_with_default::<T>(store.spec_lookup(key@), h.spec_value()),
        h.spec_version() == 0,
        h.spec_live(),
        !old(listeners).spec_tokens().contains(h.spec_token()),
        final(listeners).wf(),
        final(listeners).spec_tokens() == old(listeners).spec_tokens().push(h.spec_token()),
{
    let raw = store.get(&key);
    let v: T = resolve_read_default::<T>(raw);
    let token = listeners.subscribe();
    UseLocalStorageDefaultHandle { key, token, live: true, inner: UseStateHandle::new(v) }
}

} // verus!
