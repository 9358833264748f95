//! Reactive state containers mirrored to a key/value backing store.
//!
//! The heart of the crate is a pair of storage-synchronized containers:
//! reactive cells whose value is persisted under a string key and kept
//! consistent with changes made to the same key by other execution
//! contexts, delivered as low-level storage-change events.  Around them
//! stand a plain observable value box, an ordered-unique collection
//! container, and a connectivity observer.
//!
//! The browser collaborators (the real key/value stores, the global event
//! subscription, the UI framework's cell) are modelled at their interface:
//! [`store::MemStore`] is a faithful in-memory stand-in for a backing
//! store, and event delivery is an explicit call, so every container can
//! be driven and checked with no browser present.

pub mod events;
pub mod listeners;
pub mod state_handle;
pub mod store;
pub mod use_btree_set;
pub mod use_local_storage_default;
pub mod use_online;
pub mod use_session_storage_with_listen;
pub mod value;

pub use listeners::ListenerRegistry;
pub use state_handle::UseStateHandle;
pub use use_btree_set::{use_btree_set, UseBTreeSetHandle};
pub use use_online::use_online;
pub use store::{MemStore, StoreError, StoreKind};
pub use use_local_storage_default::{use_local_storage_default, UseLocalStorageDefaultHandle};
pub use use_session_storage_with_listen::{
    use_session_storage_with_listen, UseSessionStorageWithListenHandle,
};
