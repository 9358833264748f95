//! The connectivity observer.
//!
//! A boolean reactive cell started from the platform's current
//! connectivity flag; the two global subscriptions set it true and false
//! unconditionally, with no debouncing and no equality check of their
//! own.

use crate::state_handle::UseStateHandle;
use vstd::prelude::*;

verus! {

/// The two global connectivity events.
#[derive(Clone, Copy, PartialEq, Eq, Structural, Debug)]
pub enum ConnectivityEvent {
    Online,
    Offline,
}

/// Start observing connectivity from the platform's current flag.
pub fn use_online(currently_online: bool) -> (h: UseStateHandle<bool>)
    ensures
        h.spec_value() == currently_online,
        h.spec_version() == 0,
{
    UseStateHandle::new(currently_online)
}

/// Apply one connectivity event: the cell becomes true on `Online` and
/// false on `Offline`, whatever it held, and dependents are signalled.
pub fn on_connectivity_event(online: &mut UseStateHandle<bool>, ev: ConnectivityEvent)
    ensures
        final(online).spec_value() == (ev is Online),
        final(online).spec_version() == old(online).spec_version() + 1,
{
    match ev {
        ConnectivityEvent::Online => online.set(true),
        ConnectivityEvent::Offline => online.set(false),
    }
}

} // verus!
