use storage_hooks::events::{decide_event, EventDecision, StorageEventRecord};
use storage_hooks::use_local_storage_default::resolve_read_default;
use storage_hooks::use_session_storage_with_listen::resolve_read_absent;
use storage_hooks::value::{StorageValue, Theme};
use storage_hooks::{
    use_btree_set, use_local_storage_default, use_online, use_session_storage_with_listen,
    ListenerRegistry, MemStore, StoreError, StoreKind, UseStateHandle,
};

fn local_store() -> MemStore {
    MemStore::new(StoreKind::Local)
}

fn session_store() -> MemStore {
    MemStore::new(StoreKind::Session)
}

fn event(key: Option<&str>, new_value: Option<&str>, store: Option<StoreKind>) -> StorageEventRecord {
    StorageEventRecord {
        key: key.map(|k| k.to_string()),
        new_value: new_value.map(|v| v.to_string()),
        store,
    }
}

#[test]
fn round_trip_after_successful_set() {
    let mut reg = ListenerRegistry::new();
    let mut store = local_store();
    let mut h = use_local_storage_default::<String>("greeting".to_string(), &store, &mut reg);
    h.set(&mut store, "hello".to_string());
    assert_eq!(h.get().as_str(), "hello");
    assert_eq!(store.get(&"greeting".to_string()), Some("hello".to_string()));
}

#[test]
fn delete_resets_to_default_and_clears_backend() {
    let mut reg = ListenerRegistry::new();
    let mut store = local_store();
    let mut h = use_local_storage_default::<Theme>("theme".to_string(), &store, &mut reg);
    h.set(&mut store, Theme::Dark);
    assert_eq!(*h.get(), Theme::Dark);
    h.delete(&mut store);
    assert_eq!(*h.get(), Theme::Light);
    assert_eq!(store.get(&"theme".to_string()), None);
}

#[test]
fn delete_resets_to_absent_and_clears_backend() {
    let mut reg = ListenerRegistry::new();
    let mut store = session_store();
    let mut h = use_session_storage_with_listen::<String>("token".to_string(), &store, &mut reg);
    h.set(&mut store, "abc".to_string());
    assert_eq!(h.get().as_deref(), Some("abc"));
    h.delete(&mut store);
    assert_eq!(*h.get(), None);
    assert_eq!(store.get(&"token".to_string()), None);
}

#[test]
fn construction_over_unparsable_bytes_degrades_to_default() {
    let mut reg = ListenerRegistry::new();
    let mut store = local_store();
    store
        .set(&"theme".to_string(), &"###garbage###".to_string())
        .unwrap();
    let h = use_local_storage_default::<Theme>("theme".to_string(), &store, &mut reg);
    assert_eq!(*h.get(), Theme::Light);
}

#[test]
fn construction_over_unparsable_bytes_degrades_to_absent() {
    let mut reg = ListenerRegistry::new();
    let mut store = session_store();
    store
        .set(&"theme".to_string(), &"###garbage###".to_string())
        .unwrap();
    let h = use_session_storage_with_listen::<Theme>("theme".to_string(), &store, &mut reg);
    assert_eq!(*h.get(), None);
}

#[test]
fn construction_over_missing_key_uses_default() {
    let mut reg = ListenerRegistry::new();
    let store = local_store();
    let h = use_local_storage_default::<Theme>("theme".to_string(), &store, &mut reg);
    assert_eq!(*h.get(), Theme::Light);
    let h2 = use_local_storage_default::<String>("missing".to_string(), &store, &mut reg);
    assert_eq!(h2.get().as_str(), "");
}

#[test]
fn event_for_other_key_is_ignored() {
    let mut reg = ListenerRegistry::new();
    let mut store = local_store();
    let mut h = use_local_storage_default::<String>("a".to_string(), &store, &mut reg);
    h.set(&mut store, "mine".to_string());
    // another context writes key "b"
    store.set(&"b".to_string(), &"other".to_string()).unwrap();
    let d = h.on_storage_event(&store, &event(Some("b"), Some("other"), Some(StoreKind::Local)));
    assert_eq!(d, EventDecision::Ignored);
    assert_eq!(h.get().as_str(), "mine");
}

#[test]
fn event_for_other_store_kind_is_a_collision() {
    let mut reg = ListenerRegistry::new();
    let mut store = local_store();
    let mut h = use_local_storage_default::<String>("a".to_string(), &store, &mut reg);
    h.set(&mut store, "mine".to_string());
    let d = h.on_storage_event(&store, &event(Some("a"), Some("x"), Some(StoreKind::Session)));
    assert_eq!(d, EventDecision::CrossStoreMismatch);
    assert_eq!(h.get().as_str(), "mine");
    let d = h.on_storage_event(&store, &event(Some("a"), Some("x"), None));
    assert_eq!(d, EventDecision::CrossStoreMismatch);
    assert_eq!(h.get().as_str(), "mine");
}

#[test]
fn event_without_key_is_ignored() {
    let mut reg = ListenerRegistry::new();
    let mut store = local_store();
    let mut h = use_local_storage_default::<String>("a".to_string(), &store, &mut reg);
    h.set(&mut store, "mine".to_string());
    let d = h.on_storage_event(&store, &event(None, None, Some(StoreKind::Local)));
    assert_eq!(d, EventDecision::Ignored);
    assert_eq!(h.get().as_str(), "mine");
}

#[test]
fn reconciliation_rereads_the_store_not_the_event() {
    let mut reg = ListenerRegistry::new();
    let mut store = local_store();
    let mut h = use_local_storage_default::<Theme>("theme".to_string(), &store, &mut reg);
    h.set(&mut store, Theme::Dark);
    // another context writes "blue"; the event claims something else
    store.set(&"theme".to_string(), &"blue".to_string()).unwrap();
    let d = h.on_storage_event(&store, &event(Some("theme"), Some("dark"), Some(StoreKind::Local)));
    assert_eq!(d, EventDecision::Reconcile);
    assert_eq!(*h.get(), Theme::Blue);
}

#[test]
fn reconciliation_over_corrupt_store_degrades() {
    let mut reg = ListenerRegistry::new();
    let mut store = session_store();
    let mut h = use_session_storage_with_listen::<Theme>("theme".to_string(), &store, &mut reg);
    h.set(&mut store, Theme::Dark);
    store.set(&"theme".to_string(), &"mauve".to_string()).unwrap();
    let d = h.on_storage_event(&store, &event(Some("theme"), Some("mauve"), Some(StoreKind::Session)));
    assert_eq!(d, EventDecision::Reconcile);
    assert_eq!(*h.get(), None);
}

#[test]
fn failed_write_is_a_no_op() {
    let mut reg = ListenerRegistry::new();
    let mut store = local_store();
    let mut h = use_local_storage_default::<Theme>("theme".to_string(), &store, &mut reg);
    h.set(&mut store, Theme::Dark);
    store.set_failure(Some(StoreError::QuotaExceeded));
    h.set(&mut store, Theme::Blue);
    assert_eq!(*h.get(), Theme::Dark);
    assert_eq!(store.get(&"theme".to_string()), Some("dark".to_string()));
    store.set_failure(None);
    h.set(&mut store, Theme::Blue);
    assert_eq!(*h.get(), Theme::Blue);
}

#[test]
fn failed_write_is_a_no_op_for_the_optional_flavour() {
    let mut reg = ListenerRegistry::new();
    let mut store = session_store();
    let mut h = use_session_storage_with_listen::<String>("k".to_string(), &store, &mut reg);
    h.set(&mut store, "first".to_string());
    store.set_failure(Some(StoreError::Unavailable));
    h.set(&mut store, "second".to_string());
    assert_eq!(h.get().as_deref(), Some("first"));
    assert_eq!(store.get(&"k".to_string()), Some("first".to_string()));
}

#[test]
fn theme_scenario_over_the_default_flavour() {
    let mut reg = ListenerRegistry::new();
    // key "theme", default-value flavour, default "light"
    let mut store = local_store();
    let mut h = use_local_storage_default::<Theme>("theme".to_string(), &store, &mut reg);
    assert_eq!(h.get().encode(), "light");
    h.set(&mut store, Theme::Dark);
    assert_eq!(store.get(&"theme".to_string()), Some("dark".to_string()));
    assert_eq!(h.get().encode(), "dark");
    // another context stores "blue", then the event arrives
    store.set(&"theme".to_string(), &"blue".to_string()).unwrap();
    h.on_storage_event(&store, &event(Some("theme"), Some("blue"), Some(StoreKind::Local)));
    assert_eq!(h.get().encode(), "blue");
    h.delete(&mut store);
    assert_eq!(store.get(&"theme".to_string()), None);
    assert_eq!(h.get().encode(), "light");
}

#[test]
fn session_id_scenario_over_the_optional_flavour() {
    let mut reg = ListenerRegistry::new();
    // key "session-id", optional flavour, no stored value
    let mut store = session_store();
    let mut h = use_session_storage_with_listen::<String>("session-id".to_string(), &store, &mut reg);
    assert_eq!(*h.get(), None);
    h.set(&mut store, "abc123".to_string());
    assert_eq!(h.get().as_deref(), Some("abc123"));
    let d = h.on_storage_event(
        &store,
        &event(Some("session-id"), Some("zzz"), Some(StoreKind::Local)),
    );
    assert_eq!(d, EventDecision::CrossStoreMismatch);
    assert_eq!(h.get().as_deref(), Some("abc123"));
}

#[test]
fn store_reports_each_failure_kind() {
    let mut store = local_store();
    store.set_failure(Some(StoreError::QuotaExceeded));
    assert_eq!(
        store.set(&"k".to_string(), &"v".to_string()),
        Err(StoreError::QuotaExceeded)
    );
    store.set_failure(Some(StoreError::Unavailable));
    assert_eq!(
        store.set(&"k".to_string(), &"v".to_string()),
        Err(StoreError::Unavailable)
    );
    assert_eq!(store.get(&"k".to_string()), None);
    store.set_failure(None);
    assert_eq!(store.set(&"k".to_string(), &"v".to_string()), Ok(()));
    assert_eq!(store.get(&"k".to_string()), Some("v".to_string()));
}

#[test]
fn store_delete_is_not_an_error_on_missing_keys() {
    let mut store = local_store();
    store.delete(&"ghost".to_string());
    assert_eq!(store.get(&"ghost".to_string()), None);
    store.set(&"a".to_string(), &"1".to_string()).unwrap();
    store.set(&"a".to_string(), &"2".to_string()).unwrap();
    assert_eq!(store.get(&"a".to_string()), Some("2".to_string()));
    store.delete(&"a".to_string());
    assert_eq!(store.get(&"a".to_string()), None);
}

#[test]
fn store_kind_is_fixed_at_construction() {
    assert_eq!(local_store().kind(), StoreKind::Local);
    assert_eq!(session_store().kind(), StoreKind::Session);
}

#[test]
fn decide_event_matches_only_key_and_kind() {
    let key = "a".to_string();
    let local = StoreKind::Local;
    assert_eq!(
        decide_event(&key, local, &event(None, None, Some(local))),
        EventDecision::Ignored
    );
    assert_eq!(
        decide_event(&key, local, &event(Some("b"), None, Some(local))),
        EventDecision::Ignored
    );
    assert_eq!(
        decide_event(&key, local, &event(Some("a"), None, Some(StoreKind::Session))),
        EventDecision::CrossStoreMismatch
    );
    assert_eq!(
        decide_event(&key, local, &event(Some("a"), None, None)),
        EventDecision::CrossStoreMismatch
    );
    assert_eq!(
        decide_event(&key, local, &event(Some("a"), None, Some(local))),
        EventDecision::Reconcile
    );
}

#[test]
fn resolve_read_policies_on_each_outcome() {
    let dark: Theme = resolve_read_default(Some("dark".to_string()));
    assert_eq!(dark, Theme::Dark);
    let bad: Theme = resolve_read_default(Some("x".to_string()));
    assert_eq!(bad, Theme::Light);
    let missing: Theme = resolve_read_default(None);
    assert_eq!(missing, Theme::Light);
    let present: Option<Theme> = resolve_read_absent(Some("blue".to_string()));
    assert_eq!(present, Some(Theme::Blue));
    let bad: Option<Theme> = resolve_read_absent(Some("x".to_string()));
    assert_eq!(bad, None);
    let missing: Option<Theme> = resolve_read_absent(None);
    assert_eq!(missing, None);
}

#[test]
fn theme_codec_round_trips_and_rejects() {
    assert_eq!(Theme::Light.encode(), "light");
    assert_eq!(Theme::Dark.encode(), "dark");
    assert_eq!(Theme::Blue.encode(), "blue");
    assert_eq!(Theme::decode("light"), Some(Theme::Light));
    assert_eq!(Theme::decode("dark"), Some(Theme::Dark));
    assert_eq!(Theme::decode("blue"), Some(Theme::Blue));
    assert_eq!(Theme::decode("LIGHT"), None);
    assert_eq!(Theme::decode(""), None);
    assert_eq!(Theme::default_value(), Theme::Light);
}

#[test]
fn string_codec_is_identity() {
    assert_eq!(String::decode("anything"), Some("anything".to_string()));
    assert_eq!("anything".to_string().encode(), "anything");
    assert_eq!(String::default_value(), "");
}

#[test]
fn handles_compare_by_observed_value() {
    let mut reg = ListenerRegistry::new();
    let mut store = local_store();
    let mut a = use_local_storage_default::<String>("a".to_string(), &store, &mut reg);
    let mut b = use_local_storage_default::<String>("b".to_string(), &store, &mut reg);
    assert!(a == b);
    a.set(&mut store, "v".to_string());
    assert!(a != b);
    b.set(&mut store, "v".to_string());
    assert!(a == b);

    let mut store = session_store();
    let mut c = use_session_storage_with_listen::<String>("c".to_string(), &store, &mut reg);
    let d = use_session_storage_with_listen::<String>("d".to_string(), &store, &mut reg);
    assert!(c == d);
    c.set(&mut store, "v".to_string());
    assert!(c != d);
}

#[test]
fn btree_set_keeps_elements_sorted_and_unique() {
    let mut h = use_btree_set(vec![30, 10, 20, 10]);
    assert_eq!(*h.current(), vec![10, 20, 30]);
    assert!(h.insert(25));
    assert!(!h.insert(25));
    assert_eq!(*h.current(), vec![10, 20, 25, 30]);
    assert_eq!(h.replace(20), Some(20));
    assert_eq!(h.replace(40), None);
    assert_eq!(*h.current(), vec![10, 20, 25, 30, 40]);
    assert!(h.remove(&25));
    assert!(!h.remove(&25));
    assert_eq!(*h.current(), vec![10, 20, 30, 40]);
    h.retain(|v| *v % 20 == 0);
    assert_eq!(*h.current(), vec![20, 40]);
    h.clear();
    assert!(h.current().is_empty());
    h.set(vec![5, 5, 1]);
    assert_eq!(*h.current(), vec![1, 5]);
}

#[test]
fn btree_set_handles_compare_by_contents() {
    let a = use_btree_set(vec![2, 1]);
    let b = use_btree_set(vec![1, 2, 2]);
    let c = use_btree_set(vec![1, 3]);
    assert!(a == b);
    assert!(a != c);
}

#[test]
fn online_observer_follows_the_events() {
    let mut online = use_online(true);
    assert!(*online.get());
    storage_hooks::use_online::on_connectivity_event(
        &mut online,
        storage_hooks::use_online::ConnectivityEvent::Offline,
    );
    assert!(!*online.get());
    storage_hooks::use_online::on_connectivity_event(
        &mut online,
        storage_hooks::use_online::ConnectivityEvent::Online,
    );
    assert!(*online.get());
    let offline_start = use_online(false);
    assert!(!*offline_start.get());
}

#[test]
fn state_handle_holds_the_last_value_set() {
    let mut cell: UseStateHandle<u32> = UseStateHandle::new(7);
    assert_eq!(*cell.get(), 7);
    cell.set(9);
    assert_eq!(*cell.get(), 9);
    cell.set(9);
    assert_eq!(*cell.get(), 9);
}

#[test]
fn construction_registers_and_teardown_unregisters_exactly_once() {
    let mut reg = ListenerRegistry::new();
    let mut store = local_store();
    let mut a = use_local_storage_default::<String>("a".to_string(), &store, &mut reg);
    let mut sess = session_store();
    let mut b = use_session_storage_with_listen::<String>("b".to_string(), &sess, &mut reg);
    let ta = a.token();
    let tb = b.token();
    assert_ne!(ta, tb);
    assert!(reg.is_registered(ta));
    assert!(reg.is_registered(tb));
    a.set(&mut store, "x".to_string());
    a.unsubscribe(&mut reg);
    assert!(!reg.is_registered(ta));
    assert!(reg.is_registered(tb));
    assert_eq!(a.get().as_str(), "x");
    b.set(&mut sess, "y".to_string());
    b.unsubscribe(&mut reg);
    assert!(!reg.is_registered(tb));
    assert_eq!(b.get().as_deref(), Some("y"));
}

#[test]
fn registry_hands_out_fresh_tokens() {
    let mut reg = ListenerRegistry::new();
    let t1 = reg.subscribe();
    let t2 = reg.subscribe();
    let t3 = reg.subscribe();
    assert_ne!(t1, t2);
    assert_ne!(t2, t3);
    reg.unregister(t2);
    assert!(reg.is_registered(t1));
    assert!(!reg.is_registered(t2));
    assert!(reg.is_registered(t3));
    reg.unregister(t2);
    assert!(reg.is_registered(t1));
    assert!(reg.is_registered(t3));
}
