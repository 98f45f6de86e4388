use binderbase::settings::{
    get_ptcgapi_key, last_imported_at_key, ptcgapi_key_write, set_ptcgapi_key, InMemorySecrets, KeyringSecrets,
    SecretStore, PTCGAPI_KEY,
};

#[test]
fn last_imported_at_key_is_per_game() {
    assert_eq!(last_imported_at_key("mtg"), "catalog.last_imported_at.mtg");
    assert_eq!(
        last_imported_at_key("pokemon"),
        "catalog.last_imported_at.pokemon"
    );
}

#[test]
fn in_memory_secret_store_round_trip() {
    let mut store = InMemorySecrets::new();
    assert!(store.get(PTCGAPI_KEY).unwrap().is_none());

    store.set(PTCGAPI_KEY, "abcd-1234").unwrap();
    assert_eq!(
        store.get(PTCGAPI_KEY).unwrap().as_deref(),
        Some("abcd-1234")
    );

    store.delete(PTCGAPI_KEY).unwrap();
    assert!(store.get(PTCGAPI_KEY).unwrap().is_none());
    // Double delete is fine.
    store.delete(PTCGAPI_KEY).unwrap();
}

#[test]
fn set_ptcgapi_key_treats_empty_as_delete() {
    let mut store = InMemorySecrets::new();
    store.set(PTCGAPI_KEY, "real-key").unwrap();
    assert_eq!(
        get_ptcgapi_key(&store).unwrap().as_deref(),
        Some("real-key")
    );

    // Empty / whitespace → delete, not an overwrite with "".
    set_ptcgapi_key(&mut store, "").unwrap();
    assert!(get_ptcgapi_key(&store).unwrap().is_none());

    set_ptcgapi_key(&mut store, "another").unwrap();
    set_ptcgapi_key(&mut store, "   ").unwrap();
    assert!(get_ptcgapi_key(&store).unwrap().is_none());
}

#[test]
fn set_ptcgapi_key_trims_whitespace() {
    let mut store = InMemorySecrets::new();
    set_ptcgapi_key(&mut store, "   with-spaces   ").unwrap();
    assert_eq!(
        get_ptcgapi_key(&store).unwrap().as_deref(),
        Some("with-spaces")
    );
}

#[test]
fn set_ptcgapi_key_trims_unicode_whitespace() {
    let mut store = InMemorySecrets::new();
    set_ptcgapi_key(&mut store, "\u{3000}\tkey\u{a0}\n").unwrap();
    assert_eq!(get_ptcgapi_key(&store).unwrap().as_deref(), Some("key"));
}

#[test]
fn in_memory_store_overwrites_and_keeps_keys_apart() {
    let mut store = InMemorySecrets::new();
    store.set("a", "1").unwrap();
    store.set("b", "2").unwrap();
    store.set("a", "3").unwrap();
    assert_eq!(store.get("a").unwrap().as_deref(), Some("3"));
    assert_eq!(store.get("b").unwrap().as_deref(), Some("2"));
    store.delete("a").unwrap();
    assert!(store.get("a").unwrap().is_none());
    assert_eq!(store.get("b").unwrap().as_deref(), Some("2"));
}

#[test]
fn keyring_secrets_service_names() {
    assert_eq!(KeyringSecrets::new().service(), "binderbase");
    assert_eq!(
        KeyringSecrets::with_service("binderbase-test".to_string()).service(),
        "binderbase-test"
    );
}

#[test]
fn ptcgapi_key_write_plans_trimmed_value_or_delete() {
    assert_eq!(ptcgapi_key_write("  key-1  ").as_deref(), Some("key-1"));
    assert_eq!(ptcgapi_key_write("\u{3000}k\t"), Some("k".to_string()));
    assert_eq!(ptcgapi_key_write(""), None);
    assert_eq!(ptcgapi_key_write(" \n\t "), None);
}
