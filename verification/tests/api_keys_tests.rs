use aeonmi::api_keys::{
    delete_api_key, fallback_sha256, get_api_key, key_material, list_providers, open_api_key, rotate_all_keys,
    seal_api_key, set_api_key, stored_cipher_fits, try_get_api_key, try_open_api_key, try_rotate_all_keys, KeyStore,
};

fn key() -> [u8; 32] {
    key_material("alice", "host", &[7u8; 32])
}

#[test]
fn key_material_is_salted_sha256() {
    let expected: [u8; 32] = [
        228, 150, 215, 1, 177, 192, 64, 171, 134, 111, 207, 146, 106, 122, 82, 89, 105, 0, 63, 79, 34, 176, 251, 152,
        176, 90, 237, 232, 178, 99, 70, 246,
    ];
    assert_eq!(key(), expected);
    assert_eq!(fallback_sha256("alice", "host", b"AEONMI_API_KEY_SALT_v2", &[7u8; 32]), expected);
    assert_ne!(key_material("alice", "host", &[8u8; 32]), expected);
}

#[test]
fn seal_with_zero_key_matches_chacha20_vector() {
    let entry = seal_api_key(&[0u8; 32], &[0u8; 12], "AB");
    assert_eq!(entry, "{\"alg\":\"ChaCha20\",\"nonce_ct_b64\":\"AAAAAAAAAAAAAAAAN/o=\",\"v\":1}");
}

#[test]
fn open_after_seal_gives_key_back() {
    let k = key();
    let entry = seal_api_key(&k, &[3u8; 12], "sk-test-123");
    assert_eq!(open_api_key(&k, &entry), Some("sk-test-123".to_string()));
    assert_ne!(open_api_key(&key_material("bob", "host", &[7u8; 32]), &entry), Some("sk-test-123".to_string()));
}

#[test]
fn open_reads_legacy_base64() {
    assert_eq!(open_api_key(&[0u8; 32], "AAAAAAAAAAAAAAAAN/o="), Some("AB".to_string()));
    assert_eq!(open_api_key(&[0u8; 32], "  {\"nonce_ct_b64\":\"AAAAAAAAAAAAAAAAN/o=\"}"), Some("AB".to_string()));
}

#[test]
fn open_refuses_bad_entries() {
    let k = key();
    assert_eq!(open_api_key(&k, ""), None);
    assert_eq!(open_api_key(&k, "{}"), None);
    assert_eq!(open_api_key(&k, "{\"nonce_ct_b64\":7}"), None);
    assert_eq!(open_api_key(&k, "not base64!"), None);
    assert_eq!(open_api_key(&k, "AAAA"), None);
    let empty = seal_api_key(&k, &[1u8; 12], "");
    assert_eq!(open_api_key(&k, &empty), None);
}

#[test]
fn store_set_get_delete_list() {
    let k = key();
    let mut store = KeyStore::new();
    assert_eq!(get_api_key(&store, &k, "openai"), None);
    set_api_key(&mut store, &k, "openai", "sk-1");
    set_api_key(&mut store, &k, "ibm", "tok-2");
    set_api_key(&mut store, &k, "openai", "sk-3");
    assert_eq!(get_api_key(&store, &k, "openai"), Some("sk-3".to_string()));
    assert_eq!(get_api_key(&store, &k, "ibm"), Some("tok-2".to_string()));
    assert_eq!(list_providers(&store), vec!["openai".to_string(), "ibm".to_string()]);
    delete_api_key(&mut store, "openai");
    assert_eq!(get_api_key(&store, &k, "openai"), None);
    assert_eq!(list_providers(&store), vec!["ibm".to_string()]);
    delete_api_key(&mut store, "missing");
    assert_eq!(list_providers(&store).len(), 1);
}

#[test]
fn rotation_reseals_readable_keys_and_reports_the_rest() {
    let k = key();
    let mut store = KeyStore::new();
    set_api_key(&mut store, &k, "a", "alpha");
    store.insert("b".to_string(), "!!".to_string());
    set_api_key(&mut store, &k, "c", "gamma");
    let before = store.get("a").unwrap();
    let report = rotate_all_keys(&mut store, &k);
    assert_eq!(report.attempted, 3);
    assert_eq!(report.rotated, 2);
    assert_eq!(report.errors, vec![("b".to_string(), "decrypt_failed".to_string())]);
    assert_eq!(get_api_key(&store, &k, "a"), Some("alpha".to_string()));
    assert_eq!(get_api_key(&store, &k, "c"), Some("gamma".to_string()));
    assert_eq!(store.get("b"), Some("!!".to_string()));
    assert_ne!(store.get("a").unwrap(), before);
}

#[test]
fn checked_reads_and_rotation() {
    let k = key();
    let mut store = KeyStore::new();
    set_api_key(&mut store, &k, "a", "alpha");
    assert_eq!(try_get_api_key(&store, &k, "a"), Some(Some("alpha".to_string())));
    assert_eq!(try_get_api_key(&store, &k, "zz"), Some(None));
    let raw = store.get("a").unwrap();
    assert!(stored_cipher_fits(&raw));
    assert!(stored_cipher_fits("!!"));
    assert_eq!(try_open_api_key(&k, &raw), Some(Some("alpha".to_string())));
    assert_eq!(try_open_api_key(&k, "!!"), Some(None));
    let report = try_rotate_all_keys(&mut store, &k).unwrap();
    assert_eq!(report.attempted, 1);
    assert_eq!(report.rotated, 1);
    assert_eq!(get_api_key(&store, &k, "a"), Some("alpha".to_string()));
}
