use vaultpad::crypto::{create_verification_token, derive_master_key};
use vaultpad::keychain::{get, remove, save, SecretCache};
use vaultpad::session::SessionKeys;
use vaultpad::settings::{
    cache_master_key, change_pin, clear_saved_session, has_pin, has_saved_session, new_master_token, remember_unlock,
    setup_pin, unlock_with_pin, verify_master_password,
};

#[test]
fn cache_save_get_remove() {
    let c = SecretCache::new();
    assert_eq!(get(&c, "a"), None);
    let c = save(&c, "a", "1");
    let c = save(&c, "b", "2");
    let c = save(&c, "a", "3");
    assert_eq!(get(&c, "a"), Some("3".to_string()));
    assert_eq!(get(&c, "b"), Some("2".to_string()));
    assert_eq!(c.entries().len(), 2);
    let c = remove(&c, "a").unwrap();
    assert_eq!(get(&c, "a"), None);
    assert_eq!(get(&c, "b"), Some("2".to_string()));
    assert!(remove(&c, "a").is_none());
}

#[test]
fn cache_from_entries_last_value_counts() {
    let c = SecretCache::from_entries(vec![
        ("k".to_string(), "old".to_string()),
        ("k".to_string(), "new".to_string()),
    ]);
    assert_eq!(get(&c, "k"), Some("new".to_string()));
    let d = c.duplicate();
    assert_eq!(get(&d, "k"), Some("new".to_string()));
}

#[test]
fn session_set_and_clear() {
    let mut s = SessionKeys::new();
    assert!(s.key().is_none());
    assert_eq!(s.get_cached_key().unwrap_err(), "No cached key. Please unlock first.");
    s.set([3u8; 32], "pw".to_string());
    assert_eq!(s.key(), Some([3u8; 32]));
    assert_eq!(s.get_master_password(), Some("pw".to_string()));
    s.clear();
    assert!(s.key().is_none());
    assert!(s.get_master_password().is_none());
}

#[test]
fn pin_setup_unlock_and_change() {
    let c = SecretCache::new();
    let c = setup_pin(&c, "1111", "master secret", Some("/tmp/db")).unwrap();
    assert!(has_pin(&c));
    assert!(has_saved_session(&c));
    let mut s = SessionKeys::new();
    assert_eq!(unlock_with_pin(&c, &mut s, "2222").unwrap_err(), "invalid_pin");
    assert!(s.key().is_none());
    let mp = unlock_with_pin(&c, &mut s, "1111").unwrap();
    assert_eq!(mp, "master secret");
    assert_eq!(s.key().unwrap(), derive_master_key("master secret").unwrap());

    let c2 = change_pin(&c, "1111", "3333").unwrap();
    assert_eq!(get(&c2, "master-password"), get(&c, "master-password"));
    let mut s2 = SessionKeys::new();
    assert_eq!(unlock_with_pin(&c2, &mut s2, "3333").unwrap(), "master secret");
    assert_eq!(unlock_with_pin(&c2, &mut s2, "1111").unwrap_err(), "invalid_pin");
    assert_eq!(change_pin(&c2, "1111", "4444").unwrap_err(), "invalid_pin");
}

#[test]
fn pin_errors() {
    let mut s = SessionKeys::new();
    let empty = SecretCache::new();
    assert_eq!(unlock_with_pin(&empty, &mut s, "1").unwrap_err(), "No PIN configured");
    let bad = save(&empty, "pin-hash", "not base64!");
    assert!(unlock_with_pin(&bad, &mut s, "1").unwrap_err().starts_with("Invalid PIN hash: "));
    assert_eq!(setup_pin(&empty, "1", "m", None).unwrap_err(), "No database path");
    let c = setup_pin(&empty, "1", "m", Some("p")).unwrap();
    let c = remove(&c, "master-password").unwrap();
    assert_eq!(unlock_with_pin(&c, &mut s, "1").unwrap_err(), "Master password not found in keychain");
}

#[test]
fn clearing_the_saved_session() {
    let c = SecretCache::new();
    let c = setup_pin(&c, "1", "m", Some("p")).unwrap();
    let c = save(&c, "other", "x");
    let c = clear_saved_session(&c);
    assert!(!has_pin(&c));
    assert!(!has_saved_session(&c));
    assert_eq!(get(&c, "other"), Some("x".to_string()));
}

#[test]
fn master_password_flow() {
    assert_eq!(new_master_token(Some(&[1u8][..]), "pw").unwrap_err(), "Master password already set");
    let token = new_master_token(None, "pw").unwrap();
    let mut s = SessionKeys::new();
    assert_eq!(verify_master_password(None, &mut s, "pw").unwrap_err(), "No master password set");
    assert_eq!(verify_master_password(Some(&token), &mut s, "nope"), Ok(false));
    assert!(s.key().is_none());
    assert_eq!(verify_master_password(Some(&token), &mut s, "pw"), Ok(true));
    assert_eq!(s.key().unwrap(), derive_master_key("pw").unwrap());
    assert_eq!(s.get_master_password().unwrap(), "pw");
}

#[test]
fn caching_and_remembering() {
    let mut s = SessionKeys::new();
    cache_master_key(&mut s, "abc").unwrap();
    assert_eq!(s.key().unwrap(), derive_master_key("abc").unwrap());
    let c = remember_unlock(&SecretCache::new(), Some("/db"), "abc");
    assert_eq!(get(&c, "db-path"), Some("/db".to_string()));
    assert_eq!(get(&c, "master-password"), Some("abc".to_string()));
    let c = remember_unlock(&SecretCache::new(), None, "abc");
    assert_eq!(get(&c, "db-path"), None);
}

#[test]
fn password_token_accepted_as_pin() {
    let token = create_verification_token("9999").unwrap();
    let entry = base64::Engine::encode(&base64::engine::general_purpose::STANDARD, &token);
    let c = save(&SecretCache::new(), "pin-hash", &entry);
    let c = save(&c, "master-password", "mp");
    let mut s = SessionKeys::new();
    assert_eq!(unlock_with_pin(&c, &mut s, "9999").unwrap(), "mp");
}
