use vaultpad::auth::{api_url, trim_base_url};
use vaultpad::crypto::{decrypt, decrypt_auto, derive_master_key, encrypt, encrypt_with_key, try_decrypt_with_key};
use vaultpad::keychain::{get, save, SecretCache};
use vaultpad::models::{AppSettings, Project, SyncStatus};
use vaultpad::projects::{
    create_project, kc_key, list_items, next_sort_order, open_project, prepare_new_project, prepare_update,
    reorder_pairs, seal_fields, update_project,
};
use vaultpad::session::SessionKeys;
use vaultpad::storage::StorageError;

fn stored(id: &str, name: Vec<u8>, content: Vec<u8>, order: i32) -> Project {
    Project {
        id: id.to_string(),
        encrypted_name: name,
        encrypted_content: content,
        sort_order: order,
        created_at: "c".to_string(),
        updated_at: "u".to_string(),
        server_id: None,
        sync_status: SyncStatus::Local,
    }
}

#[test]
fn slot_names() {
    assert_eq!(kc_key("abc"), "project-password-abc");
}

#[test]
fn sort_positions() {
    assert_eq!(next_sort_order(&vec![]), Some(0));
    let v = vec![stored("a", vec![], vec![], 4), stored("b", vec![], vec![], -2)];
    assert_eq!(next_sort_order(&v), Some(5));
    let full = vec![stored("a", vec![], vec![], i32::MAX)];
    assert_eq!(next_sort_order(&full), None);
    let pairs = reorder_pairs(&vec!["x".to_string(), "y".to_string()]);
    assert_eq!(pairs, vec![("x".to_string(), 0), ("y".to_string(), 1)]);
}

#[test]
fn listing_names() {
    let key = [8u8; 32];
    let a = stored("a", encrypt_with_key(b"Alpha", &key).unwrap(), vec![], 0);
    let b = stored("b", encrypt(b"Beta", "own").unwrap(), vec![], 1);
    let c = stored("c", encrypt(b"Gamma", "lost").unwrap(), vec![], 2);
    let secrets = save(&SecretCache::new(), &kc_key("b"), "own");
    let items = list_items(&vec![a, b, c], &key, &secrets).unwrap();
    assert_eq!(items.len(), 3);
    assert_eq!(items[0].name, "Alpha");
    assert!(!items[0].has_custom_password);
    assert_eq!(items[1].name, "Beta");
    assert!(items[1].has_custom_password && items[1].password_saved);
    assert_eq!(items[2].name, "locked_custom_password");
    assert!(items[2].has_custom_password && !items[2].password_saved);
    let bad = stored("d", encrypt_with_key(&[0xff, 0xfe], &key).unwrap(), vec![], 3);
    assert!(list_items(&vec![bad], &key, &secrets).is_err());
}

#[test]
fn opening_records() {
    let key = [8u8; 32];
    let p = stored("a", encrypt_with_key(b"N", &key).unwrap(), encrypt_with_key(b"C", &key).unwrap(), 0);
    let o = open_project(&p, Some(&key), None, "", &SecretCache::new());
    let d = o.project.unwrap();
    assert_eq!((d.name.as_str(), d.content.as_str(), d.has_custom_password), ("N", "C", false));
    assert!(o.secrets.is_none());

    let q = stored("q", encrypt(b"N2", "pw").unwrap(), encrypt(b"C2", "pw").unwrap(), 0);
    let o = open_project(&q, Some(&key), None, "", &SecretCache::new());
    assert_eq!(o.project.unwrap_err(), "No saved password for this project");
    let o = open_project(&q, Some(&key), None, "pw", &SecretCache::new());
    let d = o.project.unwrap();
    assert_eq!((d.name.as_str(), d.content.as_str(), d.has_custom_password), ("N2", "C2", true));
    let saved = o.secrets.unwrap();
    assert_eq!(get(&saved, "project-password-q"), Some("pw".to_string()));
    let o = open_project(&q, None, None, "", &saved);
    assert_eq!(o.project.unwrap().content, "C2");
    let o = open_project(&q, None, None, "wrong", &SecretCache::new());
    assert!(o.project.is_err());
}

#[test]
fn sealing_fields() {
    let key = [4u8; 32];
    let (a, b) = seal_fields("n", "c", "", false, &key).unwrap();
    assert_eq!(try_decrypt_with_key(&a, &key).unwrap(), b"n");
    assert_eq!(try_decrypt_with_key(&b, &key).unwrap(), b"c");
    let (a, b) = seal_fields("n", "c", "pw", true, &key).unwrap();
    assert_eq!(decrypt(&a, "pw").unwrap(), b"n");
    assert_eq!(decrypt(&b, "pw").unwrap(), b"c");
}

#[test]
fn new_and_edited_records() {
    let key = derive_master_key("m").unwrap();
    let existing = vec![stored("a", vec![], vec![], 6)];
    let n = prepare_new_project(&existing, &SecretCache::new(), &key, "id1".to_string(), "t1".to_string(), "draft", "body", "", false)
        .unwrap();
    assert_eq!(n.project.id, "id1");
    assert_eq!(n.project.sort_order, 7);
    assert_eq!(n.project.sync_status, SyncStatus::Local);
    assert_eq!(n.project.server_id, None);
    assert_eq!(n.project.created_at, "t1");
    assert_eq!(decrypt_auto(&n.project.encrypted_content, Some(&key), None).unwrap(), b"body");
    assert!(n.secrets.is_none());

    let mut synced = n.project.clone();
    synced.sync_status = SyncStatus::Synced;
    synced.server_id = Some("9".to_string());
    let e = prepare_update(&synced, &SecretCache::new(), &key, "t2".to_string(), "draft2", "body2", "own", true).unwrap();
    assert_eq!(e.project.sync_status, SyncStatus::Modified);
    assert_eq!(e.project.server_id, Some("9".to_string()));
    assert_eq!(e.project.updated_at, "t2");
    assert_eq!(e.project.created_at, "t1");
    assert_eq!(decrypt(&e.project.encrypted_name, "own").unwrap(), b"draft2");
    assert_eq!(get(&e.secrets.unwrap(), "project-password-id1"), Some("own".to_string()));
    let err = prepare_update(&synced, &SecretCache::new(), &key, "t3".to_string(), "x", "y", "", true).unwrap_err();
    assert_eq!(err, "No password available for this project");
}

#[test]
fn commands_need_an_unlocked_session() {
    let locked = SessionKeys::new();
    let r = create_project(&vec![], &SecretCache::new(), &locked, "n", "c", "", false);
    assert_eq!(r.unwrap_err(), "No cached key. Please unlock first.");
    let mut s = SessionKeys::new();
    let key = derive_master_key("m").unwrap();
    s.set(key, "m".to_string());
    let n = create_project(&vec![], &SecretCache::new(), &s, "n", "draft", "", false).unwrap();
    assert_eq!(n.project.sync_status, SyncStatus::Local);
    assert_eq!(n.project.sort_order, 0);
    assert_eq!(try_decrypt_with_key(&n.project.encrypted_content, &key).unwrap(), b"draft");
    assert!(try_decrypt_with_key(&n.project.encrypted_content, &[1u8; 32]).is_none());
    let u = update_project(&n.project, &SecretCache::new(), &s, "n2", "c2", "", false).unwrap();
    assert_eq!(u.project.id, n.project.id);
    assert_eq!(u.project.sync_status, SyncStatus::Local);
    assert!(update_project(&n.project, &SecretCache::new(), &locked, "n2", "c2", "", false).is_err());
}

#[test]
fn default_settings() {
    let s = AppSettings::default();
    assert_eq!(s.db_path, None);
    assert_eq!(s.auto_lock_minutes, 5);
    assert_eq!(s.theme, "system");
    assert!(!s.onboarding_shown);
}

#[test]
fn server_urls() {
    assert_eq!(trim_base_url("http://h:1//"), "http://h:1");
    assert_eq!(api_url("http://h/", "/projects"), "http://h/api/projects");
    assert_eq!(api_url("", "/health"), "/api/health");
}

#[test]
fn storage_messages() {
    assert_eq!(StorageError::NotFound("7".to_string()).to_string(), "Project not found: 7");
    assert_eq!(StorageError::Database("x".to_string()).to_string(), "Database error: x");
    assert_eq!(StorageError::Io("y".to_string()).to_string(), "IO error: y");
}

#[test]
fn listing_leaves_out_deleted_records() {
    let key = [8u8; 32];
    let a = stored("a", encrypt_with_key(b"Kept", &key).unwrap(), vec![], 0);
    let mut b = stored("b", encrypt_with_key(b"Gone", &key).unwrap(), vec![], 1);
    b.sync_status = SyncStatus::Deleted;
    let items = list_items(&vec![a, b], &key, &SecretCache::new()).unwrap();
    assert_eq!(items.len(), 1);
    assert_eq!(items[0].name, "Kept");
}
