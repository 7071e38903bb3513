use aes_gcm::aead::{Aead, KeyInit};
use vaultpad::crypto::{
    create_pin_verification_token, create_verification_token, decrypt, decrypt_auto, derive_master_key, encrypt,
    encrypt_with_key, try_decrypt_with_key, verify_password, verify_pin, CryptoError, FORMAT_V2,
};

#[test]
fn test_encrypt_decrypt() {
    let password = "test_password_123";
    let plaintext = b"Hello, World!";
    let encrypted = encrypt(plaintext, password).unwrap();
    let decrypted = decrypt(&encrypted, password).unwrap();
    assert_eq!(decrypted, plaintext);
}

#[test]
fn test_wrong_password() {
    let encrypted = encrypt(b"secret data", "correct_password").unwrap();
    assert!(decrypt(&encrypted, "wrong_password").is_err());
}

#[test]
fn test_verification_token() {
    let password = "my_master_pass";
    let token = create_verification_token(password).unwrap();
    assert!(verify_password(&token, password));
    assert!(!verify_password(&token, "wrong_pass"));
}

#[test]
fn test_different_encryptions_produce_different_output() {
    let password = "same_password";
    let plaintext = b"same data";
    let enc1 = encrypt(plaintext, password).unwrap();
    let enc2 = encrypt(plaintext, password).unwrap();
    assert_ne!(enc1, enc2);
}

#[test]
fn test_v2_encrypt_decrypt() {
    let key = derive_master_key("test_password").unwrap();
    let plaintext = b"Hello V2!";
    let encrypted = encrypt_with_key(plaintext, &key).unwrap();
    assert_eq!(encrypted[0], FORMAT_V2);
    let decrypted = decrypt_auto(&encrypted, Some(&key), None).unwrap();
    assert_eq!(decrypted, plaintext);
}

#[test]
fn test_v1_decrypt_with_cached_key_fallback_to_password() {
    let password = "test_pass";
    let plaintext = b"V1 data";
    let encrypted = encrypt(plaintext, password).unwrap();
    let decrypted = decrypt_auto(&encrypted, None, Some(password)).unwrap();
    assert_eq!(decrypted, plaintext);
}

#[test]
fn test_pin_verification() {
    let pin = "1234";
    let token = create_pin_verification_token(pin).unwrap();
    assert!(verify_pin(&token, pin));
    assert!(!verify_pin(&token, "5678"));
}

#[test]
fn layout_one_has_salt_nonce_and_tagged_body() {
    let blob = encrypt(b"abc", "pw").unwrap();
    assert_eq!(blob.len(), 16 + 12 + 3 + 16);
}

#[test]
fn layout_two_has_tag_nonce_and_tagged_body() {
    let key = [7u8; 32];
    let blob = encrypt_with_key(b"abcd", &key).unwrap();
    assert_eq!(blob.len(), 1 + 12 + 4 + 16);
    assert_eq!(blob[0], 0x02);
    assert_ne!(&blob[13..17], b"abcd");
}

#[test]
fn master_key_is_deterministic_and_password_bound() {
    let a = derive_master_key("correct horse").unwrap();
    let b = derive_master_key("correct horse").unwrap();
    let c = derive_master_key("battery staple").unwrap();
    assert_eq!(a, b);
    assert_ne!(a, c);
    assert_ne!(a, [0u8; 32]);
}

#[test]
fn v2_round_trip_fails_with_another_key() {
    let key = derive_master_key("k1").unwrap();
    let other = derive_master_key("k2").unwrap();
    let blob = encrypt_with_key(b"payload", &key).unwrap();
    assert!(matches!(decrypt_auto(&blob, Some(&other), None), Err(CryptoError::DecryptionFailed(_))));
}

#[test]
fn v2_blob_without_cached_key_is_refused() {
    let key = [1u8; 32];
    let blob = encrypt_with_key(b"payload", &key).unwrap();
    match decrypt_auto(&blob, None, Some("pw")) {
        Err(CryptoError::DecryptionFailed(m)) => assert_eq!(m, "V2 format requires cached key"),
        _ => panic!("expected a decryption failure"),
    }
}

#[test]
fn empty_blob_is_invalid_format() {
    assert!(matches!(decrypt_auto(&[], None, Some("pw")), Err(CryptoError::InvalidFormat)));
}

#[test]
fn short_v2_blob_is_invalid_format() {
    let key = [1u8; 32];
    let blob = [0x02u8; 13];
    assert!(matches!(decrypt_auto(&blob, Some(&key), None), Err(CryptoError::InvalidFormat)));
}

#[test]
fn short_v1_blob_is_invalid_format() {
    assert!(matches!(decrypt(&[0u8; 28], "pw"), Err(CryptoError::InvalidFormat)));
}

#[test]
fn no_credential_is_a_decryption_failure() {
    let blob = [0u8; 40];
    match decrypt_auto(&blob, None, None) {
        Err(CryptoError::DecryptionFailed(m)) => assert_eq!(m, "No key or password available"),
        _ => panic!("expected a decryption failure"),
    }
}

#[test]
fn cached_key_tried_on_layout_one_body() {
    // A layout-one shaped blob whose body was sealed with the cached key.
    let key = [9u8; 32];
    let cipher = aes_gcm::Aes256Gcm::new_from_slice(&key).unwrap();
    let nonce = [3u8; 12];
    let body = cipher.encrypt(aes_gcm::Nonce::from_slice(&nonce), b"old".as_slice()).unwrap();
    let mut blob = vec![0u8; 16];
    blob.extend_from_slice(&nonce);
    blob.extend_from_slice(&body);
    assert_eq!(decrypt_auto(&blob, Some(&key), None).unwrap(), b"old");
}

#[test]
fn legacy_blob_decrypts_after_current_costs_fail() {
    let password = "legacy pass";
    let salt = [5u8; 16];
    let nonce = [6u8; 12];
    let params = argon2::Params::new(65536, 3, 4, Some(32)).unwrap();
    let hasher = argon2::Argon2::new(argon2::Algorithm::Argon2id, argon2::Version::V0x13, params);
    let mut key = [0u8; 32];
    hasher.hash_password_into(password.as_bytes(), &salt, &mut key).unwrap();
    let cipher = aes_gcm::Aes256Gcm::new_from_slice(&key).unwrap();
    let body = cipher.encrypt(aes_gcm::Nonce::from_slice(&nonce), b"from before".as_slice()).unwrap();
    let mut blob = salt.to_vec();
    blob.extend_from_slice(&nonce);
    blob.extend_from_slice(&body);
    assert_eq!(decrypt(&blob, password).unwrap(), b"from before");
}

#[test]
fn pin_token_also_checked_as_password_token() {
    let token = create_verification_token("2468").unwrap();
    assert!(!verify_pin(&token, "2468"));
    assert!(verify_password(&token, "2468"));
}

#[test]
fn draft_opens_only_with_its_key() {
    let key = derive_master_key("vault").unwrap();
    let other = [42u8; 32];
    let blob = encrypt_with_key(b"draft", &key).unwrap();
    assert_eq!(try_decrypt_with_key(&blob, &key).unwrap(), b"draft");
    assert!(try_decrypt_with_key(&blob, &other).is_none());
}

#[test]
fn probe_ignores_layout_one() {
    let blob = encrypt(b"x", "pw").unwrap();
    let key = [0u8; 32];
    if blob[0] != 0x02 {
        assert!(try_decrypt_with_key(&blob, &key).is_none());
    }
}

#[test]
fn error_messages() {
    assert_eq!(CryptoError::InvalidFormat.to_string(), "Invalid data format");
    assert_eq!(CryptoError::EncryptionFailed("x".to_string()).to_string(), "Encryption failed: x");
    assert_eq!(CryptoError::DecryptionFailed("y".to_string()).to_string(), "Decryption failed: y");
    assert_eq!(CryptoError::KeyDerivationFailed("z".to_string()).to_string(), "Key derivation failed: z");
}

#[test]
fn empty_plaintext_round_trips() {
    let blob = encrypt(b"", "pw").unwrap();
    assert_eq!(blob.len(), 16 + 12 + 16);
    assert_eq!(decrypt(&blob, "pw").unwrap(), Vec::<u8>::new());
    let key = [2u8; 32];
    let blob = encrypt_with_key(b"", &key).unwrap();
    assert_eq!(blob.len(), 1 + 12 + 16);
    assert_eq!(decrypt_auto(&blob, Some(&key), None).unwrap(), Vec::<u8>::new());
}

#[test]
fn layout_two_nonces_differ() {
    let key = [2u8; 32];
    let a = encrypt_with_key(b"same", &key).unwrap();
    let b = encrypt_with_key(b"same", &key).unwrap();
    assert_ne!(a, b);
}

#[test]
fn short_tokens_never_verify() {
    assert!(!verify_pin(&[0u8; 28], "1"));
    assert!(!verify_password(&[0u8; 28], "1"));
}
