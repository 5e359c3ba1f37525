use base64::Engine;
use game_vault::codec::{decrypt, encrypt, EncryptedData};
use game_vault::error::VaultError;
use game_vault::kdf::derive_key;
use game_vault::salt::get_master_salt;
use game_vault::storage::{delete_secret, get_secret, list_supported_keys, set_secret, SecretStore};

fn fresh_salt() -> Vec<u8> {
    let salt = get_master_salt(None).unwrap();
    assert!(salt.created);
    salt.bytes
}

fn decode(text: &str) -> Vec<u8> {
    base64::engine::general_purpose::STANDARD.decode(text).unwrap()
}

fn encode(bytes: &[u8]) -> String {
    base64::engine::general_purpose::STANDARD.encode(bytes)
}

#[test]
fn test_encrypt_decrypt() {
    let salt = fresh_salt();
    let test_data = "minha_api_key_secreta_123";
    let identifier = "test_key";

    let encrypted = encrypt(test_data, &salt, identifier).unwrap();
    let decrypted = decrypt(&encrypted, &salt, identifier).unwrap();

    assert_eq!(test_data, decrypted);
}

#[test]
fn test_different_identifiers_different_results() {
    let salt = fresh_salt();
    let test_data = "same_data";

    let encrypted1 = encrypt(test_data, &salt, "id1").unwrap();
    let encrypted2 = encrypt(test_data, &salt, "id2").unwrap();

    assert_ne!(encrypted1.ciphertext, encrypted2.ciphertext);
}

#[test]
fn record_fields_have_expected_sizes() {
    let salt = fresh_salt();
    let rec = encrypt("hello", &salt, "name").unwrap();
    assert_eq!(decode(&rec.nonce).len(), 12);
    assert_eq!(decode(&rec.salt).len(), 16);
    assert_eq!(decode(&rec.ciphertext).len(), 5 + 16);
    assert_ne!(decode(&rec.ciphertext)[..5], b"hello"[..]);
}

#[test]
fn empty_plaintext_round_trips() {
    let salt = fresh_salt();
    let rec = encrypt("", &salt, "name").unwrap();
    assert_eq!(decrypt(&rec, &salt, "name").unwrap(), "");
}

#[test]
fn unicode_plaintext_round_trips() {
    let salt = fresh_salt();
    let value = "chave-\u{e7}\u{e3}o-\u{1F511}";
    let rec = encrypt(value, &salt, "name").unwrap();
    assert_eq!(decrypt(&rec, &salt, "name").unwrap(), value);
}

#[test]
fn store_round_trip() {
    let mut store = SecretStore::new(fresh_salt());
    set_secret(&mut store, "steam_api_key", "ABCDEF123").unwrap();
    assert_eq!(get_secret(&store, "steam_api_key").unwrap(), "ABCDEF123");
    assert_eq!(store.len(), 1);
}

#[test]
fn store_overwrite_replaces_value() {
    let mut store = SecretStore::new(fresh_salt());
    set_secret(&mut store, "rawg_api_key", "first").unwrap();
    set_secret(&mut store, "rawg_api_key", "second").unwrap();
    assert_eq!(get_secret(&store, "rawg_api_key").unwrap(), "second");
    assert_eq!(store.len(), 1);
}

#[test]
fn encrypting_twice_differs() {
    let salt = fresh_salt();
    let a = encrypt("same", &salt, "n").unwrap();
    let b = encrypt("same", &salt, "n").unwrap();
    assert_ne!(a.nonce, b.nonce);
    assert_ne!(a.salt, b.salt);
    assert_ne!(a.ciphertext, b.ciphertext);
    assert_eq!(decrypt(&a, &salt, "n").unwrap(), "same");
    assert_eq!(decrypt(&b, &salt, "n").unwrap(), "same");
}

fn flip(text: &str, at: usize) -> String {
    let mut bytes = decode(text);
    bytes[at] ^= 0x01;
    encode(&bytes)
}

#[test]
fn tampered_ciphertext_is_rejected() {
    let salt = fresh_salt();
    let rec = encrypt("secret value", &salt, "n").unwrap();
    let len = decode(&rec.ciphertext).len();
    for at in [0, len / 2, len - 1] {
        let bad = EncryptedData { ciphertext: flip(&rec.ciphertext, at), ..rec.clone() };
        assert_eq!(decrypt(&bad, &salt, "n"), Err(VaultError::DecryptionError));
    }
}

#[test]
fn tampered_nonce_is_rejected() {
    let salt = fresh_salt();
    let rec = encrypt("secret value", &salt, "n").unwrap();
    for at in [0, 11] {
        let bad = EncryptedData { nonce: flip(&rec.nonce, at), ..rec.clone() };
        assert_eq!(decrypt(&bad, &salt, "n"), Err(VaultError::DecryptionError));
    }
}

#[test]
fn tampered_record_salt_is_rejected() {
    let salt = fresh_salt();
    let rec = encrypt("secret value", &salt, "n").unwrap();
    for at in [0, 15] {
        let bad = EncryptedData { salt: flip(&rec.salt, at), ..rec.clone() };
        assert_eq!(decrypt(&bad, &salt, "n"), Err(VaultError::DecryptionError));
    }
}

#[test]
fn malformed_fields_are_rejected() {
    let salt = fresh_salt();
    let rec = encrypt("secret value", &salt, "n").unwrap();
    let bad_text = EncryptedData { ciphertext: "not base64!".to_string(), ..rec.clone() };
    assert_eq!(decrypt(&bad_text, &salt, "n"), Err(VaultError::DecryptionError));
    let short_nonce = EncryptedData { nonce: encode(&[0u8; 11]), ..rec.clone() };
    assert_eq!(decrypt(&short_nonce, &salt, "n"), Err(VaultError::DecryptionError));
    let long_salt = EncryptedData { salt: encode(&[0u8; 17]), ..rec.clone() };
    assert_eq!(decrypt(&long_salt, &salt, "n"), Err(VaultError::DecryptionError));
}

#[test]
fn absent_is_empty_and_corrupt_is_error() {
    let salt = fresh_salt();
    let mut store = SecretStore::new(salt.clone());
    assert_eq!(get_secret(&store, "steam_id").unwrap(), "");
    let rec = encrypt("7656119", &salt, "steam_id").unwrap();
    let bad = EncryptedData { ciphertext: flip(&rec.ciphertext, 0), ..rec };
    store.insert_record("steam_id".to_string(), bad);
    assert_eq!(get_secret(&store, "steam_id"), Err(VaultError::DecryptionError));
}

#[test]
fn delete_is_idempotent() {
    let mut store = SecretStore::new(fresh_salt());
    set_secret(&mut store, "steam_id", "42").unwrap();
    assert_eq!(delete_secret(&mut store, "steam_id"), Ok(()));
    assert_eq!(delete_secret(&mut store, "steam_id"), Ok(()));
    assert_eq!(get_secret(&store, "steam_id").unwrap(), "");
    assert_eq!(store.len(), 0);
}

#[test]
fn blank_values_are_refused() {
    let mut store = SecretStore::new(fresh_salt());
    set_secret(&mut store, "steam_id", "kept").unwrap();
    assert_eq!(set_secret(&mut store, "steam_id", ""), Err(VaultError::ValidationError));
    assert_eq!(set_secret(&mut store, "steam_id", "   "), Err(VaultError::ValidationError));
    assert_eq!(set_secret(&mut store, "steam_id", "\t\n\u{3000}"), Err(VaultError::ValidationError));
    assert_eq!(get_secret(&store, "steam_id").unwrap(), "kept");
    assert_eq!(set_secret(&mut store, "other", " "), Err(VaultError::ValidationError));
    assert_eq!(store.len(), 1);
}

#[test]
fn names_are_isolated() {
    let salt = fresh_salt();
    let a = encrypt("shared", &salt, "alpha").unwrap();
    let b = encrypt("shared", &salt, "beta").unwrap();
    assert_ne!(a.ciphertext, b.ciphertext);
    assert_eq!(decrypt(&b, &salt, "alpha"), Err(VaultError::DecryptionError));
    assert_eq!(decrypt(&a, &salt, "beta"), Err(VaultError::DecryptionError));
}

#[test]
fn wrong_master_salt_cannot_open() {
    let rec = encrypt("value", &fresh_salt(), "n").unwrap();
    assert_eq!(decrypt(&rec, &fresh_salt(), "n"), Err(VaultError::DecryptionError));
}

#[test]
fn restart_keeps_secrets() {
    let persisted = fresh_salt();
    let mut store = SecretStore::new(persisted.clone());
    set_secret(&mut store, "steam_api_key", "K-123").unwrap();
    set_secret(&mut store, "steam_id", "765").unwrap();
    let records = store.records();
    drop(store);

    let reloaded = get_master_salt(Some(persisted.clone())).unwrap();
    assert!(!reloaded.created);
    assert_eq!(reloaded.bytes, persisted);
    let store = SecretStore::with_records(reloaded.bytes, records);
    assert_eq!(store.len(), 2);
    assert_eq!(get_secret(&store, "steam_api_key").unwrap(), "K-123");
    assert_eq!(get_secret(&store, "steam_id").unwrap(), "765");
}

#[test]
fn later_record_wins_on_load() {
    let salt = fresh_salt();
    let mut store = SecretStore::new(salt.clone());
    set_secret(&mut store, "n", "old").unwrap();
    let mut records = store.records();
    set_secret(&mut store, "n", "new").unwrap();
    records.extend(store.records());
    let loaded = SecretStore::with_records(salt, records);
    assert_eq!(loaded.len(), 1);
    assert_eq!(get_secret(&loaded, "n").unwrap(), "new");
}

#[test]
fn master_salt_of_wrong_length_is_fatal() {
    assert!(matches!(get_master_salt(Some(vec![7u8; 31])), Err(VaultError::ConfigurationError)));
    assert!(matches!(get_master_salt(Some(vec![7u8; 33])), Err(VaultError::ConfigurationError)));
    assert!(matches!(get_master_salt(Some(Vec::new())), Err(VaultError::ConfigurationError)));
    let ok = get_master_salt(Some(vec![7u8; 32])).unwrap();
    assert_eq!(ok.bytes, vec![7u8; 32]);
    assert!(!ok.created);
}

#[test]
fn fresh_master_salts_differ() {
    let a = fresh_salt();
    let b = fresh_salt();
    assert_eq!(a.len(), 32);
    assert_eq!(b.len(), 32);
    assert_ne!(a, b);
}

#[test]
fn derived_keys_are_deterministic_per_name() {
    let salt = [9u8; 48];
    let k1 = derive_key("rawg_api_key", &salt).unwrap();
    let k2 = derive_key("rawg_api_key", &salt).unwrap();
    let k3 = derive_key("steam_api_key", &salt).unwrap();
    assert_eq!(k1, k2);
    assert_ne!(k1, k3);
    assert_ne!(k1, [0u8; 32]);
}

#[test]
fn derivation_refuses_short_salt() {
    assert_eq!(derive_key("n", &[1u8; 7]), Err(VaultError::EncryptionError));
}

#[test]
fn supported_keys_are_listed() {
    assert_eq!(list_supported_keys(), vec!["steam_id", "steam_api_key", "rawg_api_key"]);
}

#[test]
fn seal_with_uses_the_given_draws() {
    let salt = [3u8; 32];
    let nonce = *b"hello world!";
    let record_salt = [5u8; 16];
    let a = game_vault::codec::seal_with("value", &salt, "name", &nonce, &record_salt).unwrap();
    let b = game_vault::codec::seal_with("value", &salt, "name", &nonce, &record_salt).unwrap();
    assert_eq!(a.nonce, "aGVsbG8gd29ybGQh");
    assert_eq!(decode(&a.salt), record_salt.to_vec());
    assert_eq!(decode(&a.ciphertext).len(), 5 + 16);
    assert_eq!(a.ciphertext, b.ciphertext);
    assert_eq!(decrypt(&a, &salt, "name").unwrap(), "value");
}

#[test]
fn seal_with_different_draws_differ() {
    let salt = [3u8; 32];
    let a = game_vault::codec::seal_with("value", &salt, "name", &[1u8; 12], &[5u8; 16]).unwrap();
    let b = game_vault::codec::seal_with("value", &salt, "name", &[2u8; 12], &[6u8; 16]).unwrap();
    assert_ne!(a.nonce, b.nonce);
    assert_ne!(a.salt, b.salt);
    assert_ne!(a.ciphertext, b.ciphertext);
}

#[test]
fn store_set_with_given_draws() {
    let mut store = SecretStore::new(vec![4u8; 32]);
    assert_eq!(
        game_vault::storage::set_secret_with(&mut store, "n", " ", &[0u8; 12], &[0u8; 16]),
        Err(VaultError::ValidationError)
    );
    game_vault::storage::set_secret_with(&mut store, "n", "v", &[7u8; 12], &[8u8; 16]).unwrap();
    assert_eq!(get_secret(&store, "n").unwrap(), "v");
    let rec = store.record(&"n".to_string()).unwrap();
    assert_eq!(decode(&rec.nonce), vec![7u8; 12]);
    assert_eq!(decode(&rec.salt), vec![8u8; 16]);
}
