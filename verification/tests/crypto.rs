use aes_gcm::aead::{Aead, KeyInit};
use aes_gcm::{Aes256Gcm, Key, Nonce};
use base64::engine::general_purpose::STANDARD;
use base64::Engine;
use rustdesk_account_server::crypto::{
    hash_password, new_session_token, token_hash, verify_password, Crypto, CryptoError,
};
use rustdesk_account_server::encoding::hex_lower;

#[test]
fn encrypts_and_decrypts_password() {
    let crypto = Crypto::new(&STANDARD.encode([7_u8; 32])).unwrap();
    let encrypted = crypto.encrypt("secret-value").unwrap();
    assert_ne!(encrypted, "secret-value");
    assert_eq!(crypto.decrypt(&encrypted).unwrap(), "secret-value");
}

#[test]
fn password_hashes_are_salted_argon2id_phc_strings() {
    let first = hash_password("same password").unwrap();
    let second = hash_password("same password").unwrap();
    assert!(first.starts_with("$argon2id$"));
    assert_ne!(first, second);
    assert!(verify_password("same password", &second));
    assert_eq!(token_hash("x").len(), 64);
}

#[test]
fn hashes_and_verifies_password() {
    let hash = hash_password("correct horse battery staple").unwrap();
    assert!(verify_password("correct horse battery staple", &hash));
    assert!(!verify_password("wrong", &hash));
}

#[test]
fn master_key_must_be_base64_of_32_bytes() {
    assert_eq!(Crypto::new("not base64!").err(), Some(CryptoError::KeyNotBase64));
    assert_eq!(
        Crypto::new(&STANDARD.encode([1_u8; 16])).err(),
        Some(CryptoError::KeyWrongLength)
    );
    // Unpadded Base64 is refused by the standard engine.
    let unpadded = STANDARD.encode([7_u8; 32]).trim_end_matches('=').to_owned();
    assert_eq!(Crypto::new(&unpadded).err(), Some(CryptoError::KeyNotBase64));
}

#[test]
fn empty_password_is_stored_empty() {
    let crypto = Crypto::new(&STANDARD.encode([9_u8; 32])).unwrap();
    assert_eq!(crypto.encrypt("").unwrap(), "");
    assert_eq!(crypto.decrypt("").unwrap(), "");
}

#[test]
fn sealed_passwords_hold_nonce_and_tag_and_differ_each_time() {
    let crypto = Crypto::new(&STANDARD.encode([3_u8; 32])).unwrap();
    let first = crypto.encrypt("pässword").unwrap();
    let second = crypto.encrypt("pässword").unwrap();
    // 12 nonce bytes, 9 plaintext bytes, 16 tag bytes.
    assert_eq!(STANDARD.decode(&first).unwrap().len(), 12 + 9 + 16);
    assert_ne!(first, second);
    assert_eq!(crypto.decrypt(&first).unwrap(), "pässword");
    assert_eq!(crypto.decrypt(&second).unwrap(), "pässword");
}

#[test]
fn stored_password_errors() {
    let crypto = Crypto::new(&STANDARD.encode([5_u8; 32])).unwrap();
    assert_eq!(crypto.decrypt("%%%").err(), Some(CryptoError::StoredNotBase64));
    assert_eq!(
        crypto.decrypt(&STANDARD.encode([0_u8; 12])).err(),
        Some(CryptoError::StoredTruncated)
    );
    assert_eq!(
        crypto.decrypt(&STANDARD.encode([0_u8; 40])).err(),
        Some(CryptoError::DecryptionFailed)
    );
    let other = Crypto::new(&STANDARD.encode([6_u8; 32])).unwrap();
    let sealed = other.encrypt("secret").unwrap();
    assert_eq!(crypto.decrypt(&sealed).err(), Some(CryptoError::DecryptionFailed));
}

#[test]
fn session_tokens_are_base64_of_32_bytes() {
    let token = new_session_token();
    assert_eq!(STANDARD.decode(&token).unwrap().len(), 32);
    assert_ne!(token, new_session_token());
}

#[test]
fn token_hash_is_hex_sha256() {
    assert_eq!(
        token_hash("abc"),
        "ba7816bf8f01cfea414140de5dae2223b00361a396177a9cb410ff61f20015ad"
    );
    assert_eq!(
        token_hash(""),
        "e3b0c44298fc1c149afbf4c8996fb92427ae41e4649b934ca495991b7852b855"
    );
}

#[test]
fn hex_is_lowercase_two_digits_per_byte() {
    assert_eq!(hex_lower(&[0x00, 0x0f, 0xa0, 0xff]), "000fa0ff");
}

#[test]
fn unparsable_hash_verifies_nothing() {
    assert!(!verify_password("anything", "plain text"));
    assert!(!verify_password("", ""));
    assert!(!verify_password("anything", "argon2id$v=19$m=19456,t=2,p=1$c2FsdA$aGFzaA"));
}

#[test]
fn stored_password_that_is_not_utf8_is_refused() {
    let key = [5_u8; 32];
    let nonce = [1_u8; 12];
    let cipher = Aes256Gcm::new(Key::<Aes256Gcm>::from_slice(&key));
    let ciphertext = cipher
        .encrypt(Nonce::from_slice(&nonce), &[0xff_u8, 0xfe][..])
        .unwrap();
    let mut stored = nonce.to_vec();
    stored.extend_from_slice(&ciphertext);
    let crypto = Crypto::new(&STANDARD.encode(key)).unwrap();
    assert_eq!(
        crypto.decrypt(&STANDARD.encode(&stored)).err(),
        Some(CryptoError::StoredNotUtf8)
    );
}
