use twitch_music_bot::crypto::{decrypt, derive_key_from_secret, encrypt, generate_token, CryptoError};

#[test]
fn roundtrip() {
    let key = derive_key_from_secret("test_encryption_key_32_bytes_long!!").unwrap();
    let plain = "oauth-token-abc123";
    let encrypted = encrypt(&key, plain).unwrap();
    assert_ne!(encrypted, plain);
    assert_eq!(decrypt(&key, &encrypted).unwrap(), plain);
}

#[test]
fn rejects_short_key() {
    assert!(derive_key_from_secret("short").is_err());
}

#[test]
fn token_length() {
    let t = generate_token(32);
    assert!(!t.is_empty());
}

#[test]
fn token_is_unpadded_base64url_of_the_byte_count() {
    // 32 characters ask for ceil(96 / 4) = 24 random bytes: 32 base64 characters.
    let t = generate_token(32);
    assert_eq!(t.len(), 32);
    assert!(t.chars().all(|c| c.is_ascii_alphanumeric() || c == '-' || c == '_'));
    // Short requests still draw 16 bytes: 22 characters.
    assert_eq!(generate_token(0).len(), 22);
    assert_eq!(generate_token(4).len(), 22);
}

#[test]
fn tokens_differ_between_calls() {
    assert_ne!(generate_token(48), generate_token(48));
}

#[test]
fn key_needs_32_bytes() {
    assert!(matches!(derive_key_from_secret("0123456789abcdef0123456789abcde"), Err(CryptoError::KeyTooShort)));
    assert!(derive_key_from_secret("0123456789abcdef0123456789abcdef").is_ok());
}

#[test]
fn key_is_the_secret_xor_folded_into_32_bytes() {
    let secret = "0123456789abcdef0123456789abcdefAB";
    let key = derive_key_from_secret(secret).unwrap();
    let b = secret.as_bytes();
    let mut expected = [0u8; 32];
    for (i, x) in b.iter().enumerate() {
        expected[i % 32] ^= x;
    }
    assert_eq!(key, expected);
    assert_eq!(key[0], b'0' ^ b'A');
    assert_eq!(key[1], b'1' ^ b'B');
    assert_eq!(key[2], b'2');
}

#[test]
fn ciphertext_is_fresh_each_time() {
    let key = derive_key_from_secret("test_encryption_key_32_bytes_long!!").unwrap();
    let a = encrypt(&key, "same text").unwrap();
    let b = encrypt(&key, "same text").unwrap();
    assert_ne!(a, b);
    assert_eq!(decrypt(&key, &a).unwrap(), "same text");
    assert_eq!(decrypt(&key, &b).unwrap(), "same text");
}

#[test]
fn empty_plaintext_roundtrips() {
    let key = derive_key_from_secret("test_encryption_key_32_bytes_long!!").unwrap();
    let e = encrypt(&key, "").unwrap();
    // 12 nonce bytes and a 16-byte tag: 28 bytes, 38 base64 characters.
    assert_eq!(e.len(), 38);
    assert_eq!(decrypt(&key, &e).unwrap(), "");
}

#[test]
fn decrypt_rejects_bad_base64() {
    let key = derive_key_from_secret("test_encryption_key_32_bytes_long!!").unwrap();
    assert!(matches!(decrypt(&key, "not base64!"), Err(CryptoError::InvalidPayload(_))));
}

#[test]
fn decrypt_rejects_short_payload() {
    let key = derive_key_from_secret("test_encryption_key_32_bytes_long!!").unwrap();
    assert!(matches!(decrypt(&key, ""), Err(CryptoError::PayloadTooShort)));
    // 12 bytes: a nonce and nothing else.
    assert!(matches!(decrypt(&key, "AAAAAAAAAAAAAAAA"), Err(CryptoError::PayloadTooShort)));
}

#[test]
fn decrypt_rejects_wrong_key_and_tampering() {
    let key = derive_key_from_secret("test_encryption_key_32_bytes_long!!").unwrap();
    let other = derive_key_from_secret("another_encryption_key_32_bytes!!").unwrap();
    let e = encrypt(&key, "secret").unwrap();
    assert!(matches!(decrypt(&other, &e), Err(CryptoError::Decryption(_))));
    let mut chars: Vec<char> = e.chars().collect();
    let last = chars.len() - 5;
    chars[last] = if chars[last] == 'A' { 'B' } else { 'A' };
    let tampered: String = chars.into_iter().collect();
    assert!(matches!(decrypt(&key, &tampered), Err(CryptoError::Decryption(_))));
}
