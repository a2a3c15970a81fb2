use blossom::crypto::{
    b64_decode, b64_encode, decrypt, derive_key, encrypt, gen_nonce, gen_salt, VaultError, KEY_LEN,
    NONCE_LEN, SALT_LEN,
};

#[test]
fn test_derive_key() {
    let passphrase = "password123";
    let salt = gen_salt();
    let key = derive_key(passphrase, &salt).unwrap();
    assert_eq!(key.len(), KEY_LEN);

    let key2 = derive_key(passphrase, &salt).unwrap();
    assert_eq!(key, key2);

    let key3 = derive_key("different", &salt).unwrap();
    assert_ne!(key, key3);
}

#[test]
fn test_encrypt_decrypt() {
    let passphrase = "secure_journal";
    let salt = gen_salt();
    let key = derive_key(passphrase, &salt).unwrap();
    let plaintext = b"Hello, this is a secret entry.";

    let (ciphertext, nonce) = encrypt(&key, plaintext).unwrap();
    assert_ne!(plaintext.to_vec(), ciphertext);

    let decrypted = decrypt(&key, &nonce, &ciphertext).unwrap();
    assert_eq!(plaintext.to_vec(), decrypted);
}

#[test]
fn test_decrypt_failure() {
    let passphrase = "secure_journal";
    let salt = gen_salt();
    let key = derive_key(passphrase, &salt).unwrap();
    let plaintext = b"Secret data";

    let (ciphertext, nonce) = encrypt(&key, plaintext).unwrap();

    let wrong_key = [0u8; KEY_LEN];
    let result = decrypt(&wrong_key, &nonce, &ciphertext);
    assert!(result.is_err());
}

#[test]
fn test_base64() {
    let data = b"some data to encode";
    let encoded = b64_encode(data);
    let decoded = b64_decode(&encoded).unwrap();
    assert_eq!(data.to_vec(), decoded);
}

#[test]
fn derive_key_depends_on_salt() {
    let salt_a = [1u8; SALT_LEN];
    let salt_b = [2u8; SALT_LEN];
    let a = derive_key("same passphrase", &salt_a).unwrap();
    let b = derive_key("same passphrase", &salt_b).unwrap();
    assert_ne!(a, b);
}

#[test]
fn ciphertext_carries_a_sixteen_byte_tag() {
    let key = [7u8; KEY_LEN];
    let (ct, nonce) = encrypt(&key, b"abc").unwrap();
    assert_eq!(ct.len(), 3 + 16);
    assert_eq!(nonce.len(), NONCE_LEN);
    let (empty_ct, nonce2) = encrypt(&key, b"").unwrap();
    assert_eq!(empty_ct.len(), 16);
    assert_eq!(decrypt(&key, &nonce2, &empty_ct).unwrap(), Vec::<u8>::new());
}

#[test]
fn tampered_ciphertext_is_refused() {
    let key = [9u8; KEY_LEN];
    let (mut ct, nonce) = encrypt(&key, b"journal text").unwrap();
    ct[0] ^= 1;
    assert_eq!(decrypt(&key, &nonce, &ct), Err(VaultError::Decrypt));
}

#[test]
fn short_ciphertext_is_refused() {
    let key = [9u8; KEY_LEN];
    let nonce = [0u8; NONCE_LEN];
    assert_eq!(decrypt(&key, &nonce, &[1, 2, 3]), Err(VaultError::Decrypt));
}

#[test]
fn wrong_nonce_is_refused() {
    let key = [3u8; KEY_LEN];
    let (ct, nonce) = encrypt(&key, b"entry").unwrap();
    let mut other = nonce;
    other[0] ^= 0xff;
    assert!(decrypt(&key, &other, &ct).is_err());
}

#[test]
fn nonces_differ_between_calls() {
    let a = gen_nonce();
    let b = gen_nonce();
    assert_ne!(a, b);
    let s = gen_salt();
    let t = gen_salt();
    assert_ne!(s, t);
}

#[test]
fn base64_known_values() {
    assert_eq!(b64_encode(b""), "");
    assert_eq!(b64_encode(b"f"), "Zg==");
    assert_eq!(b64_encode(b"fo"), "Zm8=");
    assert_eq!(b64_encode(b"foo"), "Zm9v");
    assert_eq!(b64_encode(b"foobar"), "Zm9vYmFy");
    assert_eq!(b64_decode("Zm9vYg==").unwrap(), b"foob".to_vec());
}

#[test]
fn base64_invalid_text_is_refused() {
    assert_eq!(b64_decode("not base64!"), Err(VaultError::InvalidBase64));
    assert_eq!(b64_decode("Zm9"), Err(VaultError::InvalidBase64));
}

#[test]
fn error_messages() {
    assert_eq!(
        VaultError::Decrypt.message(),
        "Decryption failed — wrong passphrase or corrupted vault"
    );
    assert_eq!(VaultError::InvalidBase64.message(), "invalid base64");
    assert_eq!(VaultError::SaltLength.message(), "salt must be 32 bytes");
    assert_eq!(VaultError::NonceLength.message(), "nonce must be 12 bytes");
    assert_eq!(VaultError::InvalidKdfParams.message(), "invalid scrypt parameters");
    assert_eq!(VaultError::KeyDerivation.message(), "scrypt key derivation failed");
    assert_eq!(VaultError::Encrypt.message(), "AES-GCM encrypt: aead::Error");
}

#[test]
fn wrong_length_nonce_is_refused() {
    let key = [4u8; KEY_LEN];
    let (ct, _nonce) = encrypt(&key, b"entry").unwrap();
    assert_eq!(decrypt(&key, &[], &ct), Err(VaultError::Decrypt));
    assert_eq!(decrypt(&key, &[0u8; 16], &ct), Err(VaultError::Decrypt));
}

#[test]
fn base64_length() {
    assert_eq!(b64_encode(&[0u8; 7]).len(), 12);
    assert_eq!(b64_encode(&[0u8; 9]).len(), 12);
}
