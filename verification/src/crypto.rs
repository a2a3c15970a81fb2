//! Key derivation (scrypt), authenticated encryption (AES-256-GCM),
//! Base64 text encoding and random salts and nonces.

use aes_gcm::aead::{Aead, KeyInit};
use vstd::prelude::*;

verus! {

/// Length in bytes of a derived key.
pub const KEY_LEN: usize = 32;

/// Length in bytes of a key-derivation salt.
pub const SALT_LEN: usize = 32;

/// Length in bytes of an AES-GCM nonce.
pub const NONCE_LEN: usize = 12;

/// Errors of the cryptographic layer and of the vault format.
#[derive(Debug, Clone, Copy, PartialEq, Eq, Structural)]
pub enum VaultError {
    /// The scrypt parameters were refused.
    InvalidKdfParams,
    /// scrypt refused to produce the key.
    KeyDerivation,
    /// AES-GCM refused to encrypt (the plaintext is too long).
    Encrypt,
    /// Authentication failed: wrong passphrase or corrupted data.
    Decrypt,
    /// A stored field is not valid Base64.
    InvalidBase64,
    /// The stored salt does not have `SALT_LEN` bytes.
    SaltLength,
    /// The stored nonce does not have `NONCE_LEN` bytes.
    NonceLength,
}

impl VaultError {
    /// The message shown to the user for this error.
    pub fn message(&self) -> (s: String)
        ensures
            s@ == self.message_spec(),
    {
        match self {
            VaultError::InvalidKdfParams => "invalid scrypt parameters".to_owned(),
            VaultError::KeyDerivation => "scrypt key derivation failed".to_owned(),
            VaultError::Encrypt => "AES-GCM encrypt: aead::Error".to_owned(),
            VaultError::Decrypt => "Decryption failed — wrong passphrase or corrupted vault".to_owned(),
            VaultError::InvalidBase64 => "invalid base64".to_owned(),
            VaultError::SaltLength => "salt must be 32 bytes".to_owned(),
            VaultError::NonceLength => "nonce must be 12 bytes".to_owned(),
        }
    }

    pub open spec fn message_spec(&self) -> Seq<char> {
        match self {
            VaultError::InvalidKdfParams => "invalid scrypt parameters"@,
            VaultError::KeyDerivation => "scrypt key derivation failed"@,
            VaultError::Encrypt => "AES-GCM encrypt: aead::Error"@,
            VaultError::Decrypt => "Decryption failed — wrong passphrase or corrupted vault"@,
            VaultError::InvalidBase64 => "invalid base64"@,
            VaultError::SaltLength => "salt must be 32 bytes"@,
            VaultError::NonceLength => "nonce must be 12 bytes"@,
        }
    }
}

// ─── scrypt ────────────────────────────────────────────────────────────────

#[verifier::external_type_specification]
#[verifier::external_body]
pub struct ExScryptParams(scrypt::Params);

#[verifier::external_type_specification]
#[verifier::external_body]
pub struct ExInvalidParams(scrypt::errors::InvalidParams);

#[verifier::external_type_specification]
#[verifier::external_body]
pub struct ExInvalidOutputLen(scrypt::errors::InvalidOutputLen);

/// The conditions under which `scrypt::Params::new` accepts its arguments.
pub open spec fn scrypt_params_valid(log_n: u8, r: u32, p: u32, len: usize) -> bool {
    &&& r > 0
    &&& p > 0
    &&& log_n < usize::BITS
    &&& 10 <= len <= 64
    &&& r * 128 * vstd::arithmetic::power2::pow2(log_n as nat) <= usize::MAX
    &&& r * 128 * p <= usize::MAX
    &&& log_n < r * 16
    &&& r * p < 0x4000_0000
}

/// The bytes that scrypt derives from a password and a salt under the cost
/// parameters `log_n`, `r`, `p`, for an output of `len` bytes.
pub uninterp spec fn scrypt_output(password: Seq<u8>, salt: Seq<u8>, log_n: u8, r: u32, p: u32, len: nat) -> Seq<u8>;

/// Validated scrypt parameters together with the plain values they were
/// built from.
struct KdfParams {
    log_n: u8,
    r: u32,
    p: u32,
    len: usize,
    inner: scrypt::Params,
}

/// Calls `scrypt::Params::new`. Its source accepts the parameters exactly when
/// `scrypt_params_valid` holds; the returned parameters carry the given values.
#[verifier::external_body]
fn scrypt_params(log_n: u8, r: u32, p: u32, len: usize) -> (res: Result<KdfParams, scrypt::errors::InvalidParams>)
    ensures
        res is Ok <==> scrypt_params_valid(log_n, r, p, len),
        res matches Ok(kp) ==> kp.log_n == log_n && kp.r == r && kp.p == p && kp.len == len,
{
    match scrypt::Params::new(log_n, r, p, len) {
        Ok(inner) => Ok(KdfParams { log_n, r, p, len, inner }),
        Err(e) => Err(e),
    }
}

/// Calls `scrypt::scrypt` with an output buffer of `N` bytes. Its source
/// refuses an empty output (and one over (2^32-1)*32 bytes); otherwise the
/// output is the scrypt derivation, named `scrypt_output`.
#[verifier::external_body]
fn scrypt_hash<const N: usize>(password: &[u8], salt: &[u8], params: &KdfParams) -> (res: Result<[u8; N], scrypt::errors::InvalidOutputLen>)
    ensures
        res is Ok <==> (N > 0 && N / 32 <= 0xffff_ffff),
        res matches Ok(out) ==> out@ == scrypt_output(password@, salt@, params.log_n, params.r, params.p, N as nat),
{
    let mut out = [0u8; N];
    match scrypt::scrypt(password, salt, &params.inner, &mut out) {
        Ok(()) => Ok(out),
        Err(e) => Err(e),
    }
}

/// The key that `derive_key` derives: scrypt with N = 2^15, r = 8, p = 1 over
/// the UTF-8 bytes of the passphrase, 32 bytes long.
pub open spec fn derived_key(passphrase: Seq<char>, salt: Seq<u8>) -> Seq<u8> {
    scrypt_output(vstd::utf8::encode_utf8(passphrase), salt, 15, 8, 1, KEY_LEN as nat)
}

/// Derives a 256-bit key using scrypt (N=2^15, r=8, p=1).
pub fn derive_key(passphrase: &str, salt: &[u8]) -> (res: Result<[u8; KEY_LEN], VaultError>)
    ensures
        res matches Ok(key) && key@ == derived_key(passphrase@, salt@),
        res matches Ok(key) && key@ == scrypt_output(vstd::utf8::encode_utf8(passphrase@), salt@, 15u8, 8u32, 1u32, 32nat),
{
    proof {
        vstd::arithmetic::power2::lemma2_to64();
    }
    let params = match scrypt_params(15, 8, 1, KEY_LEN) {
        Ok(p) => p,
        Err(_) => return Err(VaultError::InvalidKdfParams),
    };
    match scrypt_hash::<KEY_LEN>(passphrase.as_bytes(), salt, &params) {
        Ok(key) => Ok(key),
        Err(_) => Err(VaultError::KeyDerivation),
    }
}

/// The journal key is scrypt over the UTF-8 bytes of the passphrase and the
/// salt with the cost parameters N = 2^15 = 32768, r = 8 and p = 1, and it is
/// 32 bytes long.
pub proof fn lemma_key_derivation_cost(passphrase: Seq<char>, salt: Seq<u8>)
    ensures
        derived_key(passphrase, salt) == scrypt_output(vstd::utf8::encode_utf8(passphrase), salt, 15u8, 8u32, 1u32, 32nat),
        vstd::arithmetic::power2::pow2(15) == 32768,
{
    vstd::arithmetic::power2::lemma2_to64();
}

// ─── randomness ────────────────────────────────────────────────────────────

/// Calls `rand::RngCore::fill_bytes` on the thread-local generator of
/// `rand::thread_rng()`. The bytes are random: nothing is promised of them.
/// (The generator panics if the operating system cannot seed it, which no
/// precondition can rule out.)
#[verifier::external_body]
fn fill_random<const N: usize>(buf: &mut [u8; N]) {
    rand::RngCore::fill_bytes(&mut rand::thread_rng(), buf)
}

/// A fresh random key-derivation salt.
pub fn gen_salt() -> [u8; SALT_LEN] {
    let mut buf = [0u8; SALT_LEN];
    fill_random(&mut buf);
    buf
}

/// A fresh random AES-GCM nonce.
pub fn gen_nonce() -> [u8; NONCE_LEN] {
    let mut buf = [0u8; NONCE_LEN];
    fill_random(&mut buf);
    buf
}

// ─── AES-256-GCM ───────────────────────────────────────────────────────────

#[verifier::external_type_specification]
#[verifier::external_body]
pub struct ExAeadError(aes_gcm::Error);

/// The largest plaintext, in bytes, that AES-GCM encrypts.
pub const P_MAX: u64 = 0x10_0000_0000;

/// The ciphertext (with its 16-byte tag appended) that AES-256-GCM produces
/// for a key, a nonce and a plaintext, with no associated data.
pub uninterp spec fn aes256_gcm_seal(key: Seq<u8>, nonce: Seq<u8>, plaintext: Seq<u8>) -> Seq<u8>;

/// What AES-256-GCM decryption gives for a key, a nonce and a ciphertext with
/// its tag, with no associated data: `None` when authentication fails.
pub uninterp spec fn aes256_gcm_open(key: Seq<u8>, nonce: Seq<u8>, ciphertext: Seq<u8>) -> Option<Seq<u8>>;

/// Calls `aes_gcm::aead::Aead::encrypt` on `Aes256Gcm` built by `KeyInit::new`
/// from `key`. Its source refuses a plaintext longer than `P_MAX`; otherwise
/// it returns the ciphertext followed by a 16-byte tag, and decryption of that
/// output under the same key and nonce gives the plaintext back.
#[verifier::external_body]
fn aes256_gcm_encrypt(key: &[u8; KEY_LEN], nonce: &[u8; NONCE_LEN], plaintext: &[u8]) -> (res: Result<Vec<u8>, aes_gcm::Error>)
    ensures
        res is Ok <==> plaintext@.len() <= P_MAX,
        res matches Ok(ct) ==> {
            &&& ct@ == aes256_gcm_seal(key@, nonce@, plaintext@)
            &&& ct@.len() == plaintext@.len() + 16
            &&& aes256_gcm_open(key@, nonce@, ct@) == Some(plaintext@)
        },
{
    let cipher = aes_gcm::Aes256Gcm::new(aes_gcm::Key::<aes_gcm::Aes256Gcm>::from_slice(key));
    cipher.encrypt(aes_gcm::Nonce::from_slice(nonce), plaintext)
}

/// Calls `aes_gcm::aead::Aead::decrypt` on `Aes256Gcm` built by `KeyInit::new`
/// from `key`. `Nonce::from_slice` panics unless the nonce has 12 bytes. The
/// call succeeds exactly when decryption authenticates, and then returns the
/// plaintext; its source fails on a ciphertext shorter than the 16-byte tag.
#[verifier::external_body]
fn aes256_gcm_decrypt(key: &[u8; KEY_LEN], nonce: &[u8], ciphertext: &[u8]) -> (res: Result<Vec<u8>, aes_gcm::Error>)
    requires
        nonce@.len() == NONCE_LEN,
    ensures
        ciphertext@.len() < 16 ==> res is Err,
        match aes256_gcm_open(key@, nonce@, ciphertext@) {
            Some(p) => res matches Ok(q) && q@ == p,
            None => res is Err,
        },
{
    let cipher = aes_gcm::Aes256Gcm::new(aes_gcm::Key::<aes_gcm::Aes256Gcm>::from_slice(key));
    cipher.decrypt(aes_gcm::Nonce::from_slice(nonce), ciphertext)
}

/// Encrypts plaintext with AES-256-GCM under a fresh random nonce; returns
/// (ciphertext, nonce). Decrypting the ciphertext with the same key and nonce
/// gives the plaintext back.
pub fn encrypt(key: &[u8; KEY_LEN], plaintext: &[u8]) -> (res: Result<(Vec<u8>, [u8; NONCE_LEN]), VaultError>)
    ensures
        res is Ok <==> plaintext@.len() <= P_MAX,
        res is Err ==> res == Err::<(Vec<u8>, [u8; NONCE_LEN]), VaultError>(VaultError::Encrypt),
        res matches Ok((ct, nonce)) ==> {
            &&& ct@ == aes256_gcm_seal(key@, nonce@, plaintext@)
            &&& ct@.len() == plaintext@.len() + 16
            &&& aes256_gcm_open(key@, nonce@, ct@) == Some(plaintext@)
        },
{
    let nonce = gen_nonce();
    match aes256_gcm_encrypt(key, &nonce, plaintext) {
        Ok(ct) => Ok((ct, nonce)),
        Err(_) => Err(VaultError::Encrypt),
    }
}

/// Decrypts ciphertext with AES-256-GCM. Fails with `VaultError::Decrypt`
/// exactly when the nonce does not have `NONCE_LEN` bytes or authentication
/// fails.
pub fn decrypt(key: &[u8; KEY_LEN], nonce_bytes: &[u8], ciphertext: &[u8]) -> (res: Result<Vec<u8>, VaultError>)
    ensures
        nonce_bytes@.len() != NONCE_LEN ==> res == Err::<Vec<u8>, VaultError>(VaultError::Decrypt),
        nonce_bytes@.len() == NONCE_LEN ==> match aes256_gcm_open(key@, nonce_bytes@, ciphertext@) {
            Some(p) => res matches Ok(q) && q@ == p,
            None => res == Err::<Vec<u8>, VaultError>(VaultError::Decrypt),
        },
{
    if nonce_bytes.len() != NONCE_LEN {
        return Err(VaultError::Decrypt);
    }
    match aes256_gcm_decrypt(key, nonce_bytes, ciphertext) {
        Ok(p) => Ok(p),
        Err(_) => Err(VaultError::Decrypt),
    }
}

// ─── Base64 ────────────────────────────────────────────────────────────────

#[verifier::external_type_specification]
#[verifier::external_body]
pub struct ExDecodeError(base64::DecodeError);

/// The text of the standard, padded Base64 encoding of some bytes.
pub uninterp spec fn base64_encoding(data: Seq<u8>) -> Seq<char>;

/// What standard, padded Base64 decoding gives for a text: `None` when the
/// text is not valid Base64.
pub uninterp spec fn base64_decoding(text: Seq<char>) -> Option<Seq<u8>>;

/// Calls `base64::Engine::encode` on the `STANDARD` engine. Its source panics
/// when the encoded length overflows `usize`; the output has `encoded_len`
/// characters (four per started group of three bytes) and decodes back to the
/// input.
#[verifier::external_body]
fn base64_encode(data: &[u8]) -> (res: String)
    requires
        data@.len() / 3 * 4 + 4 <= usize::MAX,
    ensures
        res@ == base64_encoding(data@),
        res@.len() == (data@.len() + 2) / 3 * 4,
        base64_decoding(res@) == Some(data@),
{
    base64::Engine::encode(&base64::engine::general_purpose::STANDARD, data)
}

/// Calls `base64::Engine::decode` on the `STANDARD` engine: it succeeds
/// exactly on valid Base64 text, with the decoded bytes.
#[verifier::external_body]
fn base64_decode(text: &str) -> (res: Result<Vec<u8>, base64::DecodeError>)
    ensures
        match base64_decoding(text@) {
            Some(d) => res matches Ok(v) && v@ == d,
            None => res is Err,
        },
{
    base64::Engine::decode(&base64::engine::general_purpose::STANDARD, text)
}

/// Encodes bytes as standard, padded Base64 text.
pub fn b64_encode(data: &[u8]) -> (s: String)
    requires
        data@.len() / 3 * 4 + 4 <= usize::MAX,
    ensures
        s@ == base64_encoding(data@),
        s@.len() == (data@.len() + 2) / 3 * 4,
        base64_decoding(s@) == Some(data@),
{
    base64_encode(data)
}

/// Decodes standard, padded Base64 text.
pub fn b64_decode(s: &str) -> (res: Result<Vec<u8>, VaultError>)
    ensures
        match base64_decoding(s@) {
            Some(d) => res matches Ok(v) && v@ == d,
            None => res == Err::<Vec<u8>, VaultError>(VaultError::InvalidBase64),
        },
{
    match base64_decode(s) {
        Ok(v) => Ok(v),
        Err(_) => Err(VaultError::InvalidBase64),
    }
}

} // verus!
