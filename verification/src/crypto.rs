//! Key derivation and authenticated encryption.
//!
//! The primitives themselves are Argon2id (crate `argon2`) and AES-256-GCM
//! (crate `aes-gcm`). What they compute is not restated here: each result has
//! a name, and the functions of this module say which name their output is.

use aes_gcm::aead::{Aead, KeyInit, OsRng};
use rand::RngCore;
use vstd::prelude::*;
use vstd::utf8::encode_utf8;
use zeroize::Zeroize;

use crate::error::VaultError;

verus! {

/// Bytes in an AES-GCM nonce.
pub const NONCE_SIZE: usize = 12;

/// Bytes in the salt that diversifies key derivation.
pub const SALT_SIZE: usize = 16;

/// Bytes in a derived key: exactly what AES-256 takes.
pub const KEY_SIZE: usize = 32;

/// Bytes in the authentication tag that ends every ciphertext.
pub const TAG_SIZE: usize = 16;

/// The longest password, in bytes of UTF-8, that Argon2 hashes.
pub const MAX_PASSWORD_BYTES: u64 = 0xFFFF_FFFF;

/// The longest plaintext, in bytes, that AES-GCM encrypts under one nonce.
pub const MAX_PLAINTEXT_BYTES: u64 = 0x10_0000_0000;

#[verifier::external_type_specification]
#[verifier::external_body]
pub struct ExArgon2Error(argon2::Error);

#[verifier::external_type_specification]
#[verifier::external_body]
pub struct ExAeadError(aes_gcm::Error);

/// The 32 bytes that Argon2id (version 0x13, 19 MiB, 2 passes, 1 lane, no
/// secret, no associated data) derives from a password and a salt.
pub uninterp spec fn argon2id_key(password: Seq<u8>, salt: Seq<u8>) -> Seq<u8>;

/// The ciphertext, tag included, that AES-256-GCM produces for a plaintext
/// under a key and a nonce, with no associated data.
pub uninterp spec fn aes256gcm_sealed(key: Seq<u8>, nonce: Seq<u8>, plaintext: Seq<u8>) -> Seq<u8>;

/// The plaintext that AES-256-GCM recovers from a ciphertext under a key and a
/// nonce, or `None` where the tag does not authenticate it.
pub uninterp spec fn aes256gcm_opened(key: Seq<u8>, nonce: Seq<u8>, ciphertext: Seq<u8>) -> Option<
    Seq<u8>,
>;

/// A symmetric key together with the salt it was derived with.
///
/// The key exists only in memory. Whoever holds a `DerivedKey` calls
/// [`DerivedKey::wipe`] when done with it.
pub struct DerivedKey {
    pub key: [u8; 32],
    pub salt: [u8; 16],
}

/// Whether Argon2 takes this password: its UTF-8 form is at most
/// [`MAX_PASSWORD_BYTES`] long.
pub open spec fn password_accepted(password: Seq<char>) -> bool {
    encode_utf8(password).len() <= MAX_PASSWORD_BYTES
}

/// The key that belongs to a password and a salt.
pub open spec fn derived_key(password: Seq<char>, salt: Seq<u8>) -> Seq<u8> {
    argon2id_key(encode_utf8(password), salt)
}

/// Whether AES-GCM takes a plaintext of this length.
pub open spec fn plaintext_accepted(plaintext: Seq<u8>) -> bool {
    plaintext.len() <= MAX_PLAINTEXT_BYTES
}

/// `Argon2::default().hash_password_into` with a 16-byte salt and a 32-byte
/// output. Trusted: with those two lengths the call fails exactly when the
/// password is longer than `argon2::MAX_PWD_LEN`, and otherwise writes a key
/// that depends on the password and the salt alone.
#[verifier::external_body]
fn argon2id_hash(password: &[u8], salt: &[u8; 16]) -> (out: Result<[u8; 32], argon2::Error>)
    ensures
        out is Ok <==> password@.len() <= MAX_PASSWORD_BYTES,
        out matches Ok(key) ==> key@ == argon2id_key(password@, salt@),
{
    let mut key = [0u8; 32];
    argon2::Argon2::default().hash_password_into(password, salt, &mut key).map(|_| key)
}

/// `Aead::encrypt` of `Aes256Gcm`. Trusted: the call fails exactly when the
/// plaintext is longer than `aes_gcm::P_MAX`; the ciphertext is the encrypted
/// plaintext followed by a 16-byte tag, depends on key, nonce and plaintext
/// alone, and decrypts under the same key and nonce to the plaintext.
#[verifier::external_body]
fn aes256gcm_seal(key: &[u8; 32], nonce: &[u8; 12], plaintext: &[u8]) -> (out: Result<
    Vec<u8>,
    aes_gcm::Error,
>)
    ensures
        out is Ok <==> plaintext@.len() <= MAX_PLAINTEXT_BYTES,
        out matches Ok(sealed) ==> sealed@ == aes256gcm_sealed(key@, nonce@, plaintext@)
            && sealed@.len() == plaintext@.len() + TAG_SIZE
            && aes256gcm_opened(key@, nonce@, sealed@) == Some(plaintext@),
{
    aes_gcm::Aes256Gcm::new(key.into()).encrypt(nonce.into(), plaintext)
}

/// `Aead::decrypt` of `Aes256Gcm`. Trusted: the outcome depends on key, nonce
/// and ciphertext alone; a ciphertext shorter than the tag is refused, and a
/// plaintext that comes back is the ciphertext without its tag in length.
#[verifier::external_body]
fn aes256gcm_open(key: &[u8; 32], nonce: &[u8; 12], ciphertext: &[u8]) -> (out: Result<
    Vec<u8>,
    aes_gcm::Error,
>)
    ensures
        out matches Ok(plain) ==> aes256gcm_opened(key@, nonce@, ciphertext@) == Some(plain@)
            && plain@.len() + TAG_SIZE == ciphertext@.len(),
        out is Err ==> aes256gcm_opened(key@, nonce@, ciphertext@) is None,
        ciphertext@.len() < TAG_SIZE ==> out is Err,
{
    aes_gcm::Aes256Gcm::new(key.into()).decrypt(nonce.into(), ciphertext)
}

/// `RngCore::fill_bytes` of `rand::thread_rng()`: sixteen bytes from the
/// thread's generator. Nothing is claimed of them. The call does not return
/// if the generator cannot be seeded.
#[verifier::external_body]
fn random_salt() -> (salt: [u8; 16]) {
    let mut salt = [0u8; 16];
    rand::thread_rng().fill_bytes(&mut salt);
    salt
}

/// `RngCore::fill_bytes` of `OsRng`: twelve bytes from the operating system.
/// Nothing is claimed of them. The call does not return if the system has no
/// randomness to give.
#[verifier::external_body]
fn random_nonce() -> (nonce: [u8; 12]) {
    let mut nonce = [0u8; 12];
    OsRng.fill_bytes(&mut nonce);
    nonce
}

/// `Zeroize::zeroize` on a byte array. Trusted: every byte is zero afterwards.
#[verifier::external_body]
fn zeroize_bytes(bytes: &mut [u8; 32])
    ensures
        forall|i: int| 0 <= i < 32 ==> final(bytes)@[i] == 0u8,
{
    bytes.zeroize();
}

impl DerivedKey {
    /// Overwrites the key with zeros. The salt is not secret and stays.
    pub fn wipe(&mut self)
        ensures
            final(self).salt == old(self).salt,
            forall|i: int| 0 <= i < KEY_SIZE ==> final(self).key@[i] == 0u8,
    {
        zeroize_bytes(&mut self.key);
    }
}

/// Stretches the master password into a key with the given salt.
///
/// Derivation is repeatable: the same password and salt give the same key,
/// which is how a later open of the vault checks the password.
pub fn derive_key_with_salt(master_password: &str, salt: [u8; 16]) -> (res: Result<
    DerivedKey,
    VaultError,
>)
    ensures
        res is Ok <==> password_accepted(master_password@),
        res matches Err(e) ==> e == VaultError::KeyDerivation,
        res matches Ok(derived) ==> derived.salt == salt && derived.key@ == derived_key(
            master_password@,
            salt@,
        ),
{
    match argon2id_hash(master_password.as_bytes(), &salt) {
        Ok(key) => Ok(DerivedKey { key, salt }),
        Err(_) => Err(VaultError::KeyDerivation),
    }
}

/// Stretches the master password into a key. With `None` for the salt a fresh
/// random one is drawn first, as for a vault that does not exist yet.
pub fn derive_key_from_password(master_password: &str, salt_opt: Option<[u8; 16]>) -> (res: Result<
    DerivedKey,
    VaultError,
>)
    ensures
        res is Ok <==> password_accepted(master_password@),
        res matches Err(e) ==> e == VaultError::KeyDerivation,
        res matches Ok(derived) ==> derived.key@ == derived_key(master_password@, derived.salt@)
            && (salt_opt matches Some(salt) ==> derived.salt == salt),
{
    let salt = match salt_opt {
        Some(salt) => salt,
        None => random_salt(),
    };
    derive_key_with_salt(master_password, salt)
}

/// Encrypts a plaintext under a key and the given nonce. The nonce must never
/// have been used with this key before: [`encrypt`] sees to that.
pub fn encrypt_with_nonce(key: &[u8; 32], nonce: &[u8; 12], plaintext: &[u8]) -> (res: Result<
    Vec<u8>,
    VaultError,
>)
    ensures
        res is Ok <==> plaintext_accepted(plaintext@),
        res matches Err(e) ==> e == VaultError::Encryption,
        res matches Ok(sealed) ==> sealed@ == aes256gcm_sealed(key@, nonce@, plaintext@)
            && sealed@.len() == plaintext@.len() + TAG_SIZE
            && aes256gcm_opened(key@, nonce@, sealed@) == Some(plaintext@),
{
    match aes256gcm_seal(key, nonce, plaintext) {
        Ok(sealed) => Ok(sealed),
        Err(_) => Err(VaultError::Encryption),
    }
}

/// Encrypts a plaintext under a key with a nonce drawn fresh for this call,
/// and returns the ciphertext with that nonce. The caller keeps the nonce
/// beside the ciphertext: without it the ciphertext cannot be read again.
///
/// What comes back decrypts, under the same key and the returned nonce, to the
/// plaintext.
pub fn encrypt(key: &[u8; 32], plaintext: &[u8]) -> (res: Result<(Vec<u8>, [u8; 12]), VaultError>)
    ensures
        res is Ok <==> plaintext_accepted(plaintext@),
        res matches Err(e) ==> e == VaultError::Encryption,
        res matches Ok((sealed, nonce)) ==> sealed@ == aes256gcm_sealed(
            key@,
            nonce@,
            plaintext@,
        ) && sealed@.len() == plaintext@.len() + TAG_SIZE && aes256gcm_opened(key@, nonce@, sealed@)
            == Some(plaintext@),
{
    let nonce = random_nonce();
    match encrypt_with_nonce(key, &nonce, plaintext) {
        Ok(sealed) => Ok((sealed, nonce)),
        Err(e) => Err(e),
    }
}

/// Decrypts a ciphertext under a key and the nonce it was sealed with.
///
/// A wrong key, a wrong nonce and altered data all end in the same
/// [`VaultError::Decryption`]; corrupted plaintext is never returned.
pub fn decrypt(key: &[u8; 32], nonce: &[u8; 12], ciphertext: &[u8]) -> (res: Result<
    Vec<u8>,
    VaultError,
>)
    ensures
        match aes256gcm_opened(key@, nonce@, ciphertext@) {
            Some(plain) => res matches Ok(bytes) && bytes@ == plain && plain.len() + TAG_SIZE
                == ciphertext@.len(),
            None => res == Err::<Vec<u8>, VaultError>(VaultError::Decryption),
        },
        ciphertext@.len() < TAG_SIZE ==> res is Err,
{
    match aes256gcm_open(key, nonce, ciphertext) {
        Ok(plain) => Ok(plain),
        Err(_) => Err(VaultError::Decryption),
    }
}

} // verus!
