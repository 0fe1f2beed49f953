//! A local, single-user encrypted credential store.
//!
//! Named records are kept in memory as a [`vault::VaultPlain`]; on disk they
//! live inside a [`vault::VaultCipher`] envelope that holds a salt, a nonce and
//! an AES-256-GCM ciphertext, each as base64 text. The key that seals the
//! envelope is stretched from the master password with Argon2id.
//!
//! The library never touches the file system: callers hand it the text of the
//! vault file and write back the text it returns.

pub mod crypto;
pub mod envelope;
pub mod error;
pub mod json;
pub mod names;
pub mod payload;
pub mod records;
pub mod vault;
