//! The failures that opening or sealing a vault can end in.

use vstd::prelude::*;

verus! {

/// One of the three base64 fields of the persisted envelope.
#[derive(Clone, Copy, Debug, PartialEq, Eq, Structural)]
pub enum EnvelopeField {
    Salt,
    Nonce,
    Ciphertext,
}

/// Why an operation on a vault was abandoned. Every failure is final for the
/// operation: nothing is repaired and nothing is defaulted.
#[derive(Clone, Copy, Debug, PartialEq, Eq, Structural)]
pub enum VaultError {
    /// The password hashing primitive rejected its input.
    KeyDerivation,
    /// The cipher refused the plaintext.
    Encryption,
    /// Authentication failed: the key is wrong or the data was altered. The two
    /// causes are deliberately not told apart.
    Decryption,
    /// The vault file is not a document with exactly the three envelope fields.
    EnvelopeFormat,
    /// The named envelope field is not standard base64, or cannot be written as such.
    Encoding(EnvelopeField),
    /// The named envelope field decodes to the wrong number of bytes.
    Length(EnvelopeField),
    /// The decrypted payload is not a serialized record collection.
    PayloadFormat,
}

impl VaultError {
    /// The text shown to the user for this failure. It never contains key
    /// material or record contents.
    pub open spec fn message_spec(self) -> Seq<char> {
        match self {
            VaultError::KeyDerivation => "argon2 key derivation failed"@,
            VaultError::Encryption => "encryption failed"@,
            VaultError::Decryption => "decryption failed: wrong key or corrupted data"@,
            VaultError::EnvelopeFormat => "invalid vault format"@,
            VaultError::Encoding(EnvelopeField::Salt) => "invalid salt b64"@,
            VaultError::Encoding(EnvelopeField::Nonce) => "invalid nonce b64"@,
            VaultError::Encoding(EnvelopeField::Ciphertext) => "invalid ciphertext b64"@,
            VaultError::Length(EnvelopeField::Salt) => "bad salt length"@,
            VaultError::Length(EnvelopeField::Nonce) => "bad nonce length"@,
            VaultError::Length(EnvelopeField::Ciphertext) => "bad ciphertext length"@,
            VaultError::PayloadFormat => "failed to parse decrypted vault"@,
        }
    }

    pub fn message(&self) -> (text: String)
        ensures
            text@ == self.message_spec(),
    {
        let text: &str = match self {
            VaultError::KeyDerivation => "argon2 key derivation failed",
            VaultError::Encryption => "encryption failed",
            VaultError::Decryption => "decryption failed: wrong key or corrupted data",
            VaultError::EnvelopeFormat => "invalid vault format",
            VaultError::Encoding(EnvelopeField::Salt) => "invalid salt b64",
            VaultError::Encoding(EnvelopeField::Nonce) => "invalid nonce b64",
            VaultError::Encoding(EnvelopeField::Ciphertext) => "invalid ciphertext b64",
            VaultError::Length(EnvelopeField::Salt) => "bad salt length",
            VaultError::Length(EnvelopeField::Nonce) => "bad nonce length",
            VaultError::Length(EnvelopeField::Ciphertext) => "bad ciphertext length",
            VaultError::PayloadFormat => "failed to parse decrypted vault",
        };
        text.to_owned()
    }
}

} // verus!
