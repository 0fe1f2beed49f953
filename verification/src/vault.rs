//! Opening and saving a vault.
//!
//! A vault file holds one envelope. Opening it derives the key from the
//! master password and the stored salt, decrypts the ciphertext and parses
//! the records; whether the password was right shows in whether decryption
//! succeeds, and in nothing else. Saving serializes all records, encrypts them
//! under a fresh nonce and writes a whole new envelope.
//!
//! Reading and writing the file itself is left to the caller.

use vstd::prelude::*;

use crate::crypto::{
    aes256gcm_opened, aes256gcm_sealed, decrypt, derive_key_from_password, derived_key, encrypt,
    encrypt_with_nonce, password_accepted, plaintext_accepted, DerivedKey, TAG_SIZE,
};
use crate::envelope::{
    encodable, envelope_of_sealed, envelope_read, envelope_text, sealed_of_envelope, SealedView,
};
use crate::error::{EnvelopeField, VaultError};
use crate::payload::{parse, payload_of, rows_of_payload, serialize};
use crate::records::EntryView;

pub use crate::envelope::VaultCipher;
pub use crate::records::{Entry, VaultPlain};

verus! {

/// What opening a vault gives: the records, the key and the salt it was
/// derived with.
pub ghost struct OpenedView {
    pub rows: Seq<(Seq<char>, EntryView)>,
    pub key: Seq<u8>,
    pub salt: Seq<u8>,
}

/// Salt, nonce and ciphertext of the envelope that a text holds, or why the
/// text gives none.
pub open spec fn sealed_read(text: Seq<char>) -> Result<SealedView, VaultError> {
    match envelope_read(text) {
        None => Err(VaultError::EnvelopeFormat),
        Some(envelope) => sealed_of_envelope(envelope),
    }
}

/// The records that a key reads out of an envelope, or why it reads none.
pub open spec fn unsealed(key: Seq<u8>, sealed: SealedView) -> Result<
    Seq<(Seq<char>, EntryView)>,
    VaultError,
> {
    match aes256gcm_opened(key, sealed.nonce, sealed.ciphertext) {
        None => Err(VaultError::Decryption),
        Some(payload) => match rows_of_payload(payload) {
            None => Err(VaultError::PayloadFormat),
            Some(rows) => Ok(rows),
        },
    }
}

/// What opening the text of a vault file with a password gives. The stages
/// run in this order, and the first that fails decides the error: reading the
/// envelope, decoding its fields, deriving the key, decrypting, parsing.
pub open spec fn opened(password: Seq<char>, text: Seq<char>) -> Result<OpenedView, VaultError> {
    match sealed_read(text) {
        Err(e) => Err(e),
        Ok(sealed) => if !password_accepted(password) {
            Err(VaultError::KeyDerivation)
        } else {
            match unsealed(derived_key(password, sealed.salt), sealed) {
                Err(e) => Err(e),
                Ok(rows) => Ok(
                    OpenedView { rows, key: derived_key(password, sealed.salt), salt: sealed.salt },
                ),
            }
        },
    }
}

/// The envelope of the given records under a key, its salt and a nonce.
pub open spec fn sealed_parts(
    key: Seq<u8>,
    salt: Seq<u8>,
    nonce: Seq<u8>,
    rows: Seq<(Seq<char>, EntryView)>,
) -> SealedView {
    SealedView { salt, nonce, ciphertext: aes256gcm_sealed(key, nonce, payload_of(rows)) }
}

/// The text of the vault file for the given records under a key, its salt
/// and a nonce.
pub open spec fn sealed_text(
    key: Seq<u8>,
    salt: Seq<u8>,
    nonce: Seq<u8>,
    rows: Seq<(Seq<char>, EntryView)>,
) -> Seq<char> {
    envelope_text(envelope_of_sealed(sealed_parts(key, salt, nonce, rows)))
}

/// Whether the records can be sealed: their serialized form is short enough
/// for the cipher, and the ciphertext short enough to be written as text.
pub open spec fn sealable(rows: Seq<(Seq<char>, EntryView)>) -> bool {
    plaintext_accepted(payload_of(rows)) && encodable((payload_of(rows).len() + TAG_SIZE) as nat)
}

/// Why records that cannot be sealed cannot.
pub open spec fn seal_failure(rows: Seq<(Seq<char>, EntryView)>) -> VaultError {
    if !plaintext_accepted(payload_of(rows)) {
        VaultError::Encryption
    } else {
        VaultError::Encoding(EnvelopeField::Ciphertext)
    }
}

/// Whether the text is a vault file that holds the given records for the
/// holder of the key: it reads as the envelope of salt and nonce, the key
/// reads the records out of it, and so does every password that the key
/// belongs to.
pub open spec fn holds_records(
    text: Seq<char>,
    key: Seq<u8>,
    salt: Seq<u8>,
    nonce: Seq<u8>,
    rows: Seq<(Seq<char>, EntryView)>,
) -> bool {
    &&& text == sealed_text(key, salt, nonce, rows)
    &&& sealed_read(text) == Ok::<SealedView, VaultError>(sealed_parts(key, salt, nonce, rows))
    &&& unsealed(key, sealed_parts(key, salt, nonce, rows)) == Ok::<
        Seq<(Seq<char>, EntryView)>,
        VaultError,
    >(rows)
    &&& forall|password: Seq<char>|
        password_accepted(password) && derived_key(password, salt) == key ==> #[trigger] opened(
            password,
            text,
        ) == Ok::<OpenedView, VaultError>(OpenedView { rows, key, salt })
}

/// Opens the vault that the text of a vault file holds.
///
/// Nothing is recovered from a failure: a wrong password or a damaged file
/// never gives an empty or a partial vault.
pub fn open_vault(master_password: &str, text: &str) -> (res: Result<
    (VaultPlain, DerivedKey),
    VaultError,
>)
    ensures
        match opened(master_password@, text@) {
            Ok(o) => res matches Ok((vault, derived)) && vault.wf() && vault.rows() == o.rows
                && derived.key@ == o.key && derived.salt@ == o.salt,
            Err(e) => res matches Err(failure) && failure == e,
        },
{
    let envelope = match VaultCipher::from_json(text) {
        Ok(envelope) => envelope,
        Err(e) => { return Err(e); },
    };
    let sealed = match envelope.decode() {
        Ok(sealed) => sealed,
        Err(e) => { return Err(e); },
    };
    let mut derived = match derive_key_from_password(master_password, Some(sealed.salt)) {
        Ok(derived) => derived,
        Err(e) => { return Err(e); },
    };
    let payload = match decrypt(&derived.key, &sealed.nonce, sealed.ciphertext.as_slice()) {
        Ok(payload) => payload,
        Err(e) => {
            derived.wipe();
            return Err(e);
        },
    };
    match parse(payload.as_slice()) {
        Ok(vault) => Ok((vault, derived)),
        Err(e) => {
            derived.wipe();
            Err(e)
        },
    }
}

/// Opens the vault whose file holds `stored`, or starts a new one where there
/// is no file yet (`None`).
///
/// A new vault is empty and its key is derived with a fresh salt; nothing is
/// written until the caller saves. An existing vault is opened as
/// [`open_vault`] does, and a failure there is final: it never falls back to
/// an empty vault.
pub fn load_or_init(master_password: &str, stored: Option<&str>) -> (res: Result<
    (VaultPlain, DerivedKey),
    VaultError,
>)
    ensures
        stored matches Some(text) ==> match opened(master_password@, text@) {
            Ok(o) => res matches Ok((vault, derived)) && vault.wf() && vault.rows() == o.rows
                && derived.key@ == o.key && derived.salt@ == o.salt,
            Err(e) => res matches Err(failure) && failure == e,
        },
        stored is None ==> (res is Ok <==> password_accepted(master_password@)),
        stored is None ==> (res matches Err(e) ==> e == VaultError::KeyDerivation),
        stored is None ==> (res matches Ok((vault, derived)) ==> vault.wf() && vault.rows()
            == Seq::<(Seq<char>, EntryView)>::empty() && derived.key@ == derived_key(
            master_password@,
            derived.salt@,
        )),
{
    match stored {
        Some(text) => open_vault(master_password, text),
        None => match derive_key_from_password(master_password, None) {
            Ok(derived) => Ok((VaultPlain::new(), derived)),
            Err(e) => Err(e),
        },
    }
}

/// Seals the records under the key and the given nonce, and returns the text
/// of the vault file. The nonce must never have been used with this key
/// before: [`save`] sees to that.
pub fn seal_with_nonce(master_key: &DerivedKey, vault: &VaultPlain, nonce: &[u8; 12]) -> (res:
    Result<String, VaultError>)
    requires
        vault.wf(),
    ensures
        res is Ok <==> sealable(vault.rows()),
        res matches Err(e) ==> e == seal_failure(vault.rows()),
        res matches Ok(text) ==> holds_records(
            text@,
            master_key.key@,
            master_key.salt@,
            nonce@,
            vault.rows(),
        ),
{
    let payload = match serialize(vault) {
        Ok(payload) => payload,
        Err(e) => { return Err(e); },
    };
    let ciphertext = match encrypt_with_nonce(&master_key.key, nonce, payload.as_slice()) {
        Ok(ciphertext) => ciphertext,
        Err(e) => { return Err(e); },
    };
    let envelope = match VaultCipher::encode(&master_key.salt, nonce, ciphertext.as_slice()) {
        Ok(envelope) => envelope,
        Err(e) => { return Err(e); },
    };
    envelope.to_json()
}

/// Seals all records under the key with a nonce drawn fresh for this call,
/// and returns the text that replaces the whole vault file.
///
/// The text opens again, under the same key and under every password the key
/// belongs to, to exactly the records that were saved.
pub fn save(master_key: &DerivedKey, vault: &VaultPlain) -> (res: Result<String, VaultError>)
    requires
        vault.wf(),
    ensures
        res is Ok <==> sealable(vault.rows()),
        res matches Err(e) ==> e == seal_failure(vault.rows()),
        res matches Ok(text) ==> exists|nonce: Seq<u8>|
            nonce.len() == 12 && #[trigger] holds_records(
                text@,
                master_key.key@,
                master_key.salt@,
                nonce,
                vault.rows(),
            ),
{
    let payload = match serialize(vault) {
        Ok(payload) => payload,
        Err(e) => { return Err(e); },
    };
    let (ciphertext, nonce) = match encrypt(&master_key.key, payload.as_slice()) {
        Ok(sealed) => sealed,
        Err(e) => { return Err(e); },
    };
    let envelope = match VaultCipher::encode(&master_key.salt, &nonce, ciphertext.as_slice()) {
        Ok(envelope) => envelope,
        Err(e) => { return Err(e); },
    };
    let res = envelope.to_json();
    proof {
        if res is Ok {
            assert(holds_records(
                res->Ok_0@,
                master_key.key@,
                master_key.salt@,
                nonce@,
                vault.rows(),
            ));
        }
    }
    res
}

} // verus!
