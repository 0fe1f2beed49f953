//! The persisted envelope: salt, nonce and ciphertext, each as standard
//! base64 text, in one JSON object of exactly three string fields.
//!
//! ```text
//! {
//!   "ciphertext_b64": "<variable length>",
//!   "kdf_salt_b64": "<16 bytes>",
//!   "nonce_b64": "<12 bytes>"
//! }
//! ```
//!
//! Base64 is the work of crate `base64`; its results are named, not restated.

use base64::engine::general_purpose::STANDARD;
use base64::Engine;
use vstd::array::*;
use vstd::prelude::*;
use vstd::utf8::is_ascii_chars;

use crate::error::{EnvelopeField, VaultError};
use crate::json::{
    find_key, first_key_from, json_fields_read, json_fields_written, lookup, read_json_fields,
    write_json_fields,
};
use crate::names::{keys_ascending, lemma_ascii_order};

verus! {

#[verifier::external_type_specification]
#[verifier::external_body]
pub struct ExDecodeError(base64::DecodeError);

/// The standard base64 text, padded, of some bytes.
pub uninterp spec fn base64_text(bytes: Seq<u8>) -> Seq<char>;

/// The bytes that a text stands for in standard base64 with canonical
/// padding, or `None` where the text is no such encoding.
pub uninterp spec fn base64_bytes(text: Seq<char>) -> Option<Seq<u8>>;

/// Whether base64 text for this many bytes has a length that fits in memory.
pub open spec fn encodable(len: nat) -> bool {
    len <= (usize::MAX / 4) * 3
}

/// `Engine::encode` of `base64::engine::general_purpose::STANDARD`. Trusted:
/// the text depends on the bytes alone, has four characters for every three
/// bytes begun, and decodes to the bytes again. Longer input than `requires`
/// admits would overflow the length of the text.
#[verifier::external_body]
fn base64_encode(bytes: &[u8]) -> (text: String)
    requires
        encodable(bytes@.len()),
    ensures
        text@ == base64_text(bytes@),
        text@.len() == 4 * ((bytes@.len() + 2) / 3),
        base64_bytes(text@) == Some(bytes@),
{
    STANDARD.encode(bytes)
}

/// `Engine::decode` of `base64::engine::general_purpose::STANDARD`. Trusted:
/// the outcome depends on the text alone.
#[verifier::external_body]
fn base64_decode(text: &str) -> (out: Result<Vec<u8>, base64::DecodeError>)
    ensures
        out matches Ok(bytes) ==> base64_bytes(text@) == Some(bytes@),
        out is Err ==> base64_bytes(text@) is None,
{
    STANDARD.decode(text)
}

/// The envelope as it is persisted: three base64 texts.
#[derive(Debug)]
pub struct VaultCipher {
    pub kdf_salt_b64: String,
    pub nonce_b64: String,
    pub ciphertext_b64: String,
}

/// The three texts of a [`VaultCipher`].
pub ghost struct VaultCipherView {
    pub kdf_salt_b64: Seq<char>,
    pub nonce_b64: Seq<char>,
    pub ciphertext_b64: Seq<char>,
}

impl View for VaultCipher {
    type V = VaultCipherView;

    open spec fn view(&self) -> VaultCipherView {
        VaultCipherView {
            kdf_salt_b64: self.kdf_salt_b64@,
            nonce_b64: self.nonce_b64@,
            ciphertext_b64: self.ciphertext_b64@,
        }
    }
}

/// The envelope as the cipher takes it: a salt and a nonce of their fixed
/// sizes, and the ciphertext.
pub struct SealedVault {
    pub salt: [u8; 16],
    pub nonce: [u8; 12],
    pub ciphertext: Vec<u8>,
}

/// The bytes of a [`SealedVault`].
pub ghost struct SealedView {
    pub salt: Seq<u8>,
    pub nonce: Seq<u8>,
    pub ciphertext: Seq<u8>,
}

impl View for SealedVault {
    type V = SealedView;

    open spec fn view(&self) -> SealedView {
        SealedView { salt: self.salt@, nonce: self.nonce@, ciphertext: self.ciphertext@ }
    }
}

/// The three fields of an envelope, in ascending order of their names.
pub open spec fn envelope_fields(envelope: VaultCipherView) -> Seq<(Seq<char>, Seq<char>)> {
    seq![
        ("ciphertext_b64"@, envelope.ciphertext_b64),
        ("kdf_salt_b64"@, envelope.kdf_salt_b64),
        ("nonce_b64"@, envelope.nonce_b64),
    ]
}

/// The envelope that a list of fields makes: there are exactly the three
/// fields of an envelope. Anything more or less makes none.
pub open spec fn envelope_of_fields(fields: Seq<(Seq<char>, Seq<char>)>) -> Option<
    VaultCipherView,
> {
    if fields.len() == 3 && lookup(fields, "kdf_salt_b64"@) is Some && lookup(
        fields,
        "nonce_b64"@,
    ) is Some && lookup(fields, "ciphertext_b64"@) is Some {
        Some(
            VaultCipherView {
                kdf_salt_b64: lookup(fields, "kdf_salt_b64"@).unwrap(),
                nonce_b64: lookup(fields, "nonce_b64"@).unwrap(),
                ciphertext_b64: lookup(fields, "ciphertext_b64"@).unwrap(),
            },
        )
    } else {
        None
    }
}

/// The JSON text of an envelope.
pub open spec fn envelope_text(envelope: VaultCipherView) -> Seq<char> {
    json_fields_written(envelope_fields(envelope))
}

/// The envelope that a text holds, if it holds one.
pub open spec fn envelope_read(text: Seq<char>) -> Option<VaultCipherView> {
    match json_fields_read(text) {
        Some(fields) => envelope_of_fields(fields),
        None => None,
    }
}

/// The envelope that carries the given salt, nonce and ciphertext.
pub open spec fn envelope_of_sealed(sealed: SealedView) -> VaultCipherView {
    VaultCipherView {
        kdf_salt_b64: base64_text(sealed.salt),
        nonce_b64: base64_text(sealed.nonce),
        ciphertext_b64: base64_text(sealed.ciphertext),
    }
}

/// What an envelope carries, or why it cannot be taken apart. The three
/// texts are decoded in the order salt, nonce, ciphertext; only then are the
/// sizes of salt and nonce held to 16 and 12 bytes.
pub open spec fn sealed_of_envelope(envelope: VaultCipherView) -> Result<SealedView, VaultError> {
    match base64_bytes(envelope.kdf_salt_b64) {
        None => Err(VaultError::Encoding(EnvelopeField::Salt)),
        Some(salt) => match base64_bytes(envelope.nonce_b64) {
            None => Err(VaultError::Encoding(EnvelopeField::Nonce)),
            Some(nonce) => match base64_bytes(envelope.ciphertext_b64) {
                None => Err(VaultError::Encoding(EnvelopeField::Ciphertext)),
                Some(ciphertext) => if salt.len() != 16 {
                    Err(VaultError::Length(EnvelopeField::Salt))
                } else if nonce.len() != 12 {
                    Err(VaultError::Length(EnvelopeField::Nonce))
                } else {
                    Ok(SealedView { salt, nonce, ciphertext })
                },
            },
        },
    }
}

/// The names of the three fields are plain ASCII and pairwise different.
pub proof fn lemma_field_names()
    ensures
        is_ascii_chars("ciphertext_b64"@),
        is_ascii_chars("kdf_salt_b64"@),
        is_ascii_chars("nonce_b64"@),
        "ciphertext_b64"@[0] == 'c',
        "kdf_salt_b64"@[0] == 'k',
        "nonce_b64"@[0] == 'n',
        "ciphertext_b64"@.len() == 14,
        "kdf_salt_b64"@.len() == 12,
        "nonce_b64"@.len() == 9,
{
    reveal_strlit("ciphertext_b64");
    reveal_strlit("kdf_salt_b64");
    reveal_strlit("nonce_b64");
}

/// The fields of an envelope are in ascending order, and make that envelope.
pub proof fn lemma_envelope_fields(envelope: VaultCipherView)
    ensures
        keys_ascending(envelope_fields(envelope)),
        envelope_of_fields(envelope_fields(envelope)) == Some(envelope),
{
    let fields = envelope_fields(envelope);
    lemma_field_names();
    lemma_ascii_order("ciphertext_b64"@, "kdf_salt_b64"@, 0);
    lemma_ascii_order("kdf_salt_b64"@, "nonce_b64"@, 0);
    lemma_ascii_order("ciphertext_b64"@, "nonce_b64"@, 0);
    reveal_with_fuel(first_key_from, 4);
    assert(first_key_from(fields, "ciphertext_b64"@, 0) == 0);
    assert(first_key_from(fields, "kdf_salt_b64"@, 0) == 1);
    assert(first_key_from(fields, "nonce_b64"@, 0) == 2);
}

/// Copies a slice into an array of its length.
pub fn to_array<const N: usize>(bytes: &[u8]) -> (res: Option<[u8; N]>)
    ensures
        res is Some <==> bytes@.len() == N,
        res matches Some(array) ==> array@ == bytes@,
{
    if bytes.len() != N {
        return None;
    }
    let mut array: [u8; N] = array_fill_for_copy_types(0u8);
    let mut i: usize = 0;
    while i < N
        invariant
            i <= N,
            bytes@.len() == N,
            forall|k: int| 0 <= k < i ==> array@[k] == bytes@[k],
        decreases N - i,
    {
        array[i] = bytes[i];
        i += 1;
    }
    assert(array@ =~= bytes@);
    Some(array)
}

impl VaultCipher {
    /// Writes salt, nonce and ciphertext as the three texts of an envelope.
    pub fn encode(salt: &[u8; 16], nonce: &[u8; 12], ciphertext: &[u8]) -> (res: Result<
        VaultCipher,
        VaultError,
    >)
        ensures
            res is Ok <==> encodable(ciphertext@.len()),
            res matches Err(e) ==> e == VaultError::Encoding(EnvelopeField::Ciphertext),
            res matches Ok(envelope) ==> envelope@ == envelope_of_sealed(
                SealedView { salt: salt@, nonce: nonce@, ciphertext: ciphertext@ },
            ) && sealed_of_envelope(envelope@) == Ok::<SealedView, VaultError>(
                SealedView { salt: salt@, nonce: nonce@, ciphertext: ciphertext@ },
            ),
    {
        if ciphertext.len() > (usize::MAX / 4) * 3 {
            return Err(VaultError::Encoding(EnvelopeField::Ciphertext));
        }
        Ok(
            VaultCipher {
                kdf_salt_b64: base64_encode(salt.as_slice()),
                nonce_b64: base64_encode(nonce.as_slice()),
                ciphertext_b64: base64_encode(ciphertext),
            },
        )
    }

    /// Takes the envelope apart into salt, nonce and ciphertext.
    pub fn decode(&self) -> (res: Result<SealedVault, VaultError>)
        ensures
            match sealed_of_envelope(self@) {
                Ok(sealed) => res matches Ok(parts) && parts@ == sealed,
                Err(e) => res matches Err(failure) && failure == e,
            },
    {
        let salt = match base64_decode(self.kdf_salt_b64.as_str()) {
            Ok(bytes) => bytes,
            Err(_) => { return Err(VaultError::Encoding(EnvelopeField::Salt)); },
        };
        let nonce = match base64_decode(self.nonce_b64.as_str()) {
            Ok(bytes) => bytes,
            Err(_) => { return Err(VaultError::Encoding(EnvelopeField::Nonce)); },
        };
        let ciphertext = match base64_decode(self.ciphertext_b64.as_str()) {
            Ok(bytes) => bytes,
            Err(_) => { return Err(VaultError::Encoding(EnvelopeField::Ciphertext)); },
        };
        let salt = match to_array::<16>(salt.as_slice()) {
            Some(array) => array,
            None => { return Err(VaultError::Length(EnvelopeField::Salt)); },
        };
        let nonce = match to_array::<12>(nonce.as_slice()) {
            Some(array) => array,
            None => { return Err(VaultError::Length(EnvelopeField::Nonce)); },
        };
        Ok(SealedVault { salt, nonce, ciphertext })
    }

    /// The JSON text of the envelope, as it is written to the vault file.
    /// Reading the text back gives the envelope again.
    pub fn to_json(&self) -> (res: Result<String, VaultError>)
        ensures
            res is Ok,
            res matches Ok(text) ==> text@ == envelope_text(self@) && envelope_read(text@) == Some(
                self@,
            ),
    {
        let mut fields: Vec<(String, String)> = Vec::new();
        fields.push(("ciphertext_b64".to_owned(), self.ciphertext_b64.clone()));
        fields.push(("kdf_salt_b64".to_owned(), self.kdf_salt_b64.clone()));
        fields.push(("nonce_b64".to_owned(), self.nonce_b64.clone()));
        proof {
            assert(fields.deep_view() =~= envelope_fields(self@));
            lemma_envelope_fields(self@);
        }
        match write_json_fields(&fields) {
            Ok(text) => Ok(text),
            Err(_) => Err(VaultError::EnvelopeFormat),
        }
    }

    /// Reads an envelope from the text of a vault file. The text must be one
    /// JSON object with the three fields of an envelope, all strings, and no
    /// other field.
    pub fn from_json(text: &str) -> (res: Result<VaultCipher, VaultError>)
        ensures
            match envelope_read(text@) {
                Some(envelope) => res matches Ok(read) && read@ == envelope,
                None => res matches Err(e) && e == VaultError::EnvelopeFormat,
            },
    {
        let fields = match read_json_fields(text) {
            Ok(fields) => fields,
            Err(_) => { return Err(VaultError::EnvelopeFormat); },
        };
        if fields.len() != 3 {
            return Err(VaultError::EnvelopeFormat);
        }
        let salt = find_key(&fields, "kdf_salt_b64");
        let nonce = find_key(&fields, "nonce_b64");
        let ciphertext = find_key(&fields, "ciphertext_b64");
        if salt >= fields.len() || nonce >= fields.len() || ciphertext >= fields.len() {
            return Err(VaultError::EnvelopeFormat);
        }
        Ok(
            VaultCipher {
                kdf_salt_b64: fields[salt].1.clone(),
                nonce_b64: fields[nonce].1.clone(),
                ciphertext_b64: fields[ciphertext].1.clone(),
            },
        )
    }
}

} // verus!
