use rusty_vault::envelope::{to_array, SealedVault, VaultCipher};
use rusty_vault::error::{EnvelopeField, VaultError};
use rusty_vault::json::find_key;

fn counting<const N: usize>() -> [u8; N] {
    let mut bytes = [0u8; N];
    for (i, b) in bytes.iter_mut().enumerate() {
        *b = i as u8;
    }
    bytes
}

fn envelope(salt: &str, nonce: &str, ciphertext: &str) -> VaultCipher {
    VaultCipher {
        kdf_salt_b64: salt.to_string(),
        nonce_b64: nonce.to_string(),
        ciphertext_b64: ciphertext.to_string(),
    }
}

fn failure(result: Result<SealedVault, VaultError>) -> VaultError {
    match result {
        Ok(_) => panic!("the envelope was taken apart"),
        Err(e) => e,
    }
}

fn read_failure(result: Result<VaultCipher, VaultError>) -> VaultError {
    match result {
        Ok(_) => panic!("the text was read as an envelope"),
        Err(e) => e,
    }
}

const SALT: &str = "AAECAwQFBgcICQoLDA0ODw==";
const NONCE: &str = "AAECAwQFBgcICQoL";

#[test]
fn encode_writes_standard_base64() {
    let written = VaultCipher::encode(&[0u8; 16], &[0u8; 12], b"hello").unwrap();
    assert_eq!(written.kdf_salt_b64, "AAAAAAAAAAAAAAAAAAAAAA==");
    assert_eq!(written.nonce_b64, "AAAAAAAAAAAAAAAA");
    assert_eq!(written.ciphertext_b64, "aGVsbG8=");

    let written = VaultCipher::encode(&counting::<16>(), &counting::<12>(), &[0xfb, 0xff, 0xbe]).unwrap();
    assert_eq!(written.kdf_salt_b64, SALT);
    assert_eq!(written.nonce_b64, NONCE);
    assert_eq!(written.ciphertext_b64, "+/++");

    let empty = VaultCipher::encode(&[0u8; 16], &[0u8; 12], b"").unwrap();
    assert_eq!(empty.ciphertext_b64, "");
}

#[test]
fn encoded_text_has_four_characters_for_three_bytes() {
    for len in 0..20usize {
        let written = VaultCipher::encode(&[0u8; 16], &[0u8; 12], &vec![0xa5u8; len]).unwrap();
        assert_eq!(written.ciphertext_b64.len(), 4 * ((len + 2) / 3));
    }
}

#[test]
fn decode_gives_back_what_encode_took() {
    let ciphertext: Vec<u8> = (0..=255u8).collect();
    let written = VaultCipher::encode(&counting::<16>(), &counting::<12>(), &ciphertext).unwrap();
    let parts = written.decode().unwrap();
    assert_eq!(parts.salt, counting::<16>());
    assert_eq!(parts.nonce, counting::<12>());
    assert_eq!(parts.ciphertext, ciphertext);
}

#[test]
fn decode_reads_known_text() {
    let parts = envelope(SALT, NONCE, "aGVsbG8=").decode().unwrap();
    assert_eq!(parts.salt, counting::<16>());
    assert_eq!(parts.nonce, counting::<12>());
    assert_eq!(parts.ciphertext, b"hello");
}

#[test]
fn decode_names_the_field_that_is_no_base64() {
    assert_eq!(
        failure(envelope("not base64!", NONCE, "aGVsbG8=").decode()),
        VaultError::Encoding(EnvelopeField::Salt)
    );
    assert_eq!(
        failure(envelope(SALT, "AAECAwQFBgcICQo*", "aGVsbG8=").decode()),
        VaultError::Encoding(EnvelopeField::Nonce)
    );
    assert_eq!(
        failure(envelope(SALT, NONCE, "aGVsbG8").decode()),
        VaultError::Encoding(EnvelopeField::Ciphertext)
    );
    assert_eq!(
        failure(envelope(SALT, NONCE, "aGVsbG9=").decode()),
        VaultError::Encoding(EnvelopeField::Ciphertext)
    );
    assert_eq!(
        failure(envelope(SALT, NONCE, "aGVs bG8=").decode()),
        VaultError::Encoding(EnvelopeField::Ciphertext)
    );
}

#[test]
fn decode_holds_salt_and_nonce_to_their_sizes() {
    // 15 and 17 bytes of salt, 11 and 13 bytes of nonce
    assert_eq!(
        failure(envelope("AAECAwQFBgcICQoLDA0O", NONCE, "aGVsbG8=").decode()),
        VaultError::Length(EnvelopeField::Salt)
    );
    assert_eq!(
        failure(envelope("AAECAwQFBgcICQoLDA0ODxA=", NONCE, "aGVsbG8=").decode()),
        VaultError::Length(EnvelopeField::Salt)
    );
    assert_eq!(
        failure(envelope("", NONCE, "aGVsbG8=").decode()),
        VaultError::Length(EnvelopeField::Salt)
    );
    assert_eq!(
        failure(envelope(SALT, "AAECAwQFBgcICQo=", "aGVsbG8=").decode()),
        VaultError::Length(EnvelopeField::Nonce)
    );
    assert_eq!(
        failure(envelope(SALT, "AAECAwQFBgcICQoLDA==", "aGVsbG8=").decode()),
        VaultError::Length(EnvelopeField::Nonce)
    );
}

#[test]
fn decode_checks_every_encoding_before_any_size() {
    assert_eq!(
        failure(envelope("AAEC", "***", "aGVsbG8=").decode()),
        VaultError::Encoding(EnvelopeField::Nonce)
    );
    assert_eq!(
        failure(envelope("AAEC", "AAEC", "***").decode()),
        VaultError::Encoding(EnvelopeField::Ciphertext)
    );
    assert_eq!(
        failure(envelope("***", "***", "***").decode()),
        VaultError::Encoding(EnvelopeField::Salt)
    );
    assert_eq!(
        failure(envelope("AAEC", "AAEC", "aGVsbG8=").decode()),
        VaultError::Length(EnvelopeField::Salt)
    );
}

#[test]
fn to_json_writes_the_three_fields() {
    let text = envelope(SALT, NONCE, "aGVsbG8=").to_json().unwrap();
    assert_eq!(
        text,
        "{\n  \"ciphertext_b64\": \"aGVsbG8=\",\n  \"kdf_salt_b64\": \"AAECAwQFBgcICQoLDA0ODw==\",\n  \"nonce_b64\": \"AAECAwQFBgcICQoL\"\n}"
    );
}

#[test]
fn from_json_reads_what_to_json_wrote() {
    let written = envelope(SALT, NONCE, "a+/b\"\\\n\u{e9}");
    let read = VaultCipher::from_json(&written.to_json().unwrap()).unwrap();
    assert_eq!(read.kdf_salt_b64, written.kdf_salt_b64);
    assert_eq!(read.nonce_b64, written.nonce_b64);
    assert_eq!(read.ciphertext_b64, written.ciphertext_b64);
}

#[test]
fn from_json_takes_the_fields_in_any_order() {
    let text = "{\"kdf_salt_b64\":\"S\", \"nonce_b64\":\"N\",\n \"ciphertext_b64\":\"C\"}";
    let read = VaultCipher::from_json(text).unwrap();
    assert_eq!(read.kdf_salt_b64, "S");
    assert_eq!(read.nonce_b64, "N");
    assert_eq!(read.ciphertext_b64, "C");
}

#[test]
fn from_json_refuses_a_missing_field() {
    for text in [
        "{\"nonce_b64\":\"N\",\"ciphertext_b64\":\"C\"}",
        "{\"kdf_salt_b64\":\"S\",\"ciphertext_b64\":\"C\"}",
        "{\"kdf_salt_b64\":\"S\",\"nonce_b64\":\"N\"}",
        "{}",
        "{\"kdf_salt_b64\":\"S\",\"nonce_b64\":\"N\",\"ciphertext\":\"C\"}",
    ] {
        assert_eq!(read_failure(VaultCipher::from_json(text)), VaultError::EnvelopeFormat);
    }
}

#[test]
fn from_json_refuses_an_unknown_field() {
    let text = "{\"kdf_salt_b64\":\"S\",\"nonce_b64\":\"N\",\"ciphertext_b64\":\"C\",\"version\":\"1\"}";
    assert_eq!(read_failure(VaultCipher::from_json(text)), VaultError::EnvelopeFormat);
    let text = "{\"kdf_salt_b64\":\"S\",\"nonce_b64\":\"N\",\"ciphertext_b64\":\"C\",\"version\":1}";
    assert_eq!(read_failure(VaultCipher::from_json(text)), VaultError::EnvelopeFormat);
}

#[test]
fn from_json_refuses_what_is_no_object_of_strings() {
    for text in [
        "",
        "not json",
        "[]",
        "null",
        "\"kdf_salt_b64\"",
        "{\"kdf_salt_b64\":1,\"nonce_b64\":\"N\",\"ciphertext_b64\":\"C\"}",
        "{\"kdf_salt_b64\":null,\"nonce_b64\":\"N\",\"ciphertext_b64\":\"C\"}",
        "{\"kdf_salt_b64\":\"S\",\"nonce_b64\":\"N\",\"ciphertext_b64\":\"C\"",
        "{\"kdf_salt_b64\":\"S\",\"nonce_b64\":\"N\",\"ciphertext_b64\":\"C\"} trailing",
    ] {
        assert_eq!(read_failure(VaultCipher::from_json(text)), VaultError::EnvelopeFormat);
    }
}

#[test]
fn to_array_takes_the_exact_length_only() {
    assert_eq!(to_array::<4>(&[1, 2, 3, 4]), Some([1, 2, 3, 4]));
    assert_eq!(to_array::<4>(&[1, 2, 3]), None);
    assert_eq!(to_array::<4>(&[1, 2, 3, 4, 5]), None);
    assert_eq!(to_array::<0>(&[]), Some([]));
    assert_eq!(to_array::<16>(&counting::<16>()), Some(counting::<16>()));
}

#[test]
fn find_key_gives_the_first_match_or_the_length() {
    let items = vec![
        ("a".to_string(), "1".to_string()),
        ("b".to_string(), "2".to_string()),
        ("a".to_string(), "3".to_string()),
    ];
    assert_eq!(find_key(&items, "a"), 0);
    assert_eq!(find_key(&items, "b"), 1);
    assert_eq!(find_key(&items, "c"), 3);
    assert_eq!(find_key(&Vec::<(String, String)>::new(), "a"), 0);
}
