use std::collections::BTreeSet;

use rusty_vault::crypto::{
    decrypt, derive_key_from_password, derive_key_with_salt, encrypt, encrypt_with_nonce,
    DerivedKey, KEY_SIZE, MAX_PASSWORD_BYTES, MAX_PLAINTEXT_BYTES, NONCE_SIZE, SALT_SIZE, TAG_SIZE,
};
use rusty_vault::error::VaultError;

fn hex(text: &str) -> Vec<u8> {
    let digits: Vec<u8> = text.bytes().map(|b| (b as char).to_digit(16).unwrap() as u8).collect();
    digits.chunks(2).map(|pair| pair[0] * 16 + pair[1]).collect()
}

fn counting<const N: usize>() -> [u8; N] {
    let mut bytes = [0u8; N];
    for (i, b) in bytes.iter_mut().enumerate() {
        *b = i as u8;
    }
    bytes
}

#[test]
fn sizes_are_those_of_the_primitives() {
    assert_eq!(NONCE_SIZE, 12);
    assert_eq!(SALT_SIZE, 16);
    assert_eq!(KEY_SIZE, 32);
    assert_eq!(TAG_SIZE, 16);
    assert_eq!(MAX_PASSWORD_BYTES, 4_294_967_295);
    assert_eq!(MAX_PLAINTEXT_BYTES, 68_719_476_736);
}

#[test]
fn derived_key_is_argon2id_with_default_cost() {
    let derived = derive_key_with_salt("correct-horse", counting::<16>()).ok().unwrap();
    assert_eq!(
        derived.key.to_vec(),
        hex("60f1262f20be69111e8f5636727ec2527e6978adc312d822c6c137510f44fec7")
    );
    assert_eq!(derived.salt, counting::<16>());
}

#[test]
fn derived_key_of_empty_password_and_zero_salt() {
    let derived = derive_key_from_password("", Some([0u8; 16])).ok().unwrap();
    assert_eq!(
        derived.key.to_vec(),
        hex("f83320d07b31c7609918e28bff0685160f36cd7c065dd08853937548de9728f4")
    );
}

#[test]
fn derivation_is_repeatable_and_keeps_the_salt() {
    let salt = *b"somesaltsomesalt";
    let first = derive_key_from_password("password", Some(salt)).ok().unwrap();
    let second = derive_key_from_password("password", Some(salt)).ok().unwrap();
    assert_eq!(first.key, second.key);
    assert_eq!(first.salt, salt);
    assert_eq!(second.salt, salt);
    assert_eq!(
        first.key.to_vec(),
        hex("2b5dc4054886ec957ef59c73b661c54dd6fb274590b278f657c6d96aac8fa6d1")
    );
}

#[test]
fn other_password_or_other_salt_gives_another_key() {
    let base = derive_key_with_salt("password", [1u8; 16]).ok().unwrap();
    let other_password = derive_key_with_salt("passwore", [1u8; 16]).ok().unwrap();
    let other_salt = derive_key_with_salt("password", [2u8; 16]).ok().unwrap();
    assert_ne!(base.key, other_password.key);
    assert_ne!(base.key, other_salt.key);
}

#[test]
fn derivation_without_salt_draws_a_fresh_one() {
    let first = derive_key_from_password("password", None).ok().unwrap();
    let second = derive_key_from_password("password", None).ok().unwrap();
    assert_ne!(first.salt, second.salt);
    assert_ne!(first.key, second.key);
    let again = derive_key_from_password("password", Some(first.salt)).ok().unwrap();
    assert_eq!(again.key, first.key);
}

#[test]
fn wipe_zeroes_the_key_and_keeps_the_salt() {
    let mut derived = DerivedKey { key: [0xabu8; 32], salt: counting::<16>() };
    derived.wipe();
    assert_eq!(derived.key, [0u8; 32]);
    assert_eq!(derived.salt, counting::<16>());
}

#[test]
fn ciphertext_is_aes_256_gcm() {
    let sealed = encrypt_with_nonce(&[0u8; 32], &[0u8; 12], &[0u8; 16]).unwrap();
    assert_eq!(
        sealed,
        hex("cea7403d4d606b6e074ec5d3baf39d18d0d1c8a799996bf0265b98b5d48ab919")
    );
    let sealed = encrypt_with_nonce(&counting::<32>(), &counting::<12>(), b"hello vault").unwrap();
    assert_eq!(sealed, hex("2f67ba77aac5b47af82de3ddd543c71c3c329b79c5b18481ea2372"));
}

#[test]
fn empty_plaintext_seals_to_the_tag_alone() {
    let sealed = encrypt_with_nonce(&[0u8; 32], &[0u8; 12], b"").unwrap();
    assert_eq!(sealed, hex("530f8afbc74536b9a963b4f1c4cb738b"));
    assert_eq!(decrypt(&[0u8; 32], &[0u8; 12], &sealed).unwrap(), Vec::<u8>::new());
}

#[test]
fn decrypt_reads_known_ciphertext() {
    let sealed = hex("2f67ba77aac5b47af82de3ddd543c71c3c329b79c5b18481ea2372");
    let plain = decrypt(&counting::<32>(), &counting::<12>(), &sealed).unwrap();
    assert_eq!(plain, b"hello vault");
}

#[test]
fn encrypt_then_decrypt_gives_the_plaintext() {
    let key = counting::<32>();
    for plaintext in [&b""[..], &b"x"[..], &b"the quick brown fox"[..], &[0u8; 1000][..]] {
        let (sealed, nonce) = encrypt(&key, plaintext).unwrap();
        assert_eq!(sealed.len(), plaintext.len() + TAG_SIZE);
        assert_eq!(decrypt(&key, &nonce, &sealed).unwrap(), plaintext);
    }
}

#[test]
fn encrypt_with_nonce_is_repeatable() {
    let key = counting::<32>();
    let nonce = counting::<12>();
    let first = encrypt_with_nonce(&key, &nonce, b"same").unwrap();
    let second = encrypt_with_nonce(&key, &nonce, b"same").unwrap();
    assert_eq!(first, second);
    assert_ne!(first, encrypt_with_nonce(&key, &[9u8; 12], b"same").unwrap());
}

#[test]
fn decrypt_under_another_key_fails() {
    let (sealed, nonce) = encrypt(&[1u8; 32], b"secret records").unwrap();
    let mut other = [1u8; 32];
    other[31] ^= 1;
    assert_eq!(decrypt(&other, &nonce, &sealed), Err(VaultError::Decryption));
    assert_eq!(decrypt(&[1u8; 32], &nonce, &sealed).unwrap(), b"secret records");
}

#[test]
fn decrypt_under_another_nonce_fails() {
    let (sealed, nonce) = encrypt(&[1u8; 32], b"secret records").unwrap();
    for i in 0..NONCE_SIZE {
        let mut other = nonce;
        other[i] ^= 0x80;
        assert_eq!(decrypt(&[1u8; 32], &other, &sealed), Err(VaultError::Decryption));
    }
}

#[test]
fn decrypt_of_altered_ciphertext_fails() {
    let key = [7u8; 32];
    let (sealed, nonce) = encrypt(&key, b"secret records").unwrap();
    for i in 0..sealed.len() {
        for bit in [0x01u8, 0x80u8] {
            let mut altered = sealed.clone();
            altered[i] ^= bit;
            assert_eq!(decrypt(&key, &nonce, &altered), Err(VaultError::Decryption));
        }
    }
    let mut longer = sealed.clone();
    longer.push(0);
    assert_eq!(decrypt(&key, &nonce, &longer), Err(VaultError::Decryption));
    let shorter = &sealed[..sealed.len() - 1];
    assert_eq!(decrypt(&key, &nonce, shorter), Err(VaultError::Decryption));
}

#[test]
fn decrypt_of_less_than_a_tag_fails() {
    let key = [7u8; 32];
    for len in 0..TAG_SIZE {
        assert_eq!(decrypt(&key, &[0u8; 12], &vec![0u8; len]), Err(VaultError::Decryption));
    }
}

#[test]
fn a_thousand_encryptions_draw_a_thousand_nonces() {
    let key = [3u8; 32];
    let mut seen = BTreeSet::new();
    for _ in 0..1000 {
        let (_, nonce) = encrypt(&key, b"same plaintext").unwrap();
        assert!(seen.insert(nonce));
    }
    assert_eq!(seen.len(), 1000);
}
