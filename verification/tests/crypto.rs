use apate::crypto::aead::{decrypt_chacha20poly1305, encrypt_chacha20poly1305};
use apate::crypto::kdf::{derive_key_material, SecretKeyMaterial};
use apate::crypto::kx::{derive_public_key, derive_shared_secret};
use apate::crypto::rng::{fill_random_bytes, next_nonce, next_u32, next_u64, os_seed, seeded_rng, spread_word};
use apate::crypto::sign::{derive_verifying_key, sign_message, verify_message};

#[test]
fn chacha20poly1305_roundtrip() {
    let key = [7_u8; 32];
    let nonce = [1_u8; 12];
    let aad = b"header";
    let plaintext = b"apate test payload";

    let ciphertext =
        encrypt_chacha20poly1305(&key, &nonce, plaintext, aad).expect("encryption should succeed");
    let decrypted =
        decrypt_chacha20poly1305(&key, &nonce, &ciphertext, aad).expect("decryption should succeed");

    assert_eq!(plaintext.to_vec(), decrypted);
}

#[test]
fn kdf_is_deterministic() {
    let first = derive_key_material(b"ikm", b"salt", b"context").expect("first derive");
    let second = derive_key_material(b"ikm", b"salt", b"context").expect("second derive");

    assert_eq!(first, second);
}

#[test]
fn key_material_erase_zeroizes_bytes() {
    let mut material = SecretKeyMaterial::from_bytes([9_u8; 32]);
    material.erase();

    assert_eq!([0_u8; 32], *material.as_bytes());
}

#[test]
fn x25519_shared_secret_matches_both_sides() {
    let alice_secret = [3_u8; 32];
    let bob_secret = [9_u8; 32];

    let alice_public = derive_public_key(alice_secret);
    let bob_public = derive_public_key(bob_secret);

    let shared_a = derive_shared_secret(alice_secret, bob_public).expect("alice shared secret");
    let shared_b = derive_shared_secret(bob_secret, alice_public).expect("bob shared secret");

    assert_eq!(shared_a, shared_b);
}

#[test]
fn seeded_rng_produces_deterministic_nonce_stream() {
    let seed = [5_u8; 32];
    let mut first = seeded_rng(seed);
    let mut second = seeded_rng(seed);

    assert_eq!(next_nonce(&mut first), next_nonce(&mut second));
    assert_eq!(next_nonce(&mut first), next_nonce(&mut second));
}

#[test]
fn ed25519_sign_and_verify_roundtrip() {
    let signing_key = [42_u8; 32];
    let verifying_key = derive_verifying_key(signing_key);
    let message = b"apate-signature";
    let signature = sign_message(signing_key, message);

    assert!(verify_message(verifying_key, message, signature).is_ok());
}

#[test]
fn chacha20poly1305_rejects_tampered_ciphertext() {
    let key = [7_u8; 32];
    let nonce = [1_u8; 12];
    let mut ciphertext = encrypt_chacha20poly1305(&key, &nonce, b"payload", b"aad").expect("seal");
    assert_eq!(b"payload".len() + 16, ciphertext.len());
    assert_ne!(b"payload".to_vec(), ciphertext[..7].to_vec());
    ciphertext[0] ^= 1;
    assert!(decrypt_chacha20poly1305(&key, &nonce, &ciphertext, b"aad").is_err());
}

#[test]
fn ed25519_rejects_other_message() {
    let signing_key = [42_u8; 32];
    let verifying_key = derive_verifying_key(signing_key);
    let signature = sign_message(signing_key, b"apate-signature");
    assert!(verify_message(verifying_key, b"apate-signaturf", signature).is_err());
}

#[test]
fn kdf_depends_on_context() {
    let first = derive_key_material(b"ikm", b"salt", b"context").expect("first derive");
    let second = derive_key_material(b"ikm", b"salt", b"other").expect("second derive");
    assert_ne!(first, second);
    assert_ne!([0_u8; 32], *first.as_bytes());
}

#[test]
fn spread_word_writes_low_bytes_first() {
    let mut buf = [0xAA_u8; 10];
    let end = spread_word(&mut buf, 0, 0x0807_0605_0403_0201);
    assert_eq!(8, end);
    assert_eq!([1, 2, 3, 4, 5, 6, 7, 8, 0xAA, 0xAA], buf);
    let end = spread_word(&mut buf, 8, 0x0000_0000_0000_BBCC);
    assert_eq!(10, end);
    assert_eq!([0xCC, 0xBB], buf[8..]);
}

#[test]
fn os_seed_is_not_constant() {
    let first = os_seed();
    let second = os_seed();
    assert_ne!(first, second);
}

#[test]
fn generator_hands_out_one_key_stream() {
    let seed = [9_u8; 32];
    let mut by_nonce = seeded_rng(seed);
    let first = next_nonce(&mut by_nonce);
    let second = next_nonce(&mut by_nonce);
    let mut by_fill = seeded_rng(seed);
    let mut bytes = [0_u8; 24];
    fill_random_bytes(&mut by_fill, &mut bytes);
    assert_eq!(first[..], bytes[..12]);
    assert_eq!(second[..], bytes[12..]);

    let mut by_word = seeded_rng(seed);
    let w0 = next_u32(&mut by_word);
    let w1 = next_u32(&mut by_word);
    let w2 = next_u32(&mut by_word);
    assert_eq!(w0.to_le_bytes()[..], bytes[..4]);
    let mut by_pair = seeded_rng(seed);
    assert_eq!(u64::from(w0) | (u64::from(w1) << 32), next_u64(&mut by_pair));

    let mut partial = seeded_rng(seed);
    let mut five = [0_u8; 5];
    fill_random_bytes(&mut partial, &mut five);
    assert_eq!(five[..], bytes[..5]);
    assert_eq!(w2, next_u32(&mut partial));
}
