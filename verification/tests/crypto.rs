use sealed_store::crypto::secretbox_chacha20_poly1305::{Key, Nonce};
use sealed_store::crypto::hex::{from_hex, to_hex};
use sealed_store::crypto::sha256::fingerprint;
use sealed_store::crypto::sign_ed25519::{PublicKey, SecretKey, Signature};
use sealed_store::crypto::utils::{generate_key, generate_nonce};

#[test]
fn hex_of_no_bytes_is_empty() {
    assert_eq!(to_hex(&[]), "");
}

#[test]
fn hex_writes_two_lower_case_digits_for_each_byte() {
    assert_eq!(to_hex(&[0x00, 0x0f, 0xf0, 0xff, 0x1a, 0xb2]), "000ff0ff1ab2");
    assert_eq!(to_hex(&[0x01, 0x23, 0x45, 0x67, 0x89, 0xab, 0xcd, 0xef]), "0123456789abcdef");
}

#[test]
fn fingerprint_is_the_hex_of_the_sha256_digest() {
    assert_eq!(
        fingerprint(b"abc"),
        "ba7816bf8f01cfea414140de5dae2223b00361a396177a9cb410ff61f20015ad"
    );
    assert_eq!(
        fingerprint(b""),
        "e3b0c44298fc1c149afbf4c8996fb92427ae41e4649b934ca495991b7852b855"
    );
}

#[test]
fn key_from_slice_takes_exactly_32_bytes() {
    let bytes: Vec<u8> = (0u8..32).collect();
    let key = Key::from_slice(&bytes).unwrap();
    assert_eq!(key.as_ref(), &bytes[..]);
    assert!(Key::from_slice(&bytes[..31]).is_none());
    assert!(Key::from_slice(&[0u8; 33]).is_none());
    assert!(Key::from_slice(&[]).is_none());
}

#[test]
fn nonce_from_slice_takes_exactly_12_bytes() {
    let bytes: Vec<u8> = (100u8..112).collect();
    let nonce = Nonce::from_slice(&bytes).unwrap();
    assert_eq!(nonce.as_ref(), &bytes[..]);
    assert!(Nonce::from_slice(&bytes[..11]).is_none());
    assert!(Nonce::from_slice(&[0u8; 13]).is_none());
}

#[test]
fn public_and_secret_keys_take_exactly_32_bytes() {
    let bytes: Vec<u8> = (7u8..39).collect();
    assert_eq!(PublicKey::from_slice(&bytes).unwrap().as_ref(), &bytes[..]);
    assert_eq!(SecretKey::from_slice(&bytes).unwrap().as_ref(), &bytes[..]);
    assert!(PublicKey::from_slice(&bytes[..16]).is_none());
    assert!(SecretKey::from_slice(&[0u8; 64]).is_none());
}

#[test]
fn signature_from_slice_takes_exactly_64_bytes() {
    let bytes: Vec<u8> = (0u8..64).collect();
    assert_eq!(Signature::from_slice(&bytes).unwrap().as_ref(), &bytes[..]);
    assert!(Signature::from_slice(&bytes[..63]).is_none());
    assert!(Signature::from_slice(&[0u8; 65]).is_none());
}

#[test]
fn generated_material_is_fresh_each_time() {
    assert_ne!(generate_key(), generate_key());
    assert_ne!(generate_nonce(), generate_nonce());
    assert_ne!(generate_key(), [0u8; 32]);
}

#[test]
fn hex_is_read_back_as_bytes() {
    assert_eq!(from_hex(""), Some(vec![]));
    assert_eq!(from_hex("000ff0ff1ab2"), Some(vec![0x00, 0x0f, 0xf0, 0xff, 0x1a, 0xb2]));
    assert_eq!(from_hex("0123456789abcdef"), from_hex("0123456789ABCDEF"));
    assert_eq!(from_hex("AbCd"), Some(vec![0xab, 0xcd]));
    let bytes: Vec<u8> = (0..=255).collect();
    assert_eq!(from_hex(&to_hex(&bytes)), Some(bytes));
}

#[test]
fn text_that_is_not_hex_is_not_read() {
    assert_eq!(from_hex("0"), None);
    assert_eq!(from_hex("abc"), None);
    assert_eq!(from_hex("0g"), None);
    assert_eq!(from_hex("g0"), None);
    assert_eq!(from_hex("0x10"), None);
    assert_eq!(from_hex(" 10 "), None);
    assert_eq!(from_hex("1/"), None);
    assert_eq!(from_hex("1:"), None);
    assert_eq!(from_hex("1@"), None);
    assert_eq!(from_hex("1G"), None);
    assert_eq!(from_hex("1`"), None);
    assert_eq!(from_hex("é0"), None);
    assert_eq!(from_hex("é"), None);
}
