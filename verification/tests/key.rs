use base64::Engine;
use decone::key::{
    accepted_blocks, accepted_tag, split_key_material, DerivedKey, Key, MainKey,
};
use decone::op_data_01::OpData01;

const DEMO_PASSWORD: &str = "freddy";
const DEMO_SALT: &str = "P0pOMMN6Ow5wIKOOSsaSQg==";
const DEMO_ITERATIONS: usize = 50_000;
const DEMO_OVERVIEW_KEY_OP_DATA: &str = "b3BkYXRhMDFAAAAAAAAAAIy1hZwIGeiLn4mLE1R8lEwIOye95GEyfZcPKlyXkkb0IBTfCXM+aDxjD7hOliuTM/YMIqxK+firVvW3c5cp2QMgvQHpDW2AsAQpBqcgBgRUCSP+THMVg15ZeR9lI77mHBpTQ70D+bchvkSmw3hoEGot7YcnQCATbouhMXIMO52D";
const DEMO_OVERVIEW_OP_DATA: &str = "b3BkYXRhMDESAAAAAAAAAHw2J+nRQ2h7a9jZ8kH4ser/wKowBqgkJxv+RPujmrB7X53ooYk2wxyfiM2par2J44pCxLcNesV9F+jFCIecxGouN+3F033Ktzm3fKC2pGXy";
const DEMO_OVERVIEW: &str = r#"{"title":"Social"}"#;

fn demo_salt() -> Vec<u8> {
    base64::engine::general_purpose::STANDARD.decode(DEMO_SALT.as_bytes()).unwrap()
}

#[test]
fn test_derived_key_validates_overview_key_op_data() {
    let salt = demo_salt();
    let derived_key = DerivedKey::from_password(DEMO_PASSWORD, &salt, DEMO_ITERATIONS).unwrap();
    let overview_key_op_data = OpData01::from_base64_str(DEMO_OVERVIEW_KEY_OP_DATA).unwrap();
    assert!(overview_key_op_data.validate_with_key(&derived_key));
}

#[test]
fn test_overview_key_decrypts_overview() {
    let salt = demo_salt();
    let derived_key = DerivedKey::from_password(DEMO_PASSWORD, &salt, DEMO_ITERATIONS).unwrap();
    let overview_key =
        MainKey::from_op_data_str(&derived_key, DEMO_OVERVIEW_KEY_OP_DATA).unwrap();
    let overview = overview_key.decrypt_op_data_str(DEMO_OVERVIEW_OP_DATA).unwrap();
    assert_eq!(overview, DEMO_OVERVIEW.as_bytes());
}

#[test]
fn derived_key_halves_are_32_bytes() {
    let derived_key = DerivedKey::from_password("pw", b"salt", 1).unwrap();
    assert_eq!(derived_key.enc_key().len(), 32);
    assert_eq!(derived_key.mac_key().len(), 32);
}

#[test]
fn derivation_is_repeatable() {
    let salt = demo_salt();
    let first = DerivedKey::from_password(DEMO_PASSWORD, &salt, 1000).unwrap();
    let second = DerivedKey::from_password(DEMO_PASSWORD, &salt, 1000).unwrap();
    assert_eq!(first.enc_key(), second.enc_key());
    assert_eq!(first.mac_key(), second.mac_key());
    let copy = first.clone();
    assert_eq!(first.enc_key(), copy.enc_key());
    assert_eq!(first.mac_key(), copy.mac_key());
}

#[test]
fn derivation_depends_on_every_input() {
    let salt = demo_salt();
    let base = DerivedKey::from_password(DEMO_PASSWORD, &salt, 1000).unwrap();
    let other_password = DerivedKey::from_password("Freddy", &salt, 1000).unwrap();
    let other_salt = DerivedKey::from_password(DEMO_PASSWORD, b"salt", 1000).unwrap();
    let other_count = DerivedKey::from_password(DEMO_PASSWORD, &salt, 1001).unwrap();
    assert_ne!(base.enc_key(), other_password.enc_key());
    assert_ne!(base.mac_key(), other_salt.mac_key());
    assert_ne!(base.enc_key(), other_count.enc_key());
    assert_ne!(base.enc_key(), base.mac_key());
}

#[test]
fn derivation_matches_a_known_answer() {
    // PBKDF2-HMAC-SHA512, password "password", salt "salt", one iteration.
    let key = DerivedKey::from_password("password", b"salt", 1).unwrap();
    let enc = [
        0x86, 0x7f, 0x70, 0xcf, 0x1a, 0xde, 0x02, 0xcf, 0xf3, 0x75, 0x25, 0x99, 0xa3, 0xa5, 0x3d,
        0xc4, 0xaf, 0x34, 0xc7, 0xa6, 0x69, 0x81, 0x5a, 0xe5, 0xd5, 0x13, 0x55, 0x4e, 0x1c, 0x8c,
        0xf2, 0x52,
    ];
    let mac = [
        0xc0, 0x2d, 0x47, 0x0a, 0x28, 0x5a, 0x05, 0x01, 0xba, 0xd9, 0x99, 0xbf, 0xe9, 0x43, 0xc0,
        0x8f, 0x05, 0x02, 0x35, 0xd7, 0xd6, 0x8b, 0x1d, 0xa5, 0x5e, 0x63, 0xf7, 0x3b, 0x60, 0xa5,
        0x7f, 0xce,
    ];
    assert_eq!(key.enc_key(), &enc);
    assert_eq!(key.mac_key(), &mac);
}

#[test]
fn derivation_refuses_oversized_counts() {
    assert!(DerivedKey::from_password("pw", b"salt", 0x8000_0000).is_none());
    assert!(DerivedKey::from_password("pw", b"salt", usize::MAX).is_none());
}

#[test]
fn main_key_is_the_split_digest() {
    let key = MainKey::from_cleartext(b"abc");
    let digest = openssl::sha::sha512(b"abc");
    assert_eq!(digest[0], 0xdd);
    assert_eq!(digest[63], 0x9f);
    assert_eq!(key.enc_key(), &digest[..32]);
    assert_eq!(key.mac_key(), &digest[32..]);
    let empty = MainKey::from_cleartext(b"");
    assert_eq!(empty.enc_key()[0], 0xcf);
    assert_eq!(empty.mac_key()[31], 0x3e);
}

#[test]
fn key_material_is_split_in_the_middle() {
    let material: Vec<u8> = (0u8..64).collect();
    let (enc, mac) = split_key_material(&material);
    assert_eq!(enc, (0u8..32).collect::<Vec<u8>>());
    assert_eq!(mac, (32u8..64).collect::<Vec<u8>>());
}

#[test]
fn mac_matches_a_known_answer() {
    // HMAC-SHA256 with the key of 32 bytes 0x0b..., data "Hi There" differs from the
    // 20-byte key of the RFC, so the tag is checked against OpenSSL's one-shot signer.
    let key = MainKey::new(vec![0u8; 32], vec![0x0bu8; 32]);
    let tag = key.compute_mac(b"Hi There").unwrap();
    assert_eq!(tag.len(), 32);
    let pkey = openssl::pkey::PKey::hmac(&[0x0bu8; 32]).unwrap();
    let mut signer =
        openssl::sign::Signer::new(openssl::hash::MessageDigest::sha256(), &pkey).unwrap();
    let expected = signer.sign_oneshot_to_vec(b"Hi There").unwrap();
    assert_eq!(tag, expected);
    assert_ne!(tag, key.compute_mac(b"Hi there").unwrap());
    assert_ne!(tag, b"Hi There".to_vec());
}

#[test]
fn accepted_tag_takes_only_32_bytes() {
    assert_eq!(accepted_tag(Ok(vec![7u8; 32])), Some(vec![7u8; 32]));
    assert_eq!(accepted_tag(Ok(vec![7u8; 31])), None);
    assert_eq!(accepted_tag(Ok(vec![7u8; 33])), None);
    assert_eq!(accepted_tag(Ok(Vec::new())), None);
    assert_eq!(accepted_tag(Err(openssl::error::ErrorStack::get())), None);
}

#[test]
fn derived_key_comes_only_from_a_successful_derivation() {
    let material: Vec<u8> = (0u8..64).collect();
    let key = DerivedKey::from_derivation(Ok(()), &material).unwrap();
    assert_eq!(key.enc_key(), &material[..32]);
    assert_eq!(key.mac_key(), &material[32..]);
    assert!(DerivedKey::from_derivation(Err(openssl::error::ErrorStack::get()), &material)
        .is_none());
}

#[test]
fn bad_container_text_gives_no_key() {
    let salt = demo_salt();
    let derived_key = DerivedKey::from_password(DEMO_PASSWORD, &salt, DEMO_ITERATIONS).unwrap();
    assert!(MainKey::from_op_data_str(&derived_key, "***").is_none());
    assert!(MainKey::from_op_data_str(&derived_key, "aGVsbG8=").is_none());
    // The overview is sealed under the overview key, not under the derived key.
    assert!(MainKey::from_op_data_str(&derived_key, DEMO_OVERVIEW_OP_DATA).is_none());
    let overview_key =
        MainKey::from_op_data_str(&derived_key, DEMO_OVERVIEW_KEY_OP_DATA).unwrap();
    assert!(overview_key.decrypt_op_data_str("***").is_none());
    assert!(overview_key.decrypt_op_data_str(DEMO_OVERVIEW_KEY_OP_DATA).is_none());
}

#[test]
fn accepted_blocks_takes_only_the_length_asked_for() {
    assert_eq!(accepted_blocks(Ok(vec![7u8; 32]), 32), Some(vec![7u8; 32]));
    assert_eq!(accepted_blocks(Ok(Vec::new()), 0), Some(Vec::new()));
    assert_eq!(accepted_blocks(Ok(vec![7u8; 16]), 32), None);
    assert_eq!(accepted_blocks(Ok(vec![7u8; 48]), 32), None);
    assert_eq!(accepted_blocks(Err(openssl::error::ErrorStack::get()), 0), None);
}

#[test]
fn decrypt_aes_gives_back_as_many_bytes_as_it_takes() {
    let key = MainKey::new(vec![3u8; 32], vec![4u8; 32]);
    for blocks in 0..5usize {
        let data = vec![0x61u8; 16 * blocks];
        assert_eq!(key.decrypt_aes(&[0u8; 16], &data).unwrap().len(), 16 * blocks);
    }
    for len in [1usize, 15, 17, 31, 33] {
        assert!(key.decrypt_aes(&[0u8; 16], &vec![0x61u8; len]).is_none());
    }
}
