use base64::Engine;
use decone::bytes::{decode_base64, u64_from_bytes_le};
use decone::error::VaultError;
use decone::key::{DerivedKey, Key, MainKey};
use decone::op_data_01::{decrypt_str_with_key, is_well_formed, strip_front_pad, OpData01};

const DEMO_PASSWORD: &str = "freddy";
const DEMO_SALT: &str = "P0pOMMN6Ow5wIKOOSsaSQg==";
const DEMO_ITERATIONS: usize = 50_000;
const DEMO_OVERVIEW_KEY: &str = "b3BkYXRhMDFAAAAAAAAAAIy1hZwIGeiLn4mLE1R8lEwIOye95GEyfZcPKlyXkkb0IBTfCXM+aDxjD7hOliuTM/YMIqxK+firVvW3c5cp2QMgvQHpDW2AsAQpBqcgBgRUCSP+THMVg15ZeR9lI77mHBpTQ70D+bchvkSmw3hoEGot7YcnQCATbouhMXIMO52D";
const DEMO_OVERVIEW: &str = "b3BkYXRhMDESAAAAAAAAAHw2J+nRQ2h7a9jZ8kH4ser/wKowBqgkJxv+RPujmrB7X53ooYk2wxyfiM2par2J44pCxLcNesV9F+jFCIecxGouN+3F033Ktzm3fKC2pGXy";
const DEMO_OVERVIEW_DECRYPTED: &str = r#"{"title":"Social"}"#;

fn unbase64(text: &str) -> Vec<u8> {
    base64::engine::general_purpose::STANDARD.decode(text.as_bytes()).unwrap()
}

fn demo_derived_key() -> DerivedKey {
    DerivedKey::from_password(DEMO_PASSWORD, &unbase64(DEMO_SALT), DEMO_ITERATIONS).unwrap()
}

fn test_key() -> MainKey {
    MainKey::new((0u8..32).collect(), (100u8..132).collect())
}

/// Seals `plaintext` behind `pad` into a container under `key`.
fn seal(key: &MainKey, iv: &[u8; 16], pad: &[u8], plaintext: &[u8]) -> Vec<u8> {
    let mut padded = pad.to_vec();
    padded.extend_from_slice(plaintext);
    assert_eq!(padded.len() % 16, 0);
    let mut crypter = openssl::symm::Crypter::new(
        openssl::symm::Cipher::aes_256_cbc(),
        openssl::symm::Mode::Encrypt,
        key.enc_key(),
        Some(iv),
    )
    .unwrap();
    crypter.pad(false);
    let mut ciphertext = vec![0u8; padded.len() + 16];
    let mut written = crypter.update(&padded, &mut ciphertext).unwrap();
    written += crypter.finalize(&mut ciphertext[written..]).unwrap();
    ciphertext.truncate(written);
    let mut bytes = b"opdata01".to_vec();
    bytes.extend_from_slice(&(plaintext.len() as u64).to_le_bytes());
    bytes.extend_from_slice(iv);
    bytes.extend_from_slice(&ciphertext);
    let tag = key.compute_mac(&bytes).unwrap();
    bytes.extend_from_slice(&tag);
    bytes
}

#[test]
fn test_validate() {
    let derived_key = demo_derived_key();
    let raw_overview_key_data = unbase64(DEMO_OVERVIEW_KEY);
    let overview_key_data = OpData01::new(raw_overview_key_data).unwrap();
    assert!(overview_key_data.validate(&derived_key));
}

#[test]
fn test_decrypt() {
    let derived_key = demo_derived_key();
    let raw_overview_key_data = unbase64(DEMO_OVERVIEW_KEY);
    let overview_key_data = OpData01::new(raw_overview_key_data).unwrap();
    let overview_key = MainKey::from_op_data(&derived_key, &overview_key_data).unwrap();

    let raw_overview_data = unbase64(DEMO_OVERVIEW);
    let overview_data = OpData01::new(raw_overview_data).unwrap();

    assert!(overview_data.validate(&overview_key));

    let overview = overview_data.decrypt(&overview_key).unwrap();

    assert_eq!(overview, DEMO_OVERVIEW_DECRYPTED.as_bytes());
}

#[test]
fn demo_overview_key_fields() {
    let bytes = unbase64(DEMO_OVERVIEW_KEY);
    let data = OpData01::new(bytes.clone()).unwrap();
    assert_eq!(bytes.len(), 144);
    assert_eq!(data.plaintext_len(), 64);
    assert_eq!(data.iv(), &bytes[16..32]);
    assert_eq!(data.ciphertext(), &bytes[32..112]);
    assert_eq!(data.mac(), &bytes[112..144]);
    assert_eq!(data.payload(), &bytes[..112]);
    assert_eq!(data.as_bytes(), &bytes[..]);
}

#[test]
fn little_endian_decode_is_exact() {
    assert_eq!(u64_from_bytes_le(&[0x12, 0, 0, 0, 0, 0, 0, 0]), 0x12);
    assert_eq!(u64_from_bytes_le(&[1, 2, 3, 4, 5, 6, 7, 8]), 0x0807_0605_0403_0201);
    assert_eq!(u64_from_bytes_le(&[0xff; 8]), u64::MAX);
    assert_eq!(u64_from_bytes_le(&[0, 0, 0, 0, 0, 0, 0, 0x80]), 1u64 << 63);
}

#[test]
fn base64_is_decoded_not_copied() {
    assert_eq!(decode_base64("aGVsbG8=").unwrap(), b"hello");
    assert_eq!(decode_base64("").unwrap(), b"");
    assert!(decode_base64("not base64!").is_none());
    assert!(decode_base64("aGVsbG8").is_none());
}

#[test]
fn wrong_magic_is_malformed() {
    let mut bytes = unbase64(DEMO_OVERVIEW_KEY);
    assert!(is_well_formed(&bytes));
    bytes[7] = b'2';
    assert!(!is_well_formed(&bytes));
    assert!(matches!(OpData01::new(bytes), Err(VaultError::MalformedEnvelope)));
    for i in 0..8 {
        let mut bytes = unbase64(DEMO_OVERVIEW_KEY);
        bytes[i] ^= 0x01;
        assert!(matches!(OpData01::new(bytes), Err(VaultError::MalformedEnvelope)));
    }
}

#[test]
fn short_buffer_is_malformed() {
    let mut bytes = b"opdata01".to_vec();
    bytes.extend_from_slice(&[0u8; 55]);
    assert_eq!(bytes.len(), 63);
    assert!(matches!(OpData01::new(bytes), Err(VaultError::MalformedEnvelope)));
    assert!(matches!(OpData01::new(Vec::new()), Err(VaultError::MalformedEnvelope)));
    assert!(matches!(OpData01::new(b"opdata01".to_vec()), Err(VaultError::MalformedEnvelope)));
}

#[test]
fn smallest_container_is_accepted() {
    let mut bytes = b"opdata01".to_vec();
    bytes.extend_from_slice(&[0u8; 56]);
    assert_eq!(bytes.len(), 64);
    let data = OpData01::new(bytes).unwrap();
    assert_eq!(data.plaintext_len(), 0);
    assert_eq!(data.ciphertext().len(), 0);
    assert_eq!(data.mac(), &[0u8; 32]);
}

#[test]
fn ragged_ciphertext_is_malformed() {
    let mut bytes = b"opdata01".to_vec();
    bytes.extend_from_slice(&[0u8; 57]);
    assert_eq!(bytes.len(), 65);
    assert!(matches!(OpData01::new(bytes), Err(VaultError::MalformedEnvelope)));
}

#[test]
fn overlong_plaintext_is_malformed() {
    let key = test_key();
    let mut bytes = seal(&key, &[7u8; 16], b"", b"0123456789abcdef");
    assert!(OpData01::new(bytes.clone()).is_ok());
    bytes[8] = 17;
    assert!(matches!(OpData01::new(bytes.clone()), Err(VaultError::MalformedEnvelope)));
    bytes[8] = 16;
    bytes[15] = 1;
    assert!(matches!(OpData01::new(bytes), Err(VaultError::MalformedEnvelope)));
}

#[test]
fn bad_base64_is_malformed() {
    assert!(matches!(OpData01::from_base64_str("***"), Err(VaultError::MalformedEnvelope)));
    assert!(matches!(OpData01::from_base64_str("aGVsbG8="), Err(VaultError::MalformedEnvelope)));
    assert!(OpData01::from_base64_str(DEMO_OVERVIEW).is_ok());
}

#[test]
fn round_trip_gives_declared_length() {
    let key = test_key();
    for len in [0usize, 1, 15, 16, 17, 31, 32, 100] {
        let plaintext: Vec<u8> = (0..len).map(|i| i as u8).collect();
        let pad = vec![0xaau8; (16 - len % 16) % 16];
        let data = OpData01::new(seal(&key, &[3u8; 16], &pad, &plaintext)).unwrap();
        assert_eq!(data.plaintext_len(), len);
        let opened = data.decrypt_with_key(&key).unwrap();
        assert_eq!(opened.len(), len);
        assert_eq!(opened, plaintext);
        assert_eq!(key.decrypt_op_data(&data).unwrap(), plaintext);
    }
}

#[test]
fn empty_plaintext_behind_a_block_of_padding() {
    let key = test_key();
    let data = OpData01::new(seal(&key, &[9u8; 16], &[0x55u8; 16], b"")).unwrap();
    assert_eq!(data.plaintext_len(), 0);
    assert_eq!(data.ciphertext().len(), 16);
    assert_eq!(data.decrypt_with_key(&key).unwrap(), Vec::<u8>::new());
}

#[test]
fn front_pad_does_not_reach_the_plaintext() {
    let key = test_key();
    let first = OpData01::new(seal(&key, &[1u8; 16], &[0x00u8; 11], b"hello")).unwrap();
    let second = OpData01::new(seal(&key, &[1u8; 16], &[0xffu8; 11], b"hello")).unwrap();
    assert_ne!(first.ciphertext(), second.ciphertext());
    assert_eq!(first.decrypt_with_key(&key).unwrap(), b"hello");
    assert_eq!(second.decrypt_with_key(&key).unwrap(), b"hello");
    let third = OpData01::new(seal(&key, &[1u8; 16], &[0x42u8; 27], b"hello")).unwrap();
    assert_eq!(third.decrypt_with_key(&key).unwrap(), b"hello");
}

#[test]
fn strip_front_pad_keeps_the_tail() {
    assert_eq!(strip_front_pad(b"....hello", 5).unwrap(), b"hello");
    assert_eq!(strip_front_pad(b"hello", 5).unwrap(), b"hello");
    assert_eq!(strip_front_pad(b"hello", 0).unwrap(), b"");
    assert_eq!(strip_front_pad(b"", 0).unwrap(), b"");
    assert!(strip_front_pad(b"hello", 6).is_none());
}

#[test]
fn any_altered_byte_fails_validation() {
    let key = test_key();
    let bytes = seal(&key, &[5u8; 16], &[0u8; 6], b"0123456789");
    let intact = OpData01::new(bytes.clone()).unwrap();
    assert!(intact.validate_with_key(&key));
    // The first 16 bytes take part in the structural checks, which may reject first.
    for i in 0..bytes.len() {
        let mut altered = bytes.clone();
        altered[i] ^= 0x80;
        match OpData01::new(altered) {
            Ok(data) => {
                assert!(!data.validate_with_key(&key), "byte {} is not covered", i);
                assert!(data.decrypt_with_key(&key).is_none());
            }
            Err(e) => {
                assert!(i < 16);
                assert!(matches!(e, VaultError::MalformedEnvelope));
            }
        }
    }
}

#[test]
fn tag_matches_only_the_own_tag() {
    let key = test_key();
    let data = OpData01::new(seal(&key, &[5u8; 16], b"", b"0123456789abcdef")).unwrap();
    assert!(data.tag_matches(&Some(data.mac().to_vec())));
    assert!(!data.tag_matches(&None));
    assert!(!data.tag_matches(&Some(vec![0u8; 32])));
    assert!(!data.tag_matches(&Some(data.mac()[..31].to_vec())));
    assert!(!data.tag_matches(&Some(Vec::new())));
}

#[test]
fn other_key_fails_validation() {
    let key = test_key();
    let other = MainKey::new(vec![1u8; 32], vec![2u8; 32]);
    let data = OpData01::new(seal(&key, &[5u8; 16], b"", b"0123456789abcdef")).unwrap();
    assert!(!data.validate_with_key(&other));
    assert!(data.decrypt_with_key(&other).is_none());
    assert!(other.decrypt_op_data(&data).is_none());
    // Without the check the cipher still runs, and gives other bytes.
    assert_ne!(data.decrypt(&other).unwrap(), b"0123456789abcdef");
}

#[test]
fn decrypt_aes_takes_only_a_block_sized_vector() {
    let key = test_key();
    assert!(key.decrypt_aes(&[0u8; 15], &[0u8; 16]).is_none());
    assert!(key.decrypt_aes(&[0u8; 17], &[0u8; 16]).is_none());
    assert!(key.decrypt_aes(&[0u8; 16], &[0u8; 15]).is_none());
    assert_eq!(key.decrypt_aes(&[0u8; 16], &[0u8; 32]).unwrap().len(), 32);
    assert_eq!(key.decrypt_aes(&[0u8; 16], &[]).unwrap().len(), 0);
}

#[test]
fn base64_text_is_opened_in_one_go() {
    let derived_key = demo_derived_key();
    let overview_key = MainKey::from_op_data_str(&derived_key, DEMO_OVERVIEW_KEY).unwrap();
    assert_eq!(
        decrypt_str_with_key(DEMO_OVERVIEW, &overview_key).unwrap(),
        DEMO_OVERVIEW_DECRYPTED.as_bytes()
    );
    assert_eq!(decrypt_str_with_key(DEMO_OVERVIEW_KEY, &derived_key).unwrap().len(), 64);
    assert!(decrypt_str_with_key(DEMO_OVERVIEW, &derived_key).is_none());
    assert!(decrypt_str_with_key("***", &overview_key).is_none());
    assert!(decrypt_str_with_key("b3BkYXRhMDE=", &overview_key).is_none());
}
