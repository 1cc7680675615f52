use base64::Engine;
use decone::error::VaultError;
use decone::key::{DerivedKey, Key};
use decone::vault::LockedVault;

const SALT: &str = "P0pOMMN6Ow5wIKOOSsaSQg==";
const OVERVIEW_KEY: &str = "b3BkYXRhMDFAAAAAAAAAAIy1hZwIGeiLn4mLE1R8lEwIOye95GEyfZcPKlyXkkb0IBTfCXM+aDxjD7hOliuTM/YMIqxK+firVvW3c5cp2QMgvQHpDW2AsAQpBqcgBgRUCSP+THMVg15ZeR9lI77mHBpTQ70D+bchvkSmw3hoEGot7YcnQCATbouhMXIMO52D";
const OVERVIEW: &str = "b3BkYXRhMDESAAAAAAAAAHw2J+nRQ2h7a9jZ8kH4ser/wKowBqgkJxv+RPujmrB7X53ooYk2wxyfiM2par2J44pCxLcNesV9F+jFCIecxGouN+3F033Ktzm3fKC2pGXy";

/// The text of a profile file for the password `freddy`: the sample's overview key, and a
/// master key sealed here under the same derived key.
fn profile_js() -> String {
    let salt = base64::engine::general_purpose::STANDARD.decode(SALT).unwrap();
    let derived = DerivedKey::from_password("freddy", &salt, 50_000).unwrap();
    let plaintext = [0x5au8; 64];
    let iv = [0x22u8; 16];
    let mut padded = vec![0u8; 16];
    padded.extend_from_slice(&plaintext);
    let mut crypter = openssl::symm::Crypter::new(
        openssl::symm::Cipher::aes_256_cbc(),
        openssl::symm::Mode::Encrypt,
        derived.enc_key(),
        Some(&iv),
    )
    .unwrap();
    crypter.pad(false);
    let mut ciphertext = vec![0u8; padded.len() + 16];
    let mut written = crypter.update(&padded, &mut ciphertext).unwrap();
    written += crypter.finalize(&mut ciphertext[written..]).unwrap();
    ciphertext.truncate(written);
    let mut bytes = b"opdata01".to_vec();
    bytes.extend_from_slice(&(plaintext.len() as u64).to_le_bytes());
    bytes.extend_from_slice(&iv);
    bytes.extend_from_slice(&ciphertext);
    let tag = derived.compute_mac(&bytes).unwrap();
    bytes.extend_from_slice(&tag);
    let master = base64::engine::general_purpose::STANDARD.encode(&bytes);
    format!(
        "var profile={{\"lastUpdatedBy\":\"Dropbox\",\"updatedAt\":1370323483,\
         \"profileName\":\"default\",\"salt\":\"{}\",\"masterKey\":\"{}\",\"iterations\":50000,\
         \"uuid\":\"2B894A18997C4638BACC55F2D56A4890\",\"overviewKey\":\"{}\",\
         \"createdAt\":1373753414}};",
        SALT, master, OVERVIEW_KEY
    )
}

#[test]
fn full_vault_unlock() {
    let locked = LockedVault::new("test/SampleVault.opvault", &profile_js()).unwrap();
    assert_eq!(locked.path(), "test/SampleVault.opvault");
    assert_eq!(locked.profile().profile_name(), "default");
    let vault = locked.unlock("freddy").unwrap();
    assert_eq!(vault.path(), "test/SampleVault.opvault");
    let overview = vault.profile().overview_key().decrypt_op_data_str(OVERVIEW).unwrap();
    assert_eq!(overview, b"{\"title\":\"Social\"}");
    let digest = openssl::sha::sha512(&[0x5au8; 64]);
    assert_eq!(vault.profile().master_key().enc_key(), &digest[..32]);
    assert_eq!(vault.profile().master_key().mac_key(), &digest[32..]);
}

#[test]
fn wrong_password_leaves_the_vault_locked() {
    let locked = LockedVault::new("test/SampleVault.opvault", &profile_js()).unwrap();
    assert!(locked.unlock("wrong").is_none());
    assert!(locked.unlock("freddy").is_some());
}

#[test]
fn vault_unlocks_the_same_way_twice() {
    let locked = LockedVault::new("v", &profile_js()).unwrap();
    let first = locked.unlock("freddy").unwrap();
    let second = locked.unlock("freddy").unwrap();
    assert_eq!(
        first.profile().master_key().enc_key(),
        second.profile().master_key().enc_key()
    );
    assert_eq!(
        first.profile().overview_key().mac_key(),
        second.profile().overview_key().mac_key()
    );
}

#[test]
fn vault_needs_a_profile() {
    assert!(matches!(LockedVault::new("v", "var profile="), Err(VaultError::MalformedJson(_))));
    assert!(matches!(
        LockedVault::new("v", "var profile={\"createdAt\":1};"),
        Err(VaultError::MalformedProfile(name)) if name == "iterations"
    ));
}

#[test]
fn opened_with_keeps_the_path() {
    let locked = LockedVault::new("some/where", &profile_js()).unwrap();
    assert!(locked.opened_with(None).is_none());
    let profile = locked.profile().unlock("freddy");
    assert_eq!(locked.opened_with(profile).unwrap().path(), "some/where");
}
