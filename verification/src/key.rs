//! Key pairs: an encryption key and a MAC key of 32 bytes each.

use vstd::prelude::*;
use vstd::slice::slice_subrange;
use vstd::slice::slice_to_vec;
use vstd::string::StringSliceAdditionalSpecFns;
use crate::bytes::base64_decoded;
use crate::crypto::{
    aes_256_cbc_decrypt, aes_256_cbc_decrypt_raw, hmac_sha256, hmac_sha256_raw,
    pbkdf2_hmac_sha512, pbkdf2_hmac_sha512_raw, sha512, sha512_raw, AES_BLOCK_LEN, MAC_LEN,
    MAX_BUFFER_LEN,
};
use crate::op_data_01::{
    decrypt_str_with_key, spec_authentic_bytes, spec_declared_len, spec_openable,
    spec_plaintext_of, spec_well_formed, OpData01,
};

verus! {

/// Length in bytes of each half of a key pair.
pub const KEY_LEN: usize = 32;

/// Length in bytes of the material that a key pair is cut from.
pub const KEY_MATERIAL_LEN: usize = 64;

/// The tag that a MAC computation is taken to have produced: the bytes that came back, provided
/// that the computation succeeded and that they have a tag's length.
pub open spec fn spec_accepted_tag(computed: Result<Vec<u8>, openssl::error::ErrorStack>) -> Option<
    Seq<u8>,
> {
    match computed {
        Ok(tag) => if tag@.len() == MAC_LEN {
            Some(tag@)
        } else {
            None
        },
        Err(_) => None,
    }
}

/// Keeps the outcome of a MAC computation only if it succeeded with a tag of 32 bytes.
pub fn accepted_tag(computed: Result<Vec<u8>, openssl::error::ErrorStack>) -> (tag: Option<
    Vec<u8>,
>)
    ensures
        match tag {
            Some(t) => spec_accepted_tag(computed) == Some(t@),
            None => spec_accepted_tag(computed) is None,
        },
{
    match computed {
        Ok(tag) => {
            if tag.len() == MAC_LEN {
                Some(tag)
            } else {
                None
            }
        },
        Err(_) => None,
    }
}

/// Anything that holds an encryption key and a MAC key of 32 bytes each.
///
/// The two operations are the same for every kind of key, so callers need not know which kind
/// they hold.
pub trait Key {
    /// The encryption key.
    spec fn spec_enc_key(&self) -> Seq<u8>;

    /// The MAC key.
    spec fn spec_mac_key(&self) -> Seq<u8>;

    /// The encryption key, 32 bytes.
    fn enc_key(&self) -> (key: &[u8])
        ensures
            key@ == self.spec_enc_key(),
            key@.len() == KEY_LEN,
    ;

    /// The MAC key, 32 bytes.
    fn mac_key(&self) -> (key: &[u8])
        ensures
            key@ == self.spec_mac_key(),
            key@.len() == KEY_LEN,
    ;

    /// HMAC-SHA256 over `bytes` with the MAC key. Absent when OpenSSL reports a failure or
    /// hands back something that is not 32 bytes long.
    fn compute_mac(&self, bytes: &[u8]) -> (tag: Option<Vec<u8>>)
        ensures
            tag matches Some(t) ==> t@ == hmac_sha256(self.spec_mac_key(), bytes@) && t@.len()
                == MAC_LEN,
    {
        accepted_tag(hmac_sha256_raw(self.mac_key(), bytes))
    }

    /// AES-256-CBC decryption of `bytes` with the encryption key, padding switched off, so that
    /// the raw blocks come back: as many bytes as went in. Absent when `iv` is not 16 bytes long,
    /// when `bytes` is no whole number of blocks or longer than OpenSSL takes, or when OpenSSL
    /// reports a failure or hands back another number of bytes.
    fn decrypt_aes(&self, iv: &[u8], bytes: &[u8]) -> (plain: Option<Vec<u8>>)
        ensures
            plain matches Some(p) ==> p@ == aes_256_cbc_decrypt(self.spec_enc_key(), iv@, bytes@)
                && p@.len() == bytes@.len(),
            !spec_decryptable(iv@, bytes@) ==> plain is None,
    {
        if iv.len() != AES_BLOCK_LEN || bytes.len() > MAX_BUFFER_LEN || bytes.len()
            % AES_BLOCK_LEN != 0 {
            return None;
        }
        accepted_blocks(aes_256_cbc_decrypt_raw(self.enc_key(), iv, bytes), bytes.len())
    }
}

/// The encryption half of 64 bytes of key material: the first 32 bytes.
pub open spec fn spec_enc_half(material: Seq<u8>) -> Seq<u8> {
    material.subrange(0, KEY_LEN as int)
}

/// The MAC half of 64 bytes of key material: the last 32 bytes.
pub open spec fn spec_mac_half(material: Seq<u8>) -> Seq<u8> {
    material.subrange(KEY_LEN as int, KEY_MATERIAL_LEN as int)
}

/// Cuts 64 bytes of key material into its encryption half and its MAC half.
pub fn split_key_material(material: &[u8]) -> (halves: (Vec<u8>, Vec<u8>))
    requires
        material@.len() == KEY_MATERIAL_LEN,
    ensures
        halves.0@ == spec_enc_half(material@),
        halves.1@ == spec_mac_half(material@),
        halves.0@.len() == KEY_LEN,
        halves.1@.len() == KEY_LEN,
{
    let enc_key = slice_to_vec(slice_subrange(material, 0, KEY_LEN));
    let mac_key = slice_to_vec(slice_subrange(material, KEY_LEN, KEY_MATERIAL_LEN));
    (enc_key, mac_key)
}

/// A key pair cut from the SHA-512 digest of a decrypted envelope.
#[derive(Debug)]
pub struct MainKey {
    enc_key: Vec<u8>,
    mac_key: Vec<u8>,
}

impl Key for MainKey {
    closed spec fn spec_enc_key(&self) -> Seq<u8> {
        self.enc_key@
    }

    closed spec fn spec_mac_key(&self) -> Seq<u8> {
        self.mac_key@
    }

    fn enc_key(&self) -> (key: &[u8]) {
        proof {
            use_type_invariant(self);
        }
        self.enc_key.as_slice()
    }

    fn mac_key(&self) -> (key: &[u8]) {
        proof {
            use_type_invariant(self);
        }
        self.mac_key.as_slice()
    }
}

impl Clone for MainKey {
    fn clone(&self) -> (copy: Self)
        ensures
            copy.spec_enc_key() == self.spec_enc_key(),
            copy.spec_mac_key() == self.spec_mac_key(),
    {
        proof {
            use_type_invariant(self);
        }
        MainKey { enc_key: self.enc_key.clone(), mac_key: self.mac_key.clone() }
    }
}

impl MainKey {
    #[verifier::type_invariant]
    spec fn well_formed(&self) -> bool {
        self.enc_key@.len() == KEY_LEN && self.mac_key@.len() == KEY_LEN
    }

    /// A key pair from its two halves, each 32 bytes long.
    pub fn new(enc_key: Vec<u8>, mac_key: Vec<u8>) -> (key: Self)
        requires
            enc_key@.len() == KEY_LEN,
            mac_key@.len() == KEY_LEN,
        ensures
            key.spec_enc_key() == enc_key@,
            key.spec_mac_key() == mac_key@,
    {
        MainKey { enc_key, mac_key }
    }

    /// Whether this is the key pair cut from the SHA-512 digest of the given cleartext: the
    /// first half of the digest for encryption, the second for MACs.
    pub open spec fn is_hashed_from(&self, cleartext: Seq<u8>) -> bool {
        self.spec_enc_key() == spec_enc_half(sha512(cleartext)) && self.spec_mac_key()
            == spec_mac_half(sha512(cleartext))
    }

    /// Whether this is the key pair that the given key unwraps from a container's bytes: the
    /// container is authentic under the key, and the pair is cut from the digest of its
    /// plaintext.
    pub open spec fn is_unwrapped_from(
        &self,
        bytes: Seq<u8>,
        mac_key: Seq<u8>,
        enc_key: Seq<u8>,
    ) -> bool {
        &&& spec_well_formed(bytes)
        &&& spec_authentic_bytes(bytes, mac_key)
        &&& self.is_hashed_from(spec_plaintext_of(bytes, enc_key))
    }

    /// The key pair cut from the SHA-512 digest of a cleartext.
    pub fn from_cleartext(cleartext: &[u8]) -> (key: Self)
        ensures
            key.is_hashed_from(cleartext@),
    {
        let digest = sha512_raw(cleartext);
        let (enc_key, mac_key) = split_key_material(digest.as_slice());
        MainKey::new(enc_key, mac_key)
    }

    /// The key pair that a container holds for whoever has `key`: the container is checked and
    /// decrypted, and its cleartext hashed. Absent when the tag does not hold under `key`, which
    /// is what a wrong password looks like, when the ciphertext is longer than OpenSSL takes, or
    /// when decryption fails.
    pub fn from_op_data<K: Key>(key: &K, op_data: &OpData01) -> (main: Option<Self>)
        ensures
            main matches Some(m) ==> m.is_unwrapped_from(
                op_data@,
                key.spec_mac_key(),
                key.spec_enc_key(),
            ),
            !spec_openable(op_data@, key.spec_mac_key()) ==> main is None,
    {
        match op_data.decrypt_with_key(key) {
            Some(cleartext) => Some(MainKey::from_cleartext(cleartext.as_slice())),
            None => None,
        }
    }

    /// As `from_op_data`, on a container in base64. Absent also when the text is not base64 or
    /// the bytes are no container.
    pub fn from_op_data_str<K: Key>(key: &K, b64str: &str) -> (main: Option<Self>)
        ensures
            main matches Some(m) ==> match base64_decoded(b64str.spec_bytes()) {
                Some(bytes) => m.is_unwrapped_from(bytes, key.spec_mac_key(), key.spec_enc_key()),
                None => false,
            },
            match base64_decoded(b64str.spec_bytes()) {
                Some(bytes) => !spec_well_formed(bytes) || !spec_openable(
                    bytes,
                    key.spec_mac_key(),
                ),
                None => true,
            } ==> main is None,
    {
        match OpData01::from_base64_str(b64str) {
            Ok(op_data) => MainKey::from_op_data(key, &op_data),
            Err(_) => None,
        }
    }

    /// Checks a container against this key and decrypts it. The plaintext has exactly the
    /// length that the container declares. Absent when the tag does not hold, when the
    /// ciphertext is longer than OpenSSL takes, or when decryption fails.
    pub fn decrypt_op_data(&self, op_data: &OpData01) -> (plain: Option<Vec<u8>>)
        ensures
            plain matches Some(p) ==> {
                &&& op_data.spec_authentic(self.spec_mac_key())
                &&& p@ == op_data.spec_plaintext(self.spec_enc_key())
                &&& p@.len() == op_data.spec_plaintext_len()
            },
            !spec_openable(op_data@, self.spec_mac_key()) ==> plain is None,
    {
        op_data.decrypt_with_key(self)
    }

    /// As `decrypt_op_data`, on a container in base64. Absent also when the text is not base64
    /// or the bytes are no container.
    pub fn decrypt_op_data_str(&self, b64str: &str) -> (plain: Option<Vec<u8>>)
        ensures
            plain matches Some(p) ==> match base64_decoded(b64str.spec_bytes()) {
                Some(bytes) => {
                    &&& spec_well_formed(bytes)
                    &&& spec_authentic_bytes(bytes, self.spec_mac_key())
                    &&& p@ == spec_plaintext_of(bytes, self.spec_enc_key())
                    &&& p@.len() == spec_declared_len(bytes)
                },
                None => false,
            },
            match base64_decoded(b64str.spec_bytes()) {
                Some(bytes) => !spec_well_formed(bytes) || !spec_openable(
                    bytes,
                    self.spec_mac_key(),
                ),
                None => true,
            } ==> plain is None,
    {
        decrypt_str_with_key(b64str, self)
    }
}

/// A key pair derived from a password with PBKDF2-HMAC-SHA512.
#[derive(Debug)]
pub struct DerivedKey {
    enc_key: Vec<u8>,
    mac_key: Vec<u8>,
}

impl Key for DerivedKey {
    closed spec fn spec_enc_key(&self) -> Seq<u8> {
        self.enc_key@
    }

    closed spec fn spec_mac_key(&self) -> Seq<u8> {
        self.mac_key@
    }

    fn enc_key(&self) -> (key: &[u8]) {
        proof {
            use_type_invariant(self);
        }
        self.enc_key.as_slice()
    }

    fn mac_key(&self) -> (key: &[u8]) {
        proof {
            use_type_invariant(self);
        }
        self.mac_key.as_slice()
    }
}

impl Clone for DerivedKey {
    fn clone(&self) -> (copy: Self)
        ensures
            copy.spec_enc_key() == self.spec_enc_key(),
            copy.spec_mac_key() == self.spec_mac_key(),
    {
        proof {
            use_type_invariant(self);
        }
        DerivedKey { enc_key: self.enc_key.clone(), mac_key: self.mac_key.clone() }
    }
}

impl DerivedKey {
    #[verifier::type_invariant]
    spec fn well_formed(&self) -> bool {
        self.enc_key@.len() == KEY_LEN && self.mac_key@.len() == KEY_LEN
    }

    /// Whether this is the key pair that PBKDF2-HMAC-SHA512 yields for the given password bytes,
    /// salt and iteration count: 64 bytes, the first half for encryption, the second for MACs.
    pub open spec fn is_derived_from(
        &self,
        password: Seq<u8>,
        salt: Seq<u8>,
        iterations: nat,
    ) -> bool {
        let material = pbkdf2_hmac_sha512(password, salt, iterations, KEY_MATERIAL_LEN as nat);
        self.spec_enc_key() == spec_enc_half(material) && self.spec_mac_key() == spec_mac_half(
            material,
        )
    }

    /// Whether the inputs of a derivation are of a size that OpenSSL takes.
    pub open spec fn spec_derivable(password: Seq<u8>, salt: Seq<u8>, iterations: nat) -> bool {
        password.len() <= MAX_BUFFER_LEN && salt.len() <= MAX_BUFFER_LEN && iterations
            <= MAX_BUFFER_LEN
    }

    /// A key pair from its two halves, each 32 bytes long.
    pub fn new(enc_key: Vec<u8>, mac_key: Vec<u8>) -> (key: Self)
        requires
            enc_key@.len() == KEY_LEN,
            mac_key@.len() == KEY_LEN,
        ensures
            key.spec_enc_key() == enc_key@,
            key.spec_mac_key() == mac_key@,
    {
        DerivedKey { enc_key, mac_key }
    }

    /// The key pair cut from the material of a derivation, if the derivation succeeded.
    pub fn from_derivation(
        outcome: Result<(), openssl::error::ErrorStack>,
        material: &[u8],
    ) -> (key: Option<Self>)
        requires
            material@.len() == KEY_MATERIAL_LEN,
        ensures
            key is Some <==> outcome is Ok,
            key matches Some(k) ==> k.spec_enc_key() == spec_enc_half(material@)
                && k.spec_mac_key() == spec_mac_half(material@),
    {
        match outcome {
            Ok(_) => {
                let (enc_key, mac_key) = split_key_material(material);
                Some(DerivedKey::new(enc_key, mac_key))
            },
            Err(_) => None,
        }
    }

    /// Derives a key pair from a password: PBKDF2-HMAC-SHA512 over the password's UTF-8 bytes.
    ///
    /// Absent when an input is larger than OpenSSL takes, or when OpenSSL reports a failure.
    pub fn from_password(password: &str, salt: &[u8], iterations: usize) -> (key: Option<Self>)
        ensures
            key matches Some(k) ==> k.is_derived_from(
                password.spec_bytes(),
                salt@,
                iterations as nat,
            ),
            !Self::spec_derivable(password.spec_bytes(), salt@, iterations as nat)
                ==> key is None,
    {
        let password_bytes = password.as_bytes();
        if password_bytes.len() > MAX_BUFFER_LEN || salt.len() > MAX_BUFFER_LEN || iterations
            > MAX_BUFFER_LEN {
            return None;
        }
        let mut material: Vec<u8> = vec![0u8; KEY_MATERIAL_LEN];
        let outcome = pbkdf2_hmac_sha512_raw(password_bytes, salt, iterations, &mut material);
        Self::from_derivation(outcome, material.as_slice())
    }
}

/// Deriving twice from the same password, salt and iteration count gives the same key pair,
/// byte for byte.
pub proof fn lemma_derivation_is_deterministic(
    first: DerivedKey,
    second: DerivedKey,
    password: Seq<u8>,
    salt: Seq<u8>,
    iterations: nat,
)
    requires
        first.is_derived_from(password, salt, iterations),
        second.is_derived_from(password, salt, iterations),
    ensures
        first.spec_enc_key() == second.spec_enc_key(),
        first.spec_mac_key() == second.spec_mac_key(),
{
}

/// Whether a vector and a ciphertext are of a size that can be decrypted: a vector of one block,
/// and a whole number of blocks that is no longer than OpenSSL takes.
pub open spec fn spec_decryptable(iv: Seq<u8>, bytes: Seq<u8>) -> bool {
    &&& iv.len() == AES_BLOCK_LEN
    &&& bytes.len() <= MAX_BUFFER_LEN
    &&& bytes.len() % (AES_BLOCK_LEN as nat) == 0
}

/// The blocks that a decryption is taken to have produced: the bytes that came back, provided
/// that the decryption succeeded and that they are as many as went in.
pub open spec fn spec_accepted_blocks(
    outcome: Result<Vec<u8>, openssl::error::ErrorStack>,
    len: nat,
) -> Option<Seq<u8>> {
    match outcome {
        Ok(blocks) => if blocks@.len() == len {
            Some(blocks@)
        } else {
            None
        },
        Err(_) => None,
    }
}

/// Keeps the outcome of a decryption only if it succeeded with `len` bytes.
pub fn accepted_blocks(outcome: Result<Vec<u8>, openssl::error::ErrorStack>, len: usize) -> (blocks:
    Option<Vec<u8>>)
    ensures
        match blocks {
            Some(b) => spec_accepted_blocks(outcome, len as nat) == Some(b@),
            None => spec_accepted_blocks(outcome, len as nat) is None,
        },
{
    match outcome {
        Ok(blocks) => {
            if blocks.len() == len {
                Some(blocks)
            } else {
                None
            }
        },
        Err(_) => None,
    }
}

} // verus!
