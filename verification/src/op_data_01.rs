//! The opdata01 container: AES-256-CBC ciphertext under a trailing HMAC-SHA256 tag.
//!
//! | offset | length | field                                   |
//! |--------|--------|-----------------------------------------|
//! | 0      | 8      | the ASCII text `opdata01`               |
//! | 8      | 8      | length of the plaintext, little-endian  |
//! | 16     | 16     | initialization vector                   |
//! | 32     | N      | ciphertext, a whole number of blocks    |
//! | 32 + N | 32     | tag over everything before it           |
//!
//! The plaintext is padded at the front to a whole number of blocks, so it is the tail of what
//! the cipher gives back.

use vstd::prelude::*;
use vstd::slice::slice_subrange;
use vstd::slice::slice_to_vec;
use vstd::string::StringSliceAdditionalSpecFns;
use crate::bytes::{base64_decoded, decode_base64, spec_u64_from_le, u64_from_bytes_le};
use crate::crypto::{
    aes_256_cbc_decrypt, constant_time_eq, hmac_sha256, AES_BLOCK_LEN, MAC_LEN, MAX_BUFFER_LEN,
};
use crate::error::VaultError;
use crate::key::Key;

verus! {

/// Length of the magic text at the start of a container.
pub const HEADER_LEN: usize = 8;

/// Length of the field that holds the plaintext's length.
pub const PLAINTEXT_LEN_LEN: usize = 8;

/// Length of the initialization vector.
pub const IV_LEN: usize = 16;

/// Offset of the initialization vector: the magic text and the length come before it.
pub const IV_START: usize = HEADER_LEN + PLAINTEXT_LEN_LEN;

/// Offset of the ciphertext: the three fixed fields come before it.
pub const CIPHERTEXT_START: usize = IV_START + IV_LEN;

/// Length of the smallest container: the three fixed fields and the tag around no ciphertext.
pub const MIN_OP_DATA_01_LEN: usize = CIPHERTEXT_START + MAC_LEN;

/// The magic text, `opdata01` in ASCII.
pub open spec fn spec_magic() -> Seq<u8> {
    seq![0x6fu8, 0x70u8, 0x64u8, 0x61u8, 0x74u8, 0x61u8, 0x30u8, 0x31u8]
}

/// The plaintext length that a container's bytes declare.
pub open spec fn spec_declared_len(bytes: Seq<u8>) -> int {
    spec_u64_from_le(bytes.subrange(HEADER_LEN as int, IV_START as int))
}

/// The structural checks on a container's bytes: long enough, the magic text in front, a whole
/// number of cipher blocks, and a declared plaintext no longer than the ciphertext.
pub open spec fn spec_well_formed(bytes: Seq<u8>) -> bool {
    &&& bytes.len() >= MIN_OP_DATA_01_LEN
    &&& bytes.subrange(0, HEADER_LEN as int) == spec_magic()
    &&& (bytes.len() - MIN_OP_DATA_01_LEN) % (AES_BLOCK_LEN as int) == 0
    &&& spec_declared_len(bytes) <= bytes.len() - MIN_OP_DATA_01_LEN
}

/// What is left of a decrypted buffer once the padding in front of it is dropped: its last
/// `plaintext_len` bytes.
pub open spec fn spec_strip_front_pad(padded: Seq<u8>, plaintext_len: int) -> Seq<u8>
    recommends
        0 <= plaintext_len <= padded.len(),
{
    padded.subrange(padded.len() - plaintext_len, padded.len() as int)
}

/// The initialization vector in a container's bytes: bytes 16 to 32.
pub open spec fn spec_iv_of(bytes: Seq<u8>) -> Seq<u8> {
    bytes.subrange(IV_START as int, CIPHERTEXT_START as int)
}

/// The ciphertext in a container's bytes: everything between the vector and the tag.
pub open spec fn spec_ciphertext_of(bytes: Seq<u8>) -> Seq<u8> {
    bytes.subrange(CIPHERTEXT_START as int, bytes.len() - MAC_LEN)
}

/// The tag in a container's bytes: the last 32 bytes.
pub open spec fn spec_mac_of(bytes: Seq<u8>) -> Seq<u8> {
    bytes.subrange(bytes.len() - MAC_LEN, bytes.len() as int)
}

/// What the tag covers: everything before it.
pub open spec fn spec_payload_of(bytes: Seq<u8>) -> Seq<u8> {
    bytes.subrange(0, bytes.len() - MAC_LEN)
}

/// Whether the tag in a container's bytes is the HMAC-SHA256 of the payload under the given
/// MAC key.
pub open spec fn spec_authentic_bytes(bytes: Seq<u8>, mac_key: Seq<u8>) -> bool {
    hmac_sha256(mac_key, spec_payload_of(bytes)) == spec_mac_of(bytes)
}

/// Whether a container's bytes can be opened with a MAC key, whatever the cipher then does: the
/// tag holds under the key, and the ciphertext is no longer than OpenSSL takes.
pub open spec fn spec_openable(bytes: Seq<u8>, mac_key: Seq<u8>) -> bool {
    spec_authentic_bytes(bytes, mac_key) && spec_ciphertext_of(bytes).len() <= MAX_BUFFER_LEN
}

/// The plaintext that the given encryption key yields from a container's bytes: the tail of
/// the decrypted ciphertext, as long as the container declares.
pub open spec fn spec_plaintext_of(bytes: Seq<u8>, enc_key: Seq<u8>) -> Seq<u8> {
    spec_strip_front_pad(
        aes_256_cbc_decrypt(enc_key, spec_iv_of(bytes), spec_ciphertext_of(bytes)),
        spec_declared_len(bytes),
    )
}

/// Drops the padding in front of a decrypted buffer. Absent when the buffer is shorter than the
/// plaintext is said to be.
pub fn strip_front_pad(padded: &[u8], plaintext_len: usize) -> (plain: Option<Vec<u8>>)
    ensures
        match plain {
            Some(p) => plaintext_len <= padded@.len() && p@ == spec_strip_front_pad(
                padded@,
                plaintext_len as int,
            ),
            None => plaintext_len > padded@.len(),
        },
{
    if plaintext_len > padded.len() {
        return None;
    }
    let start = padded.len() - plaintext_len;
    Some(slice_to_vec(slice_subrange(padded, start, padded.len())))
}

/// Whether the first eight bytes are the magic text.
fn has_magic(bytes: &[u8]) -> (found: bool)
    requires
        bytes@.len() >= HEADER_LEN,
    ensures
        found == (bytes@.subrange(0, HEADER_LEN as int) == spec_magic()),
{
    let found = bytes[0] == 0x6f && bytes[1] == 0x70 && bytes[2] == 0x64 && bytes[3] == 0x61
        && bytes[4] == 0x74 && bytes[5] == 0x61 && bytes[6] == 0x30 && bytes[7] == 0x31;
    proof {
        let head = bytes@.subrange(0, HEADER_LEN as int);
        let magic = spec_magic();
        if found {
            assert(head =~= magic);
        } else {
            assert(exists|i: int| 0 <= i < 8 && head[i] != magic[i]);
        }
    }
    found
}

/// Whether a byte string passes the structural checks of a container.
pub fn is_well_formed(bytes: &[u8]) -> (ok: bool)
    ensures
        ok == spec_well_formed(bytes@),
{
    if bytes.len() < MIN_OP_DATA_01_LEN {
        return false;
    }
    if !has_magic(bytes) {
        return false;
    }
    let ciphertext_len = bytes.len() - MIN_OP_DATA_01_LEN;
    if ciphertext_len % AES_BLOCK_LEN != 0 {
        return false;
    }
    let declared = u64_from_bytes_le(slice_subrange(bytes, HEADER_LEN, IV_START));
    declared <= ciphertext_len as u64
}

/// An opdata01 container that has passed the structural checks. Its tag has not been verified:
/// that takes a key.
#[derive(Debug)]
pub struct OpData01 {
    bytes: Vec<u8>,
    plaintext_len: usize,
}

impl View for OpData01 {
    type V = Seq<u8>;

    /// The container's bytes, from the magic text to the tag.
    closed spec fn view(&self) -> Seq<u8> {
        self.bytes@
    }
}

impl Clone for OpData01 {
    fn clone(&self) -> (copy: Self)
        ensures
            copy@ == self@,
    {
        proof {
            use_type_invariant(self);
        }
        OpData01 { bytes: self.bytes.clone(), plaintext_len: self.plaintext_len }
    }
}

impl OpData01 {
    #[verifier::type_invariant]
    spec fn structure_holds(&self) -> bool {
        spec_well_formed(self.bytes@) && self.plaintext_len == spec_declared_len(self.bytes@)
    }

    /// The length of the plaintext, as the container declares it.
    pub open spec fn spec_plaintext_len(&self) -> int {
        spec_declared_len(self@)
    }

    /// The initialization vector: bytes 16 to 32.
    pub open spec fn spec_iv(&self) -> Seq<u8> {
        spec_iv_of(self@)
    }

    /// The ciphertext: everything between the vector and the tag.
    pub open spec fn spec_ciphertext(&self) -> Seq<u8> {
        spec_ciphertext_of(self@)
    }

    /// The tag: the last 32 bytes.
    pub open spec fn spec_mac(&self) -> Seq<u8> {
        spec_mac_of(self@)
    }

    /// What the tag covers: everything before it.
    pub open spec fn spec_payload(&self) -> Seq<u8> {
        spec_payload_of(self@)
    }

    /// Whether the tag is the HMAC-SHA256 of the payload under the given MAC key.
    pub open spec fn spec_authentic(&self, mac_key: Seq<u8>) -> bool {
        spec_authentic_bytes(self@, mac_key)
    }

    /// The plaintext that the given encryption key yields: the tail of the decrypted ciphertext.
    pub open spec fn spec_plaintext(&self, enc_key: Seq<u8>) -> Seq<u8> {
        spec_plaintext_of(self@, enc_key)
    }

    /// The container's bytes, which pass the structural checks.
    pub fn as_bytes(&self) -> (bytes: &[u8])
        ensures
            bytes@ == self@,
            spec_well_formed(self@),
    {
        proof {
            use_type_invariant(self);
        }
        self.bytes.as_slice()
    }

    /// Builds a container from its bytes, which must pass the structural checks: fails with
    /// `MalformedEnvelope` on fewer than 64 bytes, on a wrong magic text, on a ciphertext that is
    /// not a whole number of blocks, and on a declared plaintext longer than the ciphertext.
    pub fn new(bytes: Vec<u8>) -> (result: Result<Self, VaultError>)
        ensures
            match result {
                Ok(data) => spec_well_formed(bytes@) && data@ == bytes@,
                Err(e) => !spec_well_formed(bytes@) && e is MalformedEnvelope,
            },
            bytes@.subrange(0, HEADER_LEN as int) != spec_magic() ==> result is Err,
    {
        if is_well_formed(bytes.as_slice()) {
            Ok(OpData01::from_bytes_unchecked(bytes))
        } else {
            Err(VaultError::MalformedEnvelope)
        }
    }

    /// Builds a container from bytes that are known to pass the structural checks.
    pub fn from_bytes_unchecked(bytes: Vec<u8>) -> (data: Self)
        requires
            spec_well_formed(bytes@),
        ensures
            data@ == bytes@,
    {
        let declared = u64_from_bytes_le(
            slice_subrange(bytes.as_slice(), HEADER_LEN, IV_START),
        );
        let ciphertext_len = bytes.len() - MIN_OP_DATA_01_LEN;
        assert(declared <= ciphertext_len);
        OpData01 { bytes, plaintext_len: declared as usize }
    }

    /// Builds a container from its base64 text: fails with `MalformedEnvelope` where the text is
    /// not base64 or the bytes do not pass the structural checks.
    pub fn from_base64_str(text: &str) -> (result: Result<Self, VaultError>)
        ensures
            match result {
                Ok(data) => base64_decoded(text.spec_bytes()) == Some(data@) && spec_well_formed(
                    data@,
                ),
                Err(e) => e is MalformedEnvelope && match base64_decoded(text.spec_bytes()) {
                    Some(bytes) => !spec_well_formed(bytes),
                    None => true,
                },
            },
    {
        match decode_base64(text) {
            Some(bytes) => OpData01::new(bytes),
            None => Err(VaultError::MalformedEnvelope),
        }
    }

    pub fn plaintext_len(&self) -> (len: usize)
        ensures
            len == self.spec_plaintext_len(),
            len <= self.spec_ciphertext().len(),
    {
        proof {
            use_type_invariant(self);
        }
        self.plaintext_len
    }

    pub fn iv(&self) -> (iv: &[u8])
        ensures
            iv@ == self.spec_iv(),
            iv@.len() == IV_LEN,
    {
        proof {
            use_type_invariant(self);
        }
        slice_subrange(self.bytes.as_slice(), IV_START, CIPHERTEXT_START)
    }

    pub fn ciphertext(&self) -> (ciphertext: &[u8])
        ensures
            ciphertext@ == self.spec_ciphertext(),
            ciphertext@.len() == self@.len() - MIN_OP_DATA_01_LEN,
            ciphertext@.len() % (AES_BLOCK_LEN as nat) == 0,
    {
        proof {
            use_type_invariant(self);
        }
        let end = self.bytes.len() - MAC_LEN;
        slice_subrange(self.bytes.as_slice(), CIPHERTEXT_START, end)
    }

    pub fn mac(&self) -> (mac: &[u8])
        ensures
            mac@ == self.spec_mac(),
            mac@.len() == MAC_LEN,
    {
        proof {
            use_type_invariant(self);
        }
        let start = self.bytes.len() - MAC_LEN;
        slice_subrange(self.bytes.as_slice(), start, self.bytes.len())
    }

    /// What the tag covers: everything before it.
    pub fn payload(&self) -> (payload: &[u8])
        ensures
            payload@ == self.spec_payload(),
    {
        proof {
            use_type_invariant(self);
        }
        let end = self.bytes.len() - MAC_LEN;
        slice_subrange(self.bytes.as_slice(), 0, end)
    }

    /// Whether a computed tag is the container's own. The bytes are compared in time that does
    /// not depend on where they differ.
    pub fn tag_matches(&self, computed: &Option<Vec<u8>>) -> (same: bool)
        ensures
            same == (computed matches Some(tag) && tag@ == self.spec_mac()),
    {
        match computed {
            Some(tag) => {
                let mac = self.mac();
                if tag.len() != mac.len() {
                    false
                } else {
                    constant_time_eq(tag.as_slice(), mac)
                }
            },
            None => false,
        }
    }

    /// Checks the tag: HMAC-SHA256 over everything before it, under the key's MAC half. A
    /// container whose tag cannot be computed does not validate.
    pub fn validate_with_key<K: Key>(&self, key: &K) -> (valid: bool)
        ensures
            valid ==> self.spec_authentic(key.spec_mac_key()),
    {
        let computed = key.compute_mac(self.payload());
        self.tag_matches(&computed)
    }

    /// Checks the tag, as `validate_with_key` does.
    pub fn validate<K: Key>(&self, key: &K) -> (valid: bool)
        ensures
            valid ==> self.spec_authentic(key.spec_mac_key()),
    {
        self.validate_with_key(key)
    }

    /// Decrypts the ciphertext under the key's encryption half and drops the padding in front,
    /// without looking at the tag. Absent when the ciphertext is longer than OpenSSL takes or
    /// the cipher fails.
    pub fn decrypt<K: Key>(&self, key: &K) -> (plain: Option<Vec<u8>>)
        ensures
            plain matches Some(p) ==> p@ == self.spec_plaintext(key.spec_enc_key()) && p@.len()
                == self.spec_plaintext_len(),
            self.spec_ciphertext().len() > MAX_BUFFER_LEN ==> plain is None,
    {
        match key.decrypt_aes(self.iv(), self.ciphertext()) {
            Some(padded) => strip_front_pad(padded.as_slice(), self.plaintext_len()),
            None => None,
        }
    }

    /// Checks the tag and, only if it holds, decrypts. The plaintext has exactly the declared
    /// length. Absent when the tag does not hold, when the ciphertext is longer than OpenSSL
    /// takes, or when decryption fails.
    pub fn decrypt_with_key<K: Key>(&self, key: &K) -> (plain: Option<Vec<u8>>)
        ensures
            plain matches Some(p) ==> {
                &&& self.spec_authentic(key.spec_mac_key())
                &&& p@ == self.spec_plaintext(key.spec_enc_key())
                &&& p@.len() == self.spec_plaintext_len()
            },
            !spec_openable(self@, key.spec_mac_key()) ==> plain is None,
            spec_well_formed(self@),
    {
        proof {
            use_type_invariant(self);
        }
        if self.validate_with_key(key) {
            self.decrypt(key)
        } else {
            None
        }
    }
}

/// Opens a container given in base64 with a key: the text is decoded, the bytes are checked,
/// the tag is verified and the ciphertext decrypted. The plaintext has exactly the length that
/// the container declares. Absent when the text is not base64, the bytes are no container, the
/// tag does not hold under the key, the ciphertext is longer than OpenSSL takes, or decryption
/// fails.
pub fn decrypt_str_with_key<K: Key>(text: &str, key: &K) -> (plain: Option<Vec<u8>>)
    ensures
        plain matches Some(p) ==> match base64_decoded(text.spec_bytes()) {
            Some(bytes) => {
                &&& spec_well_formed(bytes)
                &&& spec_authentic_bytes(bytes, key.spec_mac_key())
                &&& p@ == spec_plaintext_of(bytes, key.spec_enc_key())
                &&& p@.len() == spec_declared_len(bytes)
            },
            None => false,
        },
        match base64_decoded(text.spec_bytes()) {
            Some(bytes) => !spec_well_formed(bytes) || !spec_openable(bytes, key.spec_mac_key()),
            None => true,
        } ==> plain is None,
{
    match OpData01::from_base64_str(text) {
        Ok(data) => data.decrypt_with_key(key),
        Err(_) => None,
    }
}

/// The plaintext does not depend on the padding in front of it: whatever is put before a
/// plaintext, dropping the front padding gives the plaintext back.
pub proof fn lemma_front_pad_is_ignored(
    first_pad: Seq<u8>,
    second_pad: Seq<u8>,
    plaintext: Seq<u8>,
)
    ensures
        spec_strip_front_pad(first_pad + plaintext, plaintext.len() as int) == plaintext,
        spec_strip_front_pad(second_pad + plaintext, plaintext.len() as int) == plaintext,
{
    assert(spec_strip_front_pad(first_pad + plaintext, plaintext.len() as int) =~= plaintext);
    assert(spec_strip_front_pad(second_pad + plaintext, plaintext.len() as int) =~= plaintext);
}

/// A plaintext of length zero is empty, whatever was decrypted.
pub proof fn lemma_empty_plaintext(padded: Seq<u8>)
    ensures
        spec_strip_front_pad(padded, 0) == Seq::<u8>::empty(),
{
    assert(spec_strip_front_pad(padded, 0) =~= Seq::<u8>::empty());
}

/// Altering a byte that the tag covers makes an authentic container fail, unless the altered
/// payload happens to have the same tag as the intact one.
pub proof fn lemma_altered_payload_is_rejected(
    intact: Seq<u8>,
    altered: Seq<u8>,
    mac_key: Seq<u8>,
    at: int,
)
    requires
        spec_authentic_bytes(intact, mac_key),
        intact.len() >= MAC_LEN,
        0 <= at < intact.len() - MAC_LEN,
        altered.len() == intact.len(),
        altered[at] != intact[at],
        forall|i: int| 0 <= i < intact.len() && i != at ==> altered[i] == intact[i],
        hmac_sha256(mac_key, spec_payload_of(altered)) != hmac_sha256(
            mac_key,
            spec_payload_of(intact),
        ),
    ensures
        spec_payload_of(altered) != spec_payload_of(intact),
        spec_mac_of(altered) == spec_mac_of(intact),
        !spec_authentic_bytes(altered, mac_key),
{
    assert(spec_mac_of(altered) =~= spec_mac_of(intact));
    assert(spec_payload_of(altered)[at] != spec_payload_of(intact)[at]);
}

/// Altering the tag of an authentic container makes it fail: of two byte strings with the same
/// payload and different tags, at most one is authentic under a given MAC key.
pub proof fn lemma_altered_tag_is_rejected(intact: Seq<u8>, altered: Seq<u8>, mac_key: Seq<u8>)
    requires
        spec_authentic_bytes(intact, mac_key),
        spec_payload_of(altered) == spec_payload_of(intact),
        spec_mac_of(altered) != spec_mac_of(intact),
    ensures
        !spec_authentic_bytes(altered, mac_key),
{
}

/// A container whose first eight bytes are not the magic text does not pass the structural
/// checks, whatever follows.
pub proof fn lemma_wrong_magic_is_malformed(bytes: Seq<u8>)
    requires
        bytes.subrange(0, HEADER_LEN as int) != spec_magic(),
    ensures
        !spec_well_formed(bytes),
{
}

} // verus!
