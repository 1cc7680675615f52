//! The cryptographic primitives, all computed by OpenSSL.
//!
//! Nothing in this file is proved. Each function states what OpenSSL is trusted to compute, by
//! giving the result a name; what the rest of the library proves is proved relative to these
//! names.

use vstd::prelude::*;

verus! {

/// Length in bytes of an HMAC-SHA256 tag.
pub const MAC_LEN: usize = 32;

/// Length in bytes of an AES-256 key.
pub const AES_KEY_LEN: usize = 32;

/// Length in bytes of an AES block, and so of a CBC initialization vector.
pub const AES_BLOCK_LEN: usize = 16;

/// Length in bytes of a SHA-512 digest.
pub const SHA512_LEN: usize = 64;

/// The largest buffer length that OpenSSL takes, a C `int`.
pub const MAX_BUFFER_LEN: usize = 0x7fff_ffff;

/// OpenSSL's own error report. Nothing is known of its contents.
#[verifier::external_type_specification]
#[verifier::external_body]
pub struct ExErrorStack(openssl::error::ErrorStack);

/// The HMAC-SHA256 tag of `data` under `key`.
pub uninterp spec fn hmac_sha256(key: Seq<u8>, data: Seq<u8>) -> Seq<u8>;

/// The AES-256-CBC decryption of `data` under `key` and `iv`, with padding switched off.
pub uninterp spec fn aes_256_cbc_decrypt(key: Seq<u8>, iv: Seq<u8>, data: Seq<u8>) -> Seq<u8>;

/// The SHA-512 digest of `data`.
pub uninterp spec fn sha512(data: Seq<u8>) -> Seq<u8>;

/// The first `len` bytes that PBKDF2 with HMAC-SHA512 derives from a password, a salt and an
/// iteration count.
pub uninterp spec fn pbkdf2_hmac_sha512(
    password: Seq<u8>,
    salt: Seq<u8>,
    iterations: nat,
    len: nat,
) -> Seq<u8>;

/// Calls `openssl::pkey::PKey::hmac` and `openssl::sign::Signer` with SHA-256.
///
/// Trusted: when OpenSSL reports success, the bytes returned are the HMAC-SHA256 tag of `data`
/// under `key`. Nothing is claimed of when it fails, nor of the tag's length. The key's length
/// is bounded because `PKey::hmac` panics on a longer one.
#[verifier::external_body]
pub(crate) fn hmac_sha256_raw(key: &[u8], data: &[u8]) -> (result: Result<
    Vec<u8>,
    openssl::error::ErrorStack,
>)
    requires
        key@.len() <= MAX_BUFFER_LEN,
    ensures
        result matches Ok(tag) ==> tag@ == hmac_sha256(key@, data@),
{
    let pkey = openssl::pkey::PKey::hmac(key)?;
    let mut signer = openssl::sign::Signer::new(openssl::hash::MessageDigest::sha256(), &pkey)?;
    signer.update(data)?;
    signer.sign_to_vec()
}

/// Calls `openssl::cipher_ctx::CipherCtx` with `openssl::cipher::Cipher::aes_256_cbc`, in the
/// decrypting direction and with padding switched off.
///
/// Trusted: when OpenSSL reports success, the bytes returned are the AES-256-CBC decryption of
/// `data`. Nothing is claimed of when it fails, nor of the result's length. The lengths are
/// constrained because `decrypt_init` panics on a short key or vector and `cipher_update_vec`
/// on an input longer than a C `int`.
#[verifier::external_body]
pub(crate) fn aes_256_cbc_decrypt_raw(key: &[u8], iv: &[u8], data: &[u8]) -> (result: Result<
    Vec<u8>,
    openssl::error::ErrorStack,
>)
    requires
        key@.len() == AES_KEY_LEN,
        iv@.len() == AES_BLOCK_LEN,
        data@.len() <= MAX_BUFFER_LEN,
    ensures
        result matches Ok(plain) ==> plain@ == aes_256_cbc_decrypt(key@, iv@, data@),
{
    let mut ctx = openssl::cipher_ctx::CipherCtx::new()?;
    ctx.decrypt_init(Some(openssl::cipher::Cipher::aes_256_cbc()), Some(key), Some(iv))?;
    ctx.set_padding(false);
    let mut plain = Vec::new();
    ctx.cipher_update_vec(data, &mut plain)?;
    ctx.cipher_final_vec(&mut plain)?;
    Ok(plain)
}

/// Calls `openssl::sha::sha512`.
///
/// Trusted: the array returned is the SHA-512 digest of `data`.
#[verifier::external_body]
pub(crate) fn sha512_raw(data: &[u8]) -> (digest: [u8; 64])
    ensures
        digest@ == sha512(data@),
{
    openssl::sha::sha512(data)
}

/// Calls `openssl::pkcs5::pbkdf2_hmac` with SHA-512.
///
/// Trusted: the buffer keeps its length, and when OpenSSL reports success it holds the bytes
/// that PBKDF2-HMAC-SHA512 derives. Nothing is claimed of when it fails. The lengths and the
/// count are bounded because the function panics on one that does not fit a C `int`.
#[verifier::external_body]
pub(crate) fn pbkdf2_hmac_sha512_raw(
    password: &[u8],
    salt: &[u8],
    iterations: usize,
    key: &mut Vec<u8>,
) -> (result: Result<(), openssl::error::ErrorStack>)
    requires
        password@.len() <= MAX_BUFFER_LEN,
        salt@.len() <= MAX_BUFFER_LEN,
        iterations <= MAX_BUFFER_LEN,
        old(key)@.len() <= MAX_BUFFER_LEN,
    ensures
        final(key)@.len() == old(key)@.len(),
        result is Ok ==> final(key)@ == pbkdf2_hmac_sha512(
            password@,
            salt@,
            iterations as nat,
            old(key)@.len(),
        ),
{
    openssl::pkcs5::pbkdf2_hmac(
        password,
        salt,
        iterations,
        openssl::hash::MessageDigest::sha512(),
        key.as_mut_slice(),
    )
}

/// Calls `openssl::memcmp::eq`, which compares in time that depends on the length alone.
///
/// Trusted: the answer is whether the two byte strings are equal. The lengths must agree
/// because the function panics otherwise.
#[verifier::external_body]
pub(crate) fn constant_time_eq(a: &[u8], b: &[u8]) -> (same: bool)
    requires
        a@.len() == b@.len(),
    ensures
        same == (a@ == b@),
{
    openssl::memcmp::eq(a, b)
}

} // verus!
