use vstd::prelude::*;
use vstd::string::StringSliceAdditionalSpecFns;

verus! {

/// The value of eight bytes read as an unsigned 64-bit integer, least significant byte first.
pub open spec fn spec_u64_from_le(b: Seq<u8>) -> int
    recommends
        b.len() == 8,
{
    b[0] as int + b[1] as int * 0x100 + b[2] as int * 0x1_0000 + b[3] as int * 0x100_0000
        + b[4] as int * 0x1_0000_0000 + b[5] as int * 0x100_0000_0000 + b[6] as int
        * 0x1_0000_0000_0000 + b[7] as int * 0x100_0000_0000_0000
}

/// Decodes eight bytes as a little-endian unsigned 64-bit integer.
pub fn u64_from_bytes_le(bytes: &[u8]) -> (value: u64)
    requires
        bytes@.len() == 8,
    ensures
        value as int == spec_u64_from_le(bytes@),
{
    let b0: u64 = bytes[0] as u64;
    let b1: u64 = bytes[1] as u64;
    let b2: u64 = bytes[2] as u64;
    let b3: u64 = bytes[3] as u64;
    let b4: u64 = bytes[4] as u64;
    let b5: u64 = bytes[5] as u64;
    let b6: u64 = bytes[6] as u64;
    let b7: u64 = bytes[7] as u64;
    b0 + b1 * 0x100 + b2 * 0x1_0000 + b3 * 0x100_0000 + b4 * 0x1_0000_0000 + b5
        * 0x100_0000_0000 + b6 * 0x1_0000_0000_0000 + b7 * 0x100_0000_0000_0000
}

/// The error that the base64 decoder reports. Nothing is known of its contents.
#[verifier::external_type_specification]
#[verifier::external_body]
pub struct ExDecodeError(base64::DecodeError);

/// The bytes that a text stands for in standard base64 with padding, or nothing where the text
/// is not such an encoding.
pub uninterp spec fn base64_decoded(text: Seq<u8>) -> Option<Seq<u8>>;

/// Calls `base64::Engine::decode` on `base64::engine::general_purpose::STANDARD`.
///
/// Trusted: the decoder's answer depends on the text alone, and is the one that
/// `base64_decoded` names: the bytes where it succeeds, nothing where it reports an error.
#[verifier::external_body]
pub(crate) fn base64_decode_raw(text: &[u8]) -> (result: Result<Vec<u8>, base64::DecodeError>)
    ensures
        match result {
            Ok(bytes) => base64_decoded(text@) == Some(bytes@),
            Err(_) => base64_decoded(text@) is None,
        },
{
    base64::Engine::decode(&base64::engine::general_purpose::STANDARD, text)
}

/// Decodes standard base64. Absent where the text is not valid base64.
pub fn decode_base64(text: &str) -> (bytes: Option<Vec<u8>>)
    ensures
        match bytes {
            Some(b) => base64_decoded(text.spec_bytes()) == Some(b@),
            None => base64_decoded(text.spec_bytes()) is None,
        },
{
    match base64_decode_raw(text.as_bytes()) {
        Ok(bytes) => Some(bytes),
        Err(_) => None,
    }
}

} // verus!
