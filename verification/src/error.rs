use vstd::prelude::*;

verus! {

/// Everything that can go wrong while loading a vault.
///
/// A wrong password is not among them: unlocking answers with absence.
#[derive(Debug)]
pub enum VaultError {
    /// A file could not be found or read; the payload is the cause in words.
    Io(String),
    /// The text left after removing the JavaScript wrapper is not JSON; the payload is the
    /// parser's message.
    MalformedJson(String),
    /// A profile lacks the named field, or the field has the wrong shape or an unusable value.
    MalformedProfile(String),
    /// A JSON object lacks the named key, or the value under it has the wrong type.
    MissingOrBadField(String),
    /// An opdata01 container fails a structural check: bad magic, short buffer, bad lengths,
    /// bad base64.
    MalformedEnvelope,
    /// For callers that want to report a failed unlock as an error.
    AuthenticationFailed,
}

} // verus!
