//! JSON values, as far as the vault's files use them.

use vstd::prelude::*;
use vstd::string::StringSliceAdditionalSpecFns;
use vstd::utf8::encode_utf8;
use crate::bytes::{base64_decoded, decode_base64};
use crate::error::VaultError;
use crate::op_data_01::{spec_well_formed, OpData01};

verus! {

/// A JSON value as mathematics sees it.
pub enum JsonValue {
    Null,
    Bool(bool),
    /// A number; its value where it is an unsigned integer of at most 64 bits.
    Number(Option<u64>),
    Text(Seq<char>),
    Array(Seq<JsonValue>),
    /// The members of an object, in the order in which the parser hands them out.
    Object(Seq<(Seq<char>, JsonValue)>),
}

/// A JSON value.
#[derive(Debug)]
pub enum Json {
    Null,
    Bool(bool),
    /// A number; its value where it is an unsigned integer of at most 64 bits.
    Number(Option<u64>),
    Text(String),
    Array(Vec<Json>),
    /// The members of an object, in the order in which the parser hands them out.
    Object(Vec<(String, Json)>),
}

/// The mathematical value of a JSON value: the same tree over sequences.
pub open spec fn spec_json_value(json: Json) -> JsonValue
    decreases json,
{
    match json {
        Json::Null => JsonValue::Null,
        Json::Bool(b) => JsonValue::Bool(b),
        Json::Number(n) => JsonValue::Number(n),
        Json::Text(s) => JsonValue::Text(s@),
        Json::Array(items) => JsonValue::Array(
            Seq::new(
                items@.len(),
                |i: int|
                    if 0 <= i < items@.len() {
                        spec_json_value(items[i])
                    } else {
                        JsonValue::Null
                    },
            ),
        ),
        Json::Object(members) => JsonValue::Object(
            Seq::new(
                members@.len(),
                |i: int|
                    if 0 <= i < members@.len() {
                        (members[i].0@, spec_json_value(members[i].1))
                    } else {
                        (Seq::empty(), JsonValue::Null)
                    },
            ),
        ),
    }
}

impl View for Json {
    type V = JsonValue;

    open spec fn view(&self) -> JsonValue {
        spec_json_value(*self)
    }
}

/// The parser's error report. Nothing is known of its contents.
#[verifier::external_type_specification]
#[verifier::external_body]
pub struct ExJsonError(serde_json::Error);

/// The parser's own tree, which is only ever converted.
#[verifier::external_type_specification]
#[verifier::external_body]
pub struct ExJsonTree(serde_json::Value);

/// The value that a text denotes as JSON, or nothing where the text is not JSON.
pub uninterp spec fn json_parsed(text: Seq<u8>) -> Option<JsonValue>;

/// Converts a tree of `serde_json::Value` node by node, asking `serde_json::Number::as_u64`
/// for each number.
///
/// Trusted, and nothing is claimed of the result.
#[verifier::external_body]
fn json_from_tree(tree: serde_json::Value) -> Json {
    match tree {
        serde_json::Value::Null => Json::Null,
        serde_json::Value::Bool(b) => Json::Bool(b),
        serde_json::Value::Number(n) => Json::Number(n.as_u64()),
        serde_json::Value::String(s) => Json::Text(s),
        serde_json::Value::Array(a) => Json::Array(a.into_iter().map(json_from_tree).collect()),
        serde_json::Value::Object(o) => Json::Object(
            o.into_iter().map(|(k, v)| (k, json_from_tree(v))).collect(),
        ),
    }
}

/// Calls `serde_json::from_slice` for a `serde_json::Value`.
///
/// Trusted: the parser's answer depends on the text alone, and is the one that `json_parsed`
/// names: the value where it succeeds, nothing where it reports an error.
#[verifier::external_body]
pub(crate) fn parse_json_raw(text: &[u8]) -> (result: Result<Json, serde_json::Error>)
    ensures
        match result {
            Ok(json) => json_parsed(text@) == Some(json@),
            Err(_) => json_parsed(text@) is None,
        },
{
    serde_json::from_slice::<serde_json::Value>(text).map(json_from_tree)
}

/// Calls `to_string` on a `serde_json::Error`.
///
/// Trusted, and nothing is claimed of the message.
#[verifier::external_body]
pub(crate) fn json_error_message(error: &serde_json::Error) -> String {
    error.to_string()
}

/// Parses a text as JSON: fails with `MalformedJson` where the text is not JSON.
pub fn parse_json(text: &[u8]) -> (result: Result<Json, VaultError>)
    ensures
        match result {
            Ok(json) => json_parsed(text@) == Some(json@),
            Err(e) => json_parsed(text@) is None && e is MalformedJson,
        },
{
    match parse_json_raw(text) {
        Ok(json) => Ok(json),
        Err(e) => Err(VaultError::MalformedJson(json_error_message(&e))),
    }
}

/// The text without the given prefix, if it starts with it; else the text.
pub open spec fn spec_strip_prefix(text: Seq<u8>, prefix: Seq<u8>) -> Seq<u8> {
    if prefix.is_prefix_of(text) {
        text.skip(prefix.len() as int)
    } else {
        text
    }
}

/// The text without the given suffix, if it ends with it; else the text.
pub open spec fn spec_strip_suffix(text: Seq<u8>, suffix: Seq<u8>) -> Seq<u8> {
    if suffix.is_suffix_of(text) {
        text.take(text.len() - suffix.len())
    } else {
        text
    }
}

/// The text without one occurrence of the prefix at its start and then one of the suffix at
/// its end, each only if it is there.
pub open spec fn spec_strip_wrapper(text: Seq<u8>, prefix: Seq<u8>, suffix: Seq<u8>) -> Seq<u8> {
    spec_strip_suffix(spec_strip_prefix(text, prefix), suffix)
}

/// Whether `text` holds `pattern` at offset `at`.
fn holds_at(text: &[u8], pattern: &[u8], at: usize) -> (found: bool)
    requires
        at + pattern@.len() <= text@.len(),
    ensures
        found == (text@.subrange(at as int, at + pattern@.len()) == pattern@),
{
    let ghost window = text@.subrange(at as int, at + pattern@.len());
    let text_len = text.len();
    let mut i: usize = 0;
    while i < pattern.len()
        invariant
            0 <= i <= pattern@.len(),
            at + pattern@.len() <= text@.len() == text_len,
            window == text@.subrange(at as int, at + pattern@.len()),
            forall|j: int| 0 <= j < i ==> window[j] == pattern@[j],
        decreases pattern@.len() - i,
    {
        if text[at + i] != pattern[i] {
            assert(window[i as int] != pattern@[i as int]);
            return false;
        }
        i += 1;
    }
    assert(window =~= pattern@);
    true
}

/// Removes one occurrence of `prefix` from the start of `text`, if it is there.
pub fn strip_prefix<'a>(text: &'a [u8], prefix: &[u8]) -> (rest: &'a [u8])
    ensures
        rest@ == spec_strip_prefix(text@, prefix@),
{
    if prefix.len() <= text.len() && holds_at(text, prefix, 0) {
        assert(text@.subrange(0, prefix@.len() as int) == prefix@);
        vstd::slice::slice_subrange(text, prefix.len(), text.len())
    } else {
        text
    }
}

/// Removes one occurrence of `suffix` from the end of `text`, if it is there.
pub fn strip_suffix<'a>(text: &'a [u8], suffix: &[u8]) -> (rest: &'a [u8])
    ensures
        rest@ == spec_strip_suffix(text@, suffix@),
{
    if suffix.len() <= text.len() && holds_at(text, suffix, text.len() - suffix.len()) {
        vstd::slice::slice_subrange(text, 0, text.len() - suffix.len())
    } else {
        text
    }
}

/// Removes the JavaScript around a JSON text: one occurrence of `prefix` at the start and one
/// of `suffix` at the end, each only if it is there. Nothing else is trimmed.
pub fn strip_wrapper<'a>(text: &'a [u8], prefix: &[u8], suffix: &[u8]) -> (rest: &'a [u8])
    ensures
        rest@ == spec_strip_wrapper(text@, prefix@, suffix@),
{
    strip_suffix(strip_prefix(text, prefix), suffix)
}

/// The value of the first member from index `from` on whose key is `key`.
pub open spec fn spec_find_member(
    members: Seq<(Seq<char>, JsonValue)>,
    key: Seq<char>,
    from: int,
) -> Option<JsonValue>
    decreases members.len() - from,
{
    if from < 0 || from >= members.len() {
        None
    } else if members[from].0 == key {
        Some(members[from].1)
    } else {
        spec_find_member(members, key, from + 1)
    }
}

/// Whether a typed read failed with the error that names the key.
pub open spec fn spec_names_field<T>(result: Result<T, VaultError>, key: Seq<char>) -> bool {
    result matches Err(VaultError::MissingOrBadField(k)) && k@ == key
}

impl JsonValue {
    /// The member of an object under a key; nothing for a missing key or a value that is no
    /// object.
    pub open spec fn spec_find(self, key: Seq<char>) -> Option<JsonValue> {
        match self {
            JsonValue::Object(members) => spec_find_member(members, key, 0),
            _ => None,
        }
    }

    /// The value as an unsigned 64-bit integer, if it is one.
    pub open spec fn spec_as_u64(self) -> Option<u64> {
        match self {
            JsonValue::Number(n) => n,
            _ => None,
        }
    }

    /// The value as a text, if it is one.
    pub open spec fn spec_as_text(self) -> Option<Seq<char>> {
        match self {
            JsonValue::Text(s) => Some(s),
            _ => None,
        }
    }

    /// The value as a truth value, if it is one.
    pub open spec fn spec_as_boolean(self) -> Option<bool> {
        match self {
            JsonValue::Bool(b) => Some(b),
            _ => None,
        }
    }

    /// The bytes that the value stands for, if it is a text in base64.
    pub open spec fn spec_decode_base64(self) -> Option<Seq<u8>> {
        match self {
            JsonValue::Text(s) => base64_decoded(encode_utf8(s)),
            _ => None,
        }
    }

    /// The bytes of the container that the value stands for, if it is a text in base64 whose
    /// bytes pass the container's structural checks.
    pub open spec fn spec_as_op_data_01(self) -> Option<Seq<u8>> {
        match self.spec_decode_base64() {
            Some(bytes) => if spec_well_formed(bytes) {
                Some(bytes)
            } else {
                None
            },
            None => None,
        }
    }

    /// The unsigned 64-bit integer under a key.
    pub open spec fn spec_u64_at(self, key: Seq<char>) -> Option<u64> {
        match self.spec_find(key) {
            Some(v) => v.spec_as_u64(),
            None => None,
        }
    }

    /// The text under a key.
    pub open spec fn spec_text_at(self, key: Seq<char>) -> Option<Seq<char>> {
        match self.spec_find(key) {
            Some(v) => v.spec_as_text(),
            None => None,
        }
    }

    /// The truth value under a key.
    pub open spec fn spec_boolean_at(self, key: Seq<char>) -> Option<bool> {
        match self.spec_find(key) {
            Some(v) => v.spec_as_boolean(),
            None => None,
        }
    }

    /// The base64-decoded bytes under a key.
    pub open spec fn spec_bytes_at(self, key: Seq<char>) -> Option<Seq<u8>> {
        match self.spec_find(key) {
            Some(v) => v.spec_decode_base64(),
            None => None,
        }
    }

    /// The bytes of the container under a key.
    pub open spec fn spec_op_data_01_at(self, key: Seq<char>) -> Option<Seq<u8>> {
        match self.spec_find(key) {
            Some(v) => v.spec_as_op_data_01(),
            None => None,
        }
    }
}

/// The error of a typed read that found no usable value under `key`.
pub fn missing_or_bad_field(key: &str) -> (error: VaultError)
    ensures
        error matches VaultError::MissingOrBadField(k) && k@ == key@,
{
    VaultError::MissingOrBadField(key.to_owned())
}

impl Json {
    /// The members of an object, in the parser's order; nothing for a value that is no object.
    pub fn members(&self) -> (members: Option<&Vec<(String, Json)>>)
        ensures
            match members {
                Some(m) => self@ matches JsonValue::Object(pairs) && pairs.len() == m@.len()
                    && forall|i: int|
                    0 <= i < m@.len() ==> pairs[i] == (#[trigger] m@[i].0@, m@[i].1@),
                None => !(self@ is Object),
            },
    {
        match self {
            Json::Object(members) => {
                proof {
                    let pairs = self@->Object_0;
                    let built = Seq::new(
                        members@.len(),
                        |i: int|
                            if 0 <= i < members@.len() {
                                (members[i].0@, spec_json_value(members[i].1))
                            } else {
                                (Seq::<char>::empty(), JsonValue::Null)
                            },
                    );
                    reveal_with_fuel(spec_json_value, 2);
                    assert(pairs =~= built);
                    assert forall|i: int| 0 <= i < members@.len() implies pairs[i] == (
                        #[trigger] members@[i].0@,
                        members@[i].1@,
                    ) by {
                        assert(pairs[i] == built[i]);
                    }
                }
                Some(members)
            },
            _ => None,
        }
    }

    /// The member of an object under a key; nothing for a missing key or a value that is no
    /// object.
    pub fn find(&self, key: &str) -> (found: Option<&Json>)
        ensures
            match found {
                Some(v) => self@.spec_find(key@) == Some(v@),
                None => self@.spec_find(key@) is None,
            },
    {
        match self.members() {
            Some(members) => {
                let ghost pairs = self@->Object_0;
                let wanted = key.to_owned();
                let mut i: usize = 0;
                while i < members.len()
                    invariant
                        0 <= i <= members@.len(),
                        wanted@ == key@,
                        self@ == JsonValue::Object(pairs),
                        pairs.len() == members@.len(),
                        forall|j: int|
                            0 <= j < members@.len() ==> pairs[j] == (
                                #[trigger] members@[j].0@,
                                members@[j].1@,
                            ),
                        spec_find_member(pairs, key@, 0) == spec_find_member(pairs, key@, i as int),
                    decreases members@.len() - i,
                {
                    if members[i].0 == wanted {
                        assert(pairs[i as int] == (members@[i as int].0@, members@[i as int].1@));
                        return Some(&members[i].1);
                    }
                    assert(pairs[i as int] == (members@[i as int].0@, members@[i as int].1@));
                    i += 1;
                }
                None
            },
            None => None,
        }
    }

    /// The value as an unsigned 64-bit integer, if it is one.
    pub fn as_u64(&self) -> (value: Option<u64>)
        ensures
            value == self@.spec_as_u64(),
    {
        match self {
            Json::Number(n) => *n,
            _ => None,
        }
    }

    /// The value as a text of its own, if it is one.
    pub fn as_owned_string(&self) -> (value: Option<String>)
        ensures
            match value {
                Some(s) => self@.spec_as_text() == Some(s@),
                None => self@.spec_as_text() is None,
            },
    {
        match self {
            Json::Text(s) => Some(s.clone()),
            _ => None,
        }
    }

    /// The value as a truth value, if it is one.
    pub fn as_boolean(&self) -> (value: Option<bool>)
        ensures
            value == self@.spec_as_boolean(),
    {
        match self {
            Json::Bool(b) => Some(*b),
            _ => None,
        }
    }

    /// The bytes that the value stands for, if it is a text in base64.
    pub fn decode_base64(&self) -> (value: Option<Vec<u8>>)
        ensures
            match value {
                Some(bytes) => self@.spec_decode_base64() == Some(bytes@),
                None => self@.spec_decode_base64() is None,
            },
    {
        match self {
            Json::Text(s) => decode_base64(s.as_str()),
            _ => None,
        }
    }

    /// The container that the value stands for, if it is a text in base64 whose bytes pass the
    /// container's structural checks.
    pub fn as_op_data_01(&self) -> (value: Option<OpData01>)
        ensures
            match value {
                Some(data) => self@.spec_as_op_data_01() == Some(data@),
                None => self@.spec_as_op_data_01() is None,
            },
    {
        match self {
            Json::Text(s) => match OpData01::from_base64_str(s.as_str()) {
                Ok(data) => Some(data),
                Err(_) => None,
            },
            _ => None,
        }
    }

    /// The unsigned 64-bit integer under a key: fails with `MissingOrBadField` where the key is
    /// missing or its value is no such integer.
    pub fn retrieve_u64(&self, key: &str) -> (result: Result<u64, VaultError>)
        ensures
            match self@.spec_u64_at(key@) {
                Some(n) => result == Ok::<u64, VaultError>(n),
                None => spec_names_field(result, key@),
            },
    {
        let found = match self.find(key) {
            Some(v) => v.as_u64(),
            None => None,
        };
        match found {
            Some(n) => Ok(n),
            None => Err(missing_or_bad_field(key)),
        }
    }

    /// The text under a key: fails with `MissingOrBadField` where the key is missing or its
    /// value is no text.
    pub fn retrieve_string(&self, key: &str) -> (result: Result<String, VaultError>)
        ensures
            match self@.spec_text_at(key@) {
                Some(text) => result matches Ok(s) && s@ == text,
                None => spec_names_field(result, key@),
            },
    {
        let found = match self.find(key) {
            Some(v) => v.as_owned_string(),
            None => None,
        };
        match found {
            Some(s) => Ok(s),
            None => Err(missing_or_bad_field(key)),
        }
    }

    /// The truth value under a key: fails with `MissingOrBadField` where the key is missing or
    /// its value is no truth value.
    pub fn retrieve_boolean(&self, key: &str) -> (result: Result<bool, VaultError>)
        ensures
            match self@.spec_boolean_at(key@) {
                Some(b) => result == Ok::<bool, VaultError>(b),
                None => spec_names_field(result, key@),
            },
    {
        let found = match self.find(key) {
            Some(v) => v.as_boolean(),
            None => None,
        };
        match found {
            Some(b) => Ok(b),
            None => Err(missing_or_bad_field(key)),
        }
    }

    /// The base64-decoded bytes under a key: fails with `MissingOrBadField` where the key is
    /// missing or its value is no text in base64.
    pub fn retrieve_bytes(&self, key: &str) -> (result: Result<Vec<u8>, VaultError>)
        ensures
            match self@.spec_bytes_at(key@) {
                Some(bytes) => result matches Ok(b) && b@ == bytes,
                None => spec_names_field(result, key@),
            },
    {
        let found = match self.find(key) {
            Some(v) => v.decode_base64(),
            None => None,
        };
        match found {
            Some(b) => Ok(b),
            None => Err(missing_or_bad_field(key)),
        }
    }

    /// The container under a key: fails with `MissingOrBadField` where the key is missing or its
    /// value is no text in base64 whose bytes pass the container's structural checks.
    pub fn retrieve_op_data_01(&self, key: &str) -> (result: Result<OpData01, VaultError>)
        ensures
            match self@.spec_op_data_01_at(key@) {
                Some(bytes) => result matches Ok(data) && data@ == bytes,
                None => spec_names_field(result, key@),
            },
    {
        let found = match self.find(key) {
            Some(v) => v.as_op_data_01(),
            None => None,
        };
        match found {
            Some(data) => Ok(data),
            None => Err(missing_or_bad_field(key)),
        }
    }
}

} // verus!
