//! The attachments of an agile keychain: files that sit beside a JSON description each, in one
//! directory per item.

use vstd::prelude::*;
use crate::error::VaultError;
use crate::json::{json_parsed, parse_json, spec_names_field, Json, JsonValue};

verus! {

/// Where the attachments lie below a keychain.
pub const FILES_DIR_REL_PATH: &'static str = "a/default/files";

/// The extension of the file that describes an attachment.
pub const METADATA_EXTENSION: &'static str = "def";

/// What the description of an attachment holds.
pub struct MetadataView {
    pub encryption_key_uuid: Seq<char>,
    pub file_name: Seq<char>,
    pub encrypted: bool,
}

/// What an attachment holds.
pub struct AttachmentView {
    pub uuid: Seq<char>,
    pub path: Seq<char>,
    pub metadata: MetadataView,
}

/// The description that a JSON value gives, or the name of the first field, in the order
/// below, that is missing or of the wrong type.
pub open spec fn spec_metadata_of(json: JsonValue) -> Result<MetadataView, Seq<char>> {
    if json.spec_text_at("encryptionKey"@) is None {
        Err("encryptionKey"@)
    } else if json.spec_text_at("filename"@) is None {
        Err("filename"@)
    } else if json.spec_boolean_at("encrypted"@) is None {
        Err("encrypted"@)
    } else {
        Ok(
            MetadataView {
                encryption_key_uuid: json.spec_text_at("encryptionKey"@)->Some_0,
                file_name: json.spec_text_at("filename"@)->Some_0,
                encrypted: json.spec_boolean_at("encrypted"@)->Some_0,
            },
        )
    }
}

/// Whether reading a description ended as the JSON value says: with the description, or with
/// `MissingOrBadField` and the name of the offending field.
pub open spec fn spec_described_as(result: Result<Metadata, VaultError>, json: JsonValue) -> bool {
    match spec_metadata_of(json) {
        Ok(view) => result matches Ok(metadata) && metadata@ == view,
        Err(field) => spec_names_field(result, field),
    }
}

/// Whether a directory entry is an attachment: a file whose name has no extension.
pub fn is_attachment_file(is_file: bool, has_extension: bool) -> (attachment: bool)
    ensures
        attachment == (is_file && !has_extension),
{
    is_file && !has_extension
}

/// The description of an attachment.
#[derive(Debug)]
pub struct Metadata {
    encryption_key_uuid: String,
    file_name: String,
    encrypted: bool,
}

impl View for Metadata {
    type V = MetadataView;

    closed spec fn view(&self) -> MetadataView {
        MetadataView {
            encryption_key_uuid: self.encryption_key_uuid@,
            file_name: self.file_name@,
            encrypted: self.encrypted,
        }
    }
}

impl Clone for Metadata {
    fn clone(&self) -> (copy: Self)
        ensures
            copy@ == self@,
    {
        Metadata {
            encryption_key_uuid: self.encryption_key_uuid.clone(),
            file_name: self.file_name.clone(),
            encrypted: self.encrypted,
        }
    }
}

impl Metadata {
    /// Reads a description from a JSON value: fails with `MissingOrBadField` and the name of
    /// the first field that is missing or of the wrong type.
    pub fn from_json(json: &Json) -> (result: Result<Self, VaultError>)
        ensures
            spec_described_as(result, json@),
    {
        let encryption_key_uuid = json.retrieve_string("encryptionKey")?;
        let file_name = json.retrieve_string("filename")?;
        let encrypted = json.retrieve_boolean("encrypted")?;
        Ok(Metadata { encryption_key_uuid, file_name, encrypted })
    }

    /// Reads a description from the contents of its file: fails with `MalformedJson` where they
    /// are not JSON, and as `from_json` does where the JSON is no description.
    pub fn new(contents: &[u8]) -> (result: Result<Self, VaultError>)
        ensures
            match json_parsed(contents@) {
                Some(json) => spec_described_as(result, json),
                None => result matches Err(VaultError::MalformedJson(_)),
            },
    {
        let json = parse_json(contents)?;
        Metadata::from_json(&json)
    }

    pub fn file_name(&self) -> (name: &str)
        ensures
            name@ == self@.file_name,
    {
        self.file_name.as_str()
    }

    pub fn encryption_key_uuid(&self) -> (uuid: &str)
        ensures
            uuid@ == self@.encryption_key_uuid,
    {
        self.encryption_key_uuid.as_str()
    }

    pub fn encrypted(&self) -> (encrypted: bool)
        ensures
            encrypted == self@.encrypted,
    {
        self.encrypted
    }
}

/// A file attached to an item, with its description.
#[derive(Debug)]
pub struct Attachment {
    uuid: String,
    path: String,
    metadata: Metadata,
}

impl View for Attachment {
    type V = AttachmentView;

    closed spec fn view(&self) -> AttachmentView {
        AttachmentView { uuid: self.uuid@, path: self.path@, metadata: self.metadata@ }
    }
}

impl Clone for Attachment {
    fn clone(&self) -> (copy: Self)
        ensures
            copy@ == self@,
    {
        Attachment {
            uuid: self.uuid.clone(),
            path: self.path.clone(),
            metadata: self.metadata.clone(),
        }
    }
}

impl Attachment {
    /// An attachment from its uuid, which is its file's name, the file's path and the
    /// description read from beside it.
    pub fn new(uuid: String, path: String, metadata: Metadata) -> (attachment: Self)
        ensures
            attachment@ == (AttachmentView { uuid: uuid@, path: path@, metadata: metadata@ }),
    {
        Attachment { uuid, path, metadata }
    }

    pub fn uuid(&self) -> (uuid: &str)
        ensures
            uuid@ == self@.uuid,
    {
        self.uuid.as_str()
    }

    pub fn path(&self) -> (path: &str)
        ensures
            path@ == self@.path,
    {
        self.path.as_str()
    }

    pub fn metadata(&self) -> (metadata: &Metadata)
        ensures
            metadata@ == self@.metadata,
    {
        &self.metadata
    }
}

/// The attachments of one item.
#[derive(Debug)]
pub struct ArchiveEntry {
    uuid: String,
    attachments: Vec<Attachment>,
}

impl ArchiveEntry {
    /// The item's uuid, which is its directory's name.
    pub closed spec fn spec_uuid(&self) -> Seq<char> {
        self.uuid@
    }

    /// The item's attachments, in order.
    pub closed spec fn spec_attachments(&self) -> Seq<AttachmentView> {
        Seq::new(self.attachments@.len(), |i: int| self.attachments@[i]@)
    }

    /// An entry from the item's uuid and its attachments.
    pub fn new(uuid: String, attachments: Vec<Attachment>) -> (entry: Self)
        ensures
            entry.spec_uuid() == uuid@,
            entry.spec_attachments() == Seq::new(attachments@.len(), |i: int| attachments@[i]@),
    {
        ArchiveEntry { uuid, attachments }
    }

    pub fn uuid(&self) -> (uuid: &str)
        ensures
            uuid@ == self.spec_uuid(),
    {
        self.uuid.as_str()
    }

    pub fn attachments(&self) -> (attachments: &Vec<Attachment>)
        ensures
            attachments@.len() == self.spec_attachments().len(),
            forall|i: int|
                0 <= i < attachments@.len() ==> (#[trigger] attachments@[i])@
                    == self.spec_attachments()[i],
    {
        &self.attachments
    }
}

/// The attachments of the first `upto` entries, one entry after the other.
pub open spec fn spec_attachments_upto(entries: Seq<ArchiveEntry>, upto: int) -> Seq<
    AttachmentView,
>
    decreases upto,
{
    if upto <= 0 {
        Seq::empty()
    } else {
        spec_attachments_upto(entries, upto - 1) + entries[upto - 1].spec_attachments()
    }
}

/// The attachments of a keychain, item by item.
#[derive(Debug)]
pub struct Archive {
    entries: Vec<ArchiveEntry>,
}

impl Archive {
    /// The entries, in order.
    pub closed spec fn spec_entries(&self) -> Seq<ArchiveEntry> {
        self.entries@
    }

    /// All attachments, one entry after the other.
    pub open spec fn spec_attachments(&self) -> Seq<AttachmentView> {
        spec_attachments_upto(self.spec_entries(), self.spec_entries().len() as int)
    }

    /// An archive from the entries found below a keychain.
    pub fn new(entries: Vec<ArchiveEntry>) -> (archive: Self)
        ensures
            archive.spec_entries() == entries@,
    {
        Archive { entries }
    }

    pub fn entries(&self) -> (entries: &Vec<ArchiveEntry>)
        ensures
            entries@ == self.spec_entries(),
    {
        &self.entries
    }

    /// Copies of all attachments, one entry after the other, each entry's in its own order.
    pub fn attachments(&self) -> (all: Vec<Attachment>)
        ensures
            all@.len() == self.spec_attachments().len(),
            forall|i: int| 0 <= i < all@.len() ==> (#[trigger] all@[i])@ == self.spec_attachments()[i],
    {
        let mut all: Vec<Attachment> = Vec::new();
        let mut e: usize = 0;
        while e < self.entries.len()
            invariant
                0 <= e <= self.entries@.len(),
                all@.len() == spec_attachments_upto(self.entries@, e as int).len(),
                forall|i: int|
                    0 <= i < all@.len() ==> (#[trigger] all@[i])@ == spec_attachments_upto(
                        self.entries@,
                        e as int,
                    )[i],
            decreases self.entries@.len() - e,
        {
            let attachments = self.entries[e].attachments();
            let ghost before = spec_attachments_upto(self.entries@, e as int);
            let ghost entry = self.entries@[e as int].spec_attachments();
            assert(spec_attachments_upto(self.entries@, e + 1) == before + entry);
            let mut a: usize = 0;
            while a < attachments.len()
                invariant
                    0 <= a <= attachments@.len(),
                    attachments@.len() == entry.len(),
                    forall|i: int|
                        0 <= i < attachments@.len() ==> (#[trigger] attachments@[i])@ == entry[i],
                    all@.len() == before.len() + a,
                    forall|i: int|
                        0 <= i < all@.len() ==> (#[trigger] all@[i])@ == (before + entry)[i],
                decreases attachments@.len() - a,
            {
                all.push(attachments[a].clone());
                a += 1;
            }
            e += 1;
        }
        all
    }
}

} // verus!
