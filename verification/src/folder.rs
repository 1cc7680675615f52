//! The folders of a vault.

use vstd::prelude::*;
use vstd::string::StringSliceAdditionalSpecFns;
use crate::error::VaultError;
use crate::json::{
    json_parsed, parse_json, spec_names_field, spec_strip_wrapper, strip_wrapper, Json, JsonValue,
};

verus! {

/// A folders file without the JavaScript around its JSON: `loadFolders(` in front and `);`
/// behind, each removed once if it is there.
pub open spec fn spec_strip_js(text: Seq<u8>) -> Seq<u8> {
    spec_strip_wrapper(text, "loadFolders(".spec_bytes(), ");".spec_bytes())
}

/// Removes the JavaScript around the JSON of a folders file.
pub fn strip_js(text: &[u8]) -> (json: &[u8])
    ensures
        json@ == spec_strip_js(text@),
{
    strip_wrapper(text, "loadFolders(".as_bytes(), ");".as_bytes())
}

/// What a folder record holds.
pub struct FolderView {
    pub created: u64,
    /// The folder's overview, still encrypted.
    pub overview: Seq<char>,
    pub smart: bool,
    pub tx: u64,
    pub updated: u64,
    pub uuid: Seq<char>,
}

/// The folder that a JSON value describes, or the name of the first field, in the order
/// below, that is missing or of the wrong type. A folder that does not say whether it is smart
/// is not.
pub open spec fn spec_folder_of(json: JsonValue) -> Result<FolderView, Seq<char>> {
    if json.spec_u64_at("created"@) is None {
        Err("created"@)
    } else if json.spec_text_at("overview"@) is None {
        Err("overview"@)
    } else if json.spec_u64_at("tx"@) is None {
        Err("tx"@)
    } else if json.spec_u64_at("updated"@) is None {
        Err("updated"@)
    } else if json.spec_text_at("uuid"@) is None {
        Err("uuid"@)
    } else {
        Ok(
            FolderView {
                created: json.spec_u64_at("created"@)->Some_0,
                overview: json.spec_text_at("overview"@)->Some_0,
                smart: match json.spec_boolean_at("smart"@) {
                    Some(smart) => smart,
                    None => false,
                },
                tx: json.spec_u64_at("tx"@)->Some_0,
                updated: json.spec_u64_at("updated"@)->Some_0,
                uuid: json.spec_text_at("uuid"@)->Some_0,
            },
        )
    }
}

/// A folder whose overview has not been decrypted.
#[derive(Clone, Debug)]
pub struct LockedFolder {
    created: u64,
    overview: String,
    smart: bool,
    tx: u64,
    updated: u64,
    uuid: String,
}

impl View for LockedFolder {
    type V = FolderView;

    closed spec fn view(&self) -> FolderView {
        FolderView {
            created: self.created,
            overview: self.overview@,
            smart: self.smart,
            tx: self.tx,
            updated: self.updated,
            uuid: self.uuid@,
        }
    }
}

impl LockedFolder {
    /// Builds the folder that a JSON value describes: fails with `MissingOrBadField` and the
    /// name of the first field that is missing or of the wrong type.
    pub fn from_json(json: &Json) -> (result: Result<Self, VaultError>)
        ensures
            match spec_folder_of(json@) {
                Ok(view) => result matches Ok(folder) && folder@ == view,
                Err(field) => spec_names_field(result, field),
            },
    {
        let created = json.retrieve_u64("created")?;
        let overview = json.retrieve_string("overview")?;
        let smart = match json.retrieve_boolean("smart") {
            Ok(smart) => smart,
            Err(_) => false,
        };
        let tx = json.retrieve_u64("tx")?;
        let updated = json.retrieve_u64("updated")?;
        let uuid = json.retrieve_string("uuid")?;
        Ok(LockedFolder { created, overview, smart, tx, updated, uuid })
    }

    pub fn created(&self) -> (created: u64)
        ensures
            created == self@.created,
    {
        self.created
    }

    pub fn updated(&self) -> (updated: u64)
        ensures
            updated == self@.updated,
    {
        self.updated
    }

    pub fn tx(&self) -> (tx: u64)
        ensures
            tx == self@.tx,
    {
        self.tx
    }

    pub fn smart(&self) -> (smart: bool)
        ensures
            smart == self@.smart,
    {
        self.smart
    }

    pub fn overview(&self) -> (overview: &str)
        ensures
            overview@ == self@.overview,
    {
        self.overview.as_str()
    }

    pub fn uuid(&self) -> (uuid: &str)
        ensures
            uuid@ == self@.uuid,
    {
        self.uuid.as_str()
    }
}

/// The folders of a vault by their uuid. Each uuid occurs once.
pub struct FolderMap {
    entries: Vec<(String, LockedFolder)>,
    model: Ghost<Map<Seq<char>, FolderView>>,
}

impl View for FolderMap {
    type V = Map<Seq<char>, FolderView>;

    closed spec fn view(&self) -> Map<Seq<char>, FolderView> {
        self.model@
    }
}

impl FolderMap {
    #[verifier::type_invariant]
    spec fn consistent(&self) -> bool {
        &&& self.model@.dom().finite()
        &&& self.model@.dom().len() == self.entries@.len()
        &&& forall|i: int|
            0 <= i < self.entries@.len() ==> {
                let entry = #[trigger] self.entries@[i];
                self.model@.contains_key(entry.0@) && self.model@[entry.0@] == entry.1@
            }
        &&& forall|i: int, j: int|
            0 <= i < j < self.entries@.len() ==> (#[trigger] self.entries@[i]).0@ != (
            #[trigger] self.entries@[j]).0@
        &&& forall|k: Seq<char>| #[trigger]
            self.model@.contains_key(k) ==> exists|i: int|
                0 <= i < self.entries@.len() && (#[trigger] self.entries@[i]).0@ == k
    }

    /// A map without folders.
    pub fn new() -> (map: Self)
        ensures
            map@ == Map::<Seq<char>, FolderView>::empty(),
    {
        FolderMap { entries: Vec::new(), model: Ghost(Map::empty()) }
    }

    /// The number of folders.
    pub fn len(&self) -> (len: usize)
        ensures
            self@.dom().finite(),
            len == self@.dom().len(),
    {
        proof {
            use_type_invariant(self);
        }
        self.entries.len()
    }

    pub fn is_empty(&self) -> (empty: bool)
        ensures
            empty == (self@ == Map::<Seq<char>, FolderView>::empty()),
    {
        proof {
            use_type_invariant(self);
            if self.entries@.len() == 0 {
                assert(self@.dom().len() == 0);
                assert(self@ =~= Map::<Seq<char>, FolderView>::empty());
            } else {
                assert(self@.contains_key(self.entries@[0].0@));
            }
        }
        self.entries.len() == 0
    }

    /// Where a uuid stands among the entries.
    fn position(&self, uuid: &String) -> (at: Option<usize>)
        ensures
            match at {
                Some(i) => i < self.entries@.len() && self.entries@[i as int].0@ == uuid@,
                None => !self@.contains_key(uuid@),
            },
    {
        proof {
            use_type_invariant(self);
        }
        let mut i: usize = 0;
        while i < self.entries.len()
            invariant
                0 <= i <= self.entries@.len(),
                forall|j: int| 0 <= j < i ==> (#[trigger] self.entries@[j]).0@ != uuid@,
            decreases self.entries@.len() - i,
        {
            if self.entries[i].0 == *uuid {
                return Some(i);
            }
            i += 1;
        }
        None
    }

    /// The folder under a uuid, if there is one.
    pub fn get(&self, uuid: &str) -> (folder: Option<&LockedFolder>)
        ensures
            match folder {
                Some(f) => self@.contains_key(uuid@) && self@[uuid@] == f@,
                None => !self@.contains_key(uuid@),
            },
    {
        proof {
            use_type_invariant(self);
        }
        let wanted = uuid.to_owned();
        match self.position(&wanted) {
            Some(i) => {
                assert(self@[self.entries@[i as int].0@] == self.entries@[i as int].1@);
                Some(&self.entries[i].1)
            },
            None => None,
        }
    }

    /// Puts a folder under a uuid, in place of the one that was there, if any.
    pub fn insert(&mut self, uuid: String, folder: LockedFolder)
        ensures
            final(self)@ == old(self)@.insert(uuid@, folder@),
    {
        proof {
            use_type_invariant(&*self);
        }
        let at = self.position(&uuid);
        let ghost model = self.model@.insert(uuid@, folder@);
        let mut taken = FolderMap::new();
        core::mem::swap(self, &mut taken);
        let FolderMap { entries, model: _ } = taken;
        let ghost before = entries@;
        let mut entries = entries;
        match at {
            Some(i) => {
                assert(old(self).model@.contains_key(before[i as int].0@));
                assert(model.dom() =~= old(self).model@.dom());
                entries.set(i, (uuid, folder));
                assert forall|k: Seq<char>| #[trigger] model.contains_key(k) implies exists|j: int|
                    0 <= j < entries@.len() && (#[trigger] entries@[j]).0@ == k by {
                    let j = choose|j: int| 0 <= j < before.len() && (#[trigger] before[j]).0@ == k;
                    assert(entries@[j].0@ == k);
                }
                assert forall|a: int, b: int| 0 <= a < b < entries@.len() implies (
                #[trigger] entries@[a]).0@ != (#[trigger] entries@[b]).0@ by {
                    assert(before[a].0@ != before[b].0@);
                }
                assert forall|j: int| 0 <= j < entries@.len() implies {
                    let entry = #[trigger] entries@[j];
                    model.contains_key(entry.0@) && model[entry.0@] == entry.1@
                } by {
                    if j != i {
                        assert(before[j].0@ != before[i as int].0@);
                        assert(entries@[j] == before[j]);
                    }
                }
            },
            None => {
                entries.push((uuid, folder));
                assert forall|k: Seq<char>| #[trigger] model.contains_key(k) implies exists|j: int|
                    0 <= j < entries@.len() && (#[trigger] entries@[j]).0@ == k by {
                    if k == uuid@ {
                        assert(entries@[before.len() as int].0@ == k);
                    } else {
                        let j = choose|j: int|
                            0 <= j < before.len() && (#[trigger] before[j]).0@ == k;
                        assert(entries@[j].0@ == k);
                    }
                }
                assert forall|a: int, b: int| 0 <= a < b < entries@.len() implies (
                #[trigger] entries@[a]).0@ != (#[trigger] entries@[b]).0@ by {
                    if b < before.len() {
                        assert(before[a].0@ != before[b].0@);
                    } else {
                        assert(entries@[a] == before[a]);
                    }
                }
                assert forall|j: int| 0 <= j < entries@.len() implies {
                    let entry = #[trigger] entries@[j];
                    model.contains_key(entry.0@) && model[entry.0@] == entry.1@
                } by {
                    if j < before.len() {
                        assert(entries@[j] == before[j]);
                    }
                }
            },
        }
        *self = FolderMap { entries, model: Ghost(model) };
    }

    /// The folders with their uuids, each once, in no particular order.
    pub fn entries(&self) -> (entries: &Vec<(String, LockedFolder)>)
        ensures
            self@.dom().finite(),
            entries@.len() == self@.dom().len(),
            forall|i: int|
                0 <= i < entries@.len() ==> {
                    let entry = #[trigger] entries@[i];
                    self@.contains_key(entry.0@) && self@[entry.0@] == entry.1@
                },
            forall|i: int, j: int|
                0 <= i < j < entries@.len() ==> (#[trigger] entries@[i]).0@ != (
                #[trigger] entries@[j]).0@,
    {
        proof {
            use_type_invariant(self);
        }
        &self.entries
    }
}

/// The folders that the members of a JSON object describe, by the members' keys; a later member
/// takes the place of an earlier one with the same key. Or the name of the field that is
/// missing or of the wrong type in the first member that describes no folder.
pub open spec fn spec_folder_map_of(members: Seq<(Seq<char>, JsonValue)>) -> Result<
    Map<Seq<char>, FolderView>,
    Seq<char>,
>
    decreases members.len(),
{
    if members.len() == 0 {
        Ok(Map::empty())
    } else {
        match spec_folder_map_of(members.drop_last()) {
            Err(field) => Err(field),
            Ok(map) => match spec_folder_of(members.last().1) {
                Err(field) => Err(field),
                Ok(folder) => Ok(map.insert(members.last().0, folder)),
            },
        }
    }
}

/// What loading a folder map from a JSON value gives: the folders of an object's members, the
/// error of the first member that describes no folder, or `MalformedJson` for a value that is
/// no object.
pub open spec fn spec_loaded_as(result: Result<FolderMap, VaultError>, json: JsonValue) -> bool {
    match json {
        JsonValue::Object(members) => match spec_folder_map_of(members) {
            Ok(map) => result matches Ok(folders) && folders@ == map,
            Err(field) => spec_names_field(result, field),
        },
        _ => result matches Err(VaultError::MalformedJson(_)),
    }
}

/// Builds the folder map that a JSON value describes: an object with a folder under each uuid.
pub fn folder_map_from_json(json: &Json) -> (result: Result<FolderMap, VaultError>)
    ensures
        spec_loaded_as(result, json@),
{
    let members = match json.members() {
        Some(members) => members,
        None => {
            return Err(VaultError::MalformedJson("root must be object".to_owned()));
        },
    };
    let ghost pairs = json@->Object_0;
    let mut map = FolderMap::new();
    let mut i: usize = 0;
    assert(pairs.take(0) =~= Seq::empty());
    while i < members.len()
        invariant
            0 <= i <= members@.len(),
            json@ == JsonValue::Object(pairs),
            pairs.len() == members@.len(),
            forall|j: int|
                0 <= j < members@.len() ==> pairs[j] == ((#[trigger] members@[j]).0@, members@[j].1@),
            spec_folder_map_of(pairs.take(i as int)) == Ok::<Map<Seq<char>, FolderView>, Seq<char>>(
                map@,
            ),
        decreases members@.len() - i,
    {
        let ghost next = pairs.take(i + 1);
        assert(next.drop_last() =~= pairs.take(i as int));
        assert(next.last() == pairs[i as int]);
        assert(pairs[i as int] == (members@[i as int].0@, members@[i as int].1@));
        match LockedFolder::from_json(&members[i].1) {
            Ok(folder) => {
                map.insert(members[i].0.clone(), folder);
            },
            Err(e) => {
                proof {
                    lemma_first_failure_decides(pairs, i + 1);
                    assert(pairs.take(pairs.len() as int) =~= pairs);
                }
                return Err(e);
            },
        }
        i += 1;
    }
    assert(pairs.take(i as int) =~= pairs);
    Ok(map)
}

/// Once the members up to some point describe no folder map, no longer list of members does.
proof fn lemma_first_failure_decides(members: Seq<(Seq<char>, JsonValue)>, upto: int)
    requires
        0 <= upto <= members.len(),
        spec_folder_map_of(members.take(upto)) is Err,
    ensures
        spec_folder_map_of(members) == spec_folder_map_of(members.take(upto)),
    decreases members.len() - upto,
{
    if upto == members.len() {
        assert(members.take(upto) =~= members);
    } else {
        let longer = members.take(upto + 1);
        assert(longer.drop_last() =~= members.take(upto));
        lemma_first_failure_decides(members, upto + 1);
    }
}

/// Builds the folder map from the contents of a folders file: the JavaScript around the JSON is
/// removed, the rest parsed. Fails with `MalformedJson` where the rest is not JSON or not an
/// object, and with `MissingOrBadField` where a member describes no folder.
pub fn load_folder_map(contents: &str) -> (result: Result<FolderMap, VaultError>)
    ensures
        match json_parsed(spec_strip_js(contents.spec_bytes())) {
            Some(json) => spec_loaded_as(result, json),
            None => result matches Err(VaultError::MalformedJson(_)),
        },
{
    let json = parse_json(strip_js(contents.as_bytes()))?;
    folder_map_from_json(&json)
}

} // verus!
