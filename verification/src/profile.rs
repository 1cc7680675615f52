//! The profile of a vault: what is needed to unlock it, and what unlocking yields.

use vstd::prelude::*;
use vstd::string::StringSliceAdditionalSpecFns;
use crate::crypto::{pbkdf2_hmac_sha512, sha512};
use crate::error::VaultError;
use crate::json::{json_parsed, parse_json, spec_strip_wrapper, strip_wrapper, Json, JsonValue};
use crate::key::{
    spec_enc_half, spec_mac_half, DerivedKey, Key, MainKey, KEY_MATERIAL_LEN,
};
use crate::op_data_01::{spec_authentic_bytes, spec_openable, spec_plaintext_of, OpData01};

verus! {

/// A profile file without the JavaScript around its JSON: `var profile=` in front and `;`
/// behind, each removed once if it is there.
pub open spec fn spec_strip_js(text: Seq<u8>) -> Seq<u8> {
    spec_strip_wrapper(text, "var profile=".spec_bytes(), ";".spec_bytes())
}

/// Removes the JavaScript around a profile's JSON.
pub fn strip_js(text: &[u8]) -> (json: &[u8])
    ensures
        json@ == spec_strip_js(text@),
{
    strip_wrapper(text, "var profile=".as_bytes(), ";".as_bytes())
}

/// What a locked profile holds.
pub struct LockedProfileView {
    pub created_at: u64,
    pub iterations: nat,
    pub last_updated_by: Seq<char>,
    /// The bytes of the container that holds the master key.
    pub master_key: Seq<u8>,
    /// The bytes of the container that holds the overview key.
    pub overview_key: Seq<u8>,
    pub profile_name: Seq<char>,
    pub salt: Seq<u8>,
    pub updated_at: u64,
    pub uuid: Seq<char>,
}

/// What an unlocked profile holds: the locked profile's fields, with a key pair in place of
/// each container.
pub struct ProfileView {
    pub created_at: u64,
    pub iterations: nat,
    pub last_updated_by: Seq<char>,
    pub master_enc_key: Seq<u8>,
    pub master_mac_key: Seq<u8>,
    pub overview_enc_key: Seq<u8>,
    pub overview_mac_key: Seq<u8>,
    pub profile_name: Seq<char>,
    pub salt: Seq<u8>,
    pub updated_at: u64,
    pub uuid: Seq<char>,
}

/// Whether an iteration count read from a profile can be used: present, at least 1, and no
/// more than the machine can count.
pub open spec fn spec_usable_iterations(read: Option<u64>) -> bool {
    read matches Some(n) && 1 <= n <= usize::MAX
}

/// Whether a salt read from a profile can be used: present and not empty.
pub open spec fn spec_usable_salt(read: Option<Seq<u8>>) -> bool {
    read matches Some(salt) && salt.len() > 0
}

/// The profile that a JSON value describes, or the name of the first field, in the order
/// below, that is missing or unusable.
pub open spec fn spec_profile_of(json: JsonValue) -> Result<LockedProfileView, Seq<char>> {
    if json.spec_u64_at("createdAt"@) is None {
        Err("createdAt"@)
    } else if !spec_usable_iterations(json.spec_u64_at("iterations"@)) {
        Err("iterations"@)
    } else if json.spec_text_at("lastUpdatedBy"@) is None {
        Err("lastUpdatedBy"@)
    } else if json.spec_op_data_01_at("masterKey"@) is None {
        Err("masterKey"@)
    } else if json.spec_op_data_01_at("overviewKey"@) is None {
        Err("overviewKey"@)
    } else if json.spec_text_at("profileName"@) is None {
        Err("profileName"@)
    } else if !spec_usable_salt(json.spec_bytes_at("salt"@)) {
        Err("salt"@)
    } else if json.spec_u64_at("updatedAt"@) is None {
        Err("updatedAt"@)
    } else if json.spec_text_at("uuid"@) is None {
        Err("uuid"@)
    } else {
        Ok(
            LockedProfileView {
                created_at: json.spec_u64_at("createdAt"@)->Some_0,
                iterations: json.spec_u64_at("iterations"@)->Some_0 as nat,
                last_updated_by: json.spec_text_at("lastUpdatedBy"@)->Some_0,
                master_key: json.spec_op_data_01_at("masterKey"@)->Some_0,
                overview_key: json.spec_op_data_01_at("overviewKey"@)->Some_0,
                profile_name: json.spec_text_at("profileName"@)->Some_0,
                salt: json.spec_bytes_at("salt"@)->Some_0,
                updated_at: json.spec_u64_at("updatedAt"@)->Some_0,
                uuid: json.spec_text_at("uuid"@)->Some_0,
            },
        )
    }
}

/// Whether loading a profile ended as the description of the profile says: with the profile,
/// or with `MalformedProfile` and the name of the offending field.
pub open spec fn spec_loaded_as(
    result: Result<LockedProfile, VaultError>,
    described: Result<LockedProfileView, Seq<char>>,
) -> bool {
    match described {
        Ok(view) => result matches Ok(profile) && profile@ == view,
        Err(field) => result matches Err(VaultError::MalformedProfile(name)) && name@ == field,
    }
}

/// Turns the failure of a typed read into `MalformedProfile` with the field's name.
pub fn profile_field<T>(read: Result<T, VaultError>, key: &str) -> (result: Result<T, VaultError>)
    ensures
        match read {
            Ok(value) => result == Ok::<T, VaultError>(value),
            Err(_) => result matches Err(VaultError::MalformedProfile(name)) && name@ == key@,
        },
{
    match read {
        Ok(value) => Ok(value),
        Err(_) => Err(VaultError::MalformedProfile(key.to_owned())),
    }
}

/// A vault's unlock material: the parameters of the key derivation and the two containers
/// that hold the vault's keys.
#[derive(Debug)]
pub struct LockedProfile {
    created_at: u64,
    iterations: usize,
    last_updated_by: String,
    master_key: OpData01,
    overview_key: OpData01,
    profile_name: String,
    salt: Vec<u8>,
    updated_at: u64,
    uuid: String,
}

impl View for LockedProfile {
    type V = LockedProfileView;

    closed spec fn view(&self) -> LockedProfileView {
        LockedProfileView {
            created_at: self.created_at,
            iterations: self.iterations as nat,
            last_updated_by: self.last_updated_by@,
            master_key: self.master_key@,
            overview_key: self.overview_key@,
            profile_name: self.profile_name@,
            salt: self.salt@,
            updated_at: self.updated_at,
            uuid: self.uuid@,
        }
    }
}

impl Clone for LockedProfile {
    fn clone(&self) -> (copy: Self)
        ensures
            copy@ == self@,
    {
        proof {
            use_type_invariant(self);
        }
        LockedProfile {
            created_at: self.created_at,
            iterations: self.iterations,
            last_updated_by: self.last_updated_by.clone(),
            master_key: self.master_key.clone(),
            overview_key: self.overview_key.clone(),
            profile_name: self.profile_name.clone(),
            salt: self.salt.clone(),
            updated_at: self.updated_at,
            uuid: self.uuid.clone(),
        }
    }
}

impl LockedProfile {
    #[verifier::type_invariant]
    spec fn usable(&self) -> bool {
        self.iterations >= 1 && self.salt@.len() > 0
    }

    /// Builds the profile that a JSON value describes: fails with `MalformedProfile` and the
    /// name of the first field that is missing, of the wrong type or unusable. A count of
    /// iterations must be at least 1 and a salt must not be empty.
    pub fn from_json(json: &Json) -> (result: Result<Self, VaultError>)
        ensures
            spec_loaded_as(result, spec_profile_of(json@)),
    {
        let created_at = profile_field(json.retrieve_u64("createdAt"), "createdAt")?;
        let iterations = profile_field(json.retrieve_u64("iterations"), "iterations")?;
        if iterations < 1 || iterations > usize::MAX as u64 {
            return Err(VaultError::MalformedProfile("iterations".to_owned()));
        }
        let last_updated_by = profile_field(
            json.retrieve_string("lastUpdatedBy"),
            "lastUpdatedBy",
        )?;
        let master_key = profile_field(json.retrieve_op_data_01("masterKey"), "masterKey")?;
        let overview_key = profile_field(json.retrieve_op_data_01("overviewKey"), "overviewKey")?;
        let profile_name = profile_field(json.retrieve_string("profileName"), "profileName")?;
        let salt = profile_field(json.retrieve_bytes("salt"), "salt")?;
        if salt.len() == 0 {
            return Err(VaultError::MalformedProfile("salt".to_owned()));
        }
        let updated_at = profile_field(json.retrieve_u64("updatedAt"), "updatedAt")?;
        let uuid = profile_field(json.retrieve_string("uuid"), "uuid")?;
        Ok(
            LockedProfile {
                created_at,
                iterations: iterations as usize,
                last_updated_by,
                master_key,
                overview_key,
                profile_name,
                salt,
                updated_at,
                uuid,
            },
        )
    }

    /// Builds the profile from the contents of a profile file: the JavaScript around the JSON is
    /// removed, the rest parsed. Fails with `MalformedJson` where the rest is not JSON, and as
    /// `from_json` does where the JSON is no profile.
    pub fn from_file(contents: &str) -> (result: Result<Self, VaultError>)
        ensures
            match json_parsed(spec_strip_js(contents.spec_bytes())) {
                Some(json) => spec_loaded_as(result, spec_profile_of(json)),
                None => result matches Err(VaultError::MalformedJson(_)),
            },
    {
        let json = parse_json(strip_js(contents.as_bytes()))?;
        LockedProfile::from_json(&json)
    }

    pub fn created_at(&self) -> (created_at: u64)
        ensures
            created_at == self@.created_at,
    {
        self.created_at
    }

    pub fn updated_at(&self) -> (updated_at: u64)
        ensures
            updated_at == self@.updated_at,
    {
        self.updated_at
    }

    pub fn iterations(&self) -> (iterations: usize)
        ensures
            iterations == self@.iterations,
            iterations >= 1,
    {
        proof {
            use_type_invariant(self);
        }
        self.iterations
    }

    pub fn salt(&self) -> (salt: &[u8])
        ensures
            salt@ == self@.salt,
            salt@.len() > 0,
    {
        proof {
            use_type_invariant(self);
        }
        self.salt.as_slice()
    }

    pub fn last_updated_by(&self) -> (name: &str)
        ensures
            name@ == self@.last_updated_by,
    {
        self.last_updated_by.as_str()
    }

    pub fn profile_name(&self) -> (name: &str)
        ensures
            name@ == self@.profile_name,
    {
        self.profile_name.as_str()
    }

    pub fn uuid(&self) -> (uuid: &str)
        ensures
            uuid@ == self@.uuid,
    {
        self.uuid.as_str()
    }

    /// The container that holds the master key.
    pub fn master_key(&self) -> (data: &OpData01)
        ensures
            data@ == self@.master_key,
    {
        &self.master_key
    }

    /// The container that holds the overview key.
    pub fn overview_key(&self) -> (data: &OpData01)
        ensures
            data@ == self@.overview_key,
    {
        &self.overview_key
    }

    /// The unlocked profile, if both keys were unwrapped: this profile's fields with the two
    /// key pairs in place of the containers. Absent if either is absent.
    pub fn assemble(&self, master_key: Option<MainKey>, overview_key: Option<MainKey>) -> (profile:
        Option<Profile>)
        ensures
            profile is Some <==> master_key is Some && overview_key is Some,
            profile matches Some(p) ==> p@ == self@.spec_with_keys(
                master_key->Some_0.spec_enc_key(),
                master_key->Some_0.spec_mac_key(),
                overview_key->Some_0.spec_enc_key(),
                overview_key->Some_0.spec_mac_key(),
            ),
    {
        match (master_key, overview_key) {
            (Some(master_key), Some(overview_key)) => Some(
                Profile {
                    created_at: self.created_at,
                    iterations: self.iterations,
                    last_updated_by: self.last_updated_by.clone(),
                    master_key,
                    overview_key,
                    profile_name: self.profile_name.clone(),
                    salt: self.salt.clone(),
                    updated_at: self.updated_at,
                    uuid: self.uuid.clone(),
                },
            ),
            _ => None,
        }
    }

    /// Unlocks the profile with a password. A key pair is derived from the password, the salt
    /// and the iteration count; both containers are then tried with it, the second also when
    /// the first has failed; the cleartext of each is hashed into a key pair.
    ///
    /// Absent when the password does not authenticate both containers, when the password, the
    /// salt, the count or a ciphertext is larger than OpenSSL takes, or when a step fails.
    pub fn unlock(&self, password: &str) -> (profile: Option<Profile>)
        ensures
            profile matches Some(p) ==> self@.spec_accepts(password.spec_bytes()) && p@
                == self@.spec_unlocked(password.spec_bytes()),
            !self@.spec_accepts(password.spec_bytes()) ==> profile is None,
            !self@.spec_can_unlock(password.spec_bytes()) ==> profile is None,
    {
        let derived_key = match DerivedKey::from_password(
            password,
            self.salt.as_slice(),
            self.iterations,
        ) {
            Some(key) => key,
            None => {
                return None;
            },
        };
        let master_key = MainKey::from_op_data(&derived_key, &self.master_key);
        let overview_key = MainKey::from_op_data(&derived_key, &self.overview_key);
        self.assemble(master_key, overview_key)
    }
}

impl LockedProfileView {
    /// The encryption key that the password derives for this profile.
    pub open spec fn spec_derived_enc_key(self, password: Seq<u8>) -> Seq<u8> {
        spec_enc_half(
            pbkdf2_hmac_sha512(password, self.salt, self.iterations, KEY_MATERIAL_LEN as nat),
        )
    }

    /// The MAC key that the password derives for this profile.
    pub open spec fn spec_derived_mac_key(self, password: Seq<u8>) -> Seq<u8> {
        spec_mac_half(
            pbkdf2_hmac_sha512(password, self.salt, self.iterations, KEY_MATERIAL_LEN as nat),
        )
    }

    /// Whether the password is accepted: the key pair derived from it authenticates both the
    /// master container and the overview container.
    pub open spec fn spec_accepts(self, password: Seq<u8>) -> bool {
        &&& spec_authentic_bytes(self.master_key, self.spec_derived_mac_key(password))
        &&& spec_authentic_bytes(self.overview_key, self.spec_derived_mac_key(password))
    }

    /// Whether unlocking with the password can succeed at all, whatever OpenSSL then does: the
    /// inputs of the derivation are of a size that OpenSSL takes, and each container can be
    /// opened with the derived MAC key.
    pub open spec fn spec_can_unlock(self, password: Seq<u8>) -> bool {
        &&& DerivedKey::spec_derivable(password, self.salt, self.iterations)
        &&& spec_openable(self.master_key, self.spec_derived_mac_key(password))
        &&& spec_openable(self.overview_key, self.spec_derived_mac_key(password))
    }

    /// The digest from which a password unwraps the key pair in a container.
    pub open spec fn spec_unwrapped_material(self, container: Seq<u8>, password: Seq<u8>) -> Seq<
        u8,
    > {
        sha512(spec_plaintext_of(container, self.spec_derived_enc_key(password)))
    }

    /// This profile with the given key pairs in place of the containers.
    pub open spec fn spec_with_keys(
        self,
        master_enc_key: Seq<u8>,
        master_mac_key: Seq<u8>,
        overview_enc_key: Seq<u8>,
        overview_mac_key: Seq<u8>,
    ) -> ProfileView {
        ProfileView {
            created_at: self.created_at,
            iterations: self.iterations,
            last_updated_by: self.last_updated_by,
            master_enc_key,
            master_mac_key,
            overview_enc_key,
            overview_mac_key,
            profile_name: self.profile_name,
            salt: self.salt,
            updated_at: self.updated_at,
            uuid: self.uuid,
        }
    }

    /// What unlocking with an accepted password yields: each key pair is cut from the SHA-512
    /// digest of its container's plaintext.
    pub open spec fn spec_unlocked(self, password: Seq<u8>) -> ProfileView {
        self.spec_with_keys(
            spec_enc_half(self.spec_unwrapped_material(self.master_key, password)),
            spec_mac_half(self.spec_unwrapped_material(self.master_key, password)),
            spec_enc_half(self.spec_unwrapped_material(self.overview_key, password)),
            spec_mac_half(self.spec_unwrapped_material(self.overview_key, password)),
        )
    }
}

/// An unlocked profile: the fields of the locked one, with the two key pairs that its
/// containers held.
pub struct Profile {
    created_at: u64,
    iterations: usize,
    last_updated_by: String,
    master_key: MainKey,
    overview_key: MainKey,
    profile_name: String,
    salt: Vec<u8>,
    updated_at: u64,
    uuid: String,
}

impl View for Profile {
    type V = ProfileView;

    closed spec fn view(&self) -> ProfileView {
        ProfileView {
            created_at: self.created_at,
            iterations: self.iterations as nat,
            last_updated_by: self.last_updated_by@,
            master_enc_key: self.master_key.spec_enc_key(),
            master_mac_key: self.master_key.spec_mac_key(),
            overview_enc_key: self.overview_key.spec_enc_key(),
            overview_mac_key: self.overview_key.spec_mac_key(),
            profile_name: self.profile_name@,
            salt: self.salt@,
            updated_at: self.updated_at,
            uuid: self.uuid@,
        }
    }
}

impl Profile {
    /// The key pair for item bodies.
    pub fn master_key(&self) -> (key: &MainKey)
        ensures
            key.spec_enc_key() == self@.master_enc_key,
            key.spec_mac_key() == self@.master_mac_key,
    {
        &self.master_key
    }

    /// The key pair for item overviews.
    pub fn overview_key(&self) -> (key: &MainKey)
        ensures
            key.spec_enc_key() == self@.overview_enc_key,
            key.spec_mac_key() == self@.overview_mac_key,
    {
        &self.overview_key
    }
}

/// Unlocking a profile twice with the same password gives the same key material, byte for
/// byte, and the same fields besides.
pub proof fn lemma_unlock_is_idempotent(
    locked: LockedProfileView,
    password: Seq<u8>,
    first: ProfileView,
    second: ProfileView,
)
    requires
        first == locked.spec_unlocked(password),
        second == locked.spec_unlocked(password),
    ensures
        first.master_enc_key == second.master_enc_key,
        first.master_mac_key == second.master_mac_key,
        first.overview_enc_key == second.overview_enc_key,
        first.overview_mac_key == second.overview_mac_key,
        first == second,
{
}

} // verus!
