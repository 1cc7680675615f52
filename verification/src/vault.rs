//! A vault, locked and unlocked.
//!
//! A vault starts locked, and a password unlocks it. There is no way back.

use vstd::prelude::*;
use vstd::string::StringSliceAdditionalSpecFns;
use crate::error::VaultError;
use crate::json::json_parsed;
use crate::profile::{
    spec_profile_of, spec_strip_js, LockedProfile, LockedProfileView, Profile, ProfileView,
};

verus! {

/// A vault whose keys are still wrapped: where it lies, and its locked profile.
#[derive(Debug)]
pub struct LockedVault {
    path: String,
    profile: LockedProfile,
}

/// A vault whose keys are at hand: where it lies, and its unlocked profile.
pub struct Vault {
    path: String,
    profile: Profile,
}

impl LockedVault {
    /// Where the vault lies.
    pub closed spec fn spec_path(&self) -> Seq<char> {
        self.path@
    }

    /// The vault's locked profile.
    pub closed spec fn spec_profile(&self) -> LockedProfileView {
        self.profile@
    }

    /// Whether building a locked vault ended as the contents of its profile file say: with the
    /// vault at `path`, with `MalformedJson` where the file holds no JSON, or with
    /// `MalformedProfile` and the name of the offending field.
    pub open spec fn spec_opened_as(
        result: Result<LockedVault, VaultError>,
        path: Seq<char>,
        profile_js: Seq<u8>,
    ) -> bool {
        match json_parsed(spec_strip_js(profile_js)) {
            Some(json) => match spec_profile_of(json) {
                Ok(profile) => result matches Ok(vault) && vault.spec_path() == path
                    && vault.spec_profile() == profile,
                Err(field) => result matches Err(VaultError::MalformedProfile(name)) && name@
                    == field,
            },
            None => result matches Err(VaultError::MalformedJson(_)),
        }
    }

    /// A locked vault from its path and the contents of the profile file below it. No key is
    /// touched.
    pub fn new(path: &str, profile_js: &str) -> (result: Result<LockedVault, VaultError>)
        ensures
            Self::spec_opened_as(result, path@, profile_js.spec_bytes()),
    {
        let profile = LockedProfile::from_file(profile_js)?;
        Ok(LockedVault { path: path.to_owned(), profile })
    }

    pub fn path(&self) -> (path: &str)
        ensures
            path@ == self.spec_path(),
    {
        self.path.as_str()
    }

    pub fn profile(&self) -> (profile: &LockedProfile)
        ensures
            profile@ == self.spec_profile(),
    {
        &self.profile
    }

    /// The unlocked vault for an unlocked profile, if there is one: the same path.
    pub fn opened_with(&self, profile: Option<Profile>) -> (vault: Option<Vault>)
        ensures
            match profile {
                Some(p) => vault matches Some(v) && v.spec_path() == self.spec_path()
                    && v.spec_profile() == p@,
                None => vault is None,
            },
    {
        match profile {
            Some(profile) => Some(Vault { path: self.path.clone(), profile }),
            None => None,
        }
    }

    /// Unlocks the vault with a password: the vault at the same path with its profile unlocked.
    /// Absent when the password does not authenticate both of the profile's containers, when an
    /// input is larger than OpenSSL takes, or when a step of unlocking fails; never a
    /// half-unlocked vault.
    pub fn unlock(&self, password: &str) -> (vault: Option<Vault>)
        ensures
            vault matches Some(v) ==> {
                &&& self.spec_profile().spec_accepts(password.spec_bytes())
                &&& v.spec_path() == self.spec_path()
                &&& v.spec_profile() == self.spec_profile().spec_unlocked(password.spec_bytes())
            },
            !self.spec_profile().spec_accepts(password.spec_bytes()) ==> vault is None,
            !self.spec_profile().spec_can_unlock(password.spec_bytes()) ==> vault is None,
    {
        self.opened_with(self.profile.unlock(password))
    }
}

impl Vault {
    /// Where the vault lies.
    pub closed spec fn spec_path(&self) -> Seq<char> {
        self.path@
    }

    /// The vault's unlocked profile.
    pub closed spec fn spec_profile(&self) -> ProfileView {
        self.profile@
    }

    pub fn path(&self) -> (path: &str)
        ensures
            path@ == self.spec_path(),
    {
        self.path.as_str()
    }

    pub fn profile(&self) -> (profile: &Profile)
        ensures
            profile@ == self.spec_profile(),
    {
        &self.profile
    }
}

} // verus!
