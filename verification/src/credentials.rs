//! API-key credentials: how they are named, how the OS keychain's outcomes
//! are reported, and when a provider counts as configured.

use vstd::prelude::*;
use crate::text::str_eq;

verus! {

/// Service name used for all keychain entries.
pub const SERVICE_NAME: &'static str = "com.artifex.game-ai-studio";

/// The key under which a provider's API key is stored.
pub fn credential_id(provider: &str) -> (r: String)
    ensures
        r@ == provider@ + "::api_key"@,
{
    let mut s = String::from_str(provider);
    s.append("::api_key");
    s
}

/// Failure of a credential store operation.
#[derive(Debug, PartialEq, Eq)]
pub enum CredentialError {
    /// No credential is stored under the id.
    NotFound(String),
    /// The store cannot be reached.
    Unavailable(String),
    /// The store refused to save.
    StoreError(String),
}

/// Keychain-backed credential store: each credential is an entry of the
/// service `SERVICE_NAME`, with the credential id as user name and the
/// secret as password.
pub struct KeychainCredentialStore {
    _priv: (),
}

impl KeychainCredentialStore {
    /// Creates a new KeychainCredentialStore.
    pub fn new() -> (s: KeychainCredentialStore) {
        KeychainCredentialStore { _priv: () }
    }

    /// The keychain cannot enumerate a service's entries, so the list is empty.
    pub fn list(&self) -> (r: Result<Vec<String>, CredentialError>)
        ensures
            r matches Ok(v) && v@.len() == 0,
    {
        Ok(Vec::new())
    }

    /// The result of a lookup, from what the keychain answered: opening the
    /// entry failed with a message, or the entry gave its password or none.
    pub fn get_outcome(&self, credential_id: &str, entry_error: Option<String>, password: Option<String>) -> (r: Result<String, CredentialError>)
        ensures
            entry_error matches Some(m) ==> r == Err::<String, CredentialError>(CredentialError::Unavailable(m)),
            entry_error is None ==> match password {
                Some(p) => r == Ok::<String, CredentialError>(p),
                None => r matches Err(CredentialError::NotFound(id)) && id@ == credential_id@,
            },
    {
        match entry_error {
            Some(m) => Err(CredentialError::Unavailable(m)),
            None => match password {
                Some(p) => Ok(p),
                None => Err(CredentialError::NotFound(String::from_str(credential_id))),
            },
        }
    }

    /// The result of a save, from what the keychain answered.
    pub fn set_outcome(&self, entry_error: Option<String>, store_error: Option<String>) -> (r: Result<(), CredentialError>)
        ensures
            entry_error matches Some(m) ==> r == Err::<(), CredentialError>(CredentialError::Unavailable(m)),
            entry_error is None ==> match store_error {
                Some(m) => r == Err::<(), CredentialError>(CredentialError::StoreError(m)),
                None => r is Ok,
            },
    {
        match entry_error {
            Some(m) => Err(CredentialError::Unavailable(m)),
            None => match store_error {
                Some(m) => Err(CredentialError::StoreError(m)),
                None => Ok(()),
            },
        }
    }

    /// The result of a removal, from what the keychain answered: any failure
    /// to delete reads as the credential not being there.
    pub fn delete_outcome(&self, credential_id: &str, entry_error: Option<String>, deleted: bool) -> (r: Result<(), CredentialError>)
        ensures
            entry_error matches Some(m) ==> r == Err::<(), CredentialError>(CredentialError::Unavailable(m)),
            entry_error is None && deleted ==> r is Ok,
            entry_error is None && !deleted ==> (r matches Err(CredentialError::NotFound(id)) && id@ == credential_id@),
    {
        match entry_error {
            Some(m) => Err(CredentialError::Unavailable(m)),
            None => if deleted {
                Ok(())
            } else {
                Err(CredentialError::NotFound(String::from_str(credential_id)))
            },
        }
    }
}

/// Credential status for a provider.
#[derive(Debug)]
pub struct CredentialStatus {
    /// Canonical lowercase provider ID.
    pub provider_id: String,
    /// Whether a credential exists.
    pub has_credential: bool,
}

/// The texts of a list of strings.
pub open spec fn ref_names(v: Seq<String>) -> Seq<Seq<char>> {
    v.map_values(|s: String| s@)
}

/// A provider has a credential when it is registered, the database holds a
/// credential reference for it, and the store holds its secret.
pub fn credential_status(provider_id: &str, is_registered: bool, db_refs: &Vec<String>, store_has_secret: bool) -> (s: CredentialStatus)
    ensures
        s.provider_id@ == provider_id@,
        s.has_credential == (is_registered && ref_names(db_refs@).contains(provider_id@) && store_has_secret),
{
    let mut has_ref = false;
    let mut i: usize = 0;
    while i < db_refs.len()
        invariant
            i <= db_refs@.len(),
            has_ref == (exists|j: int| 0 <= j < i && #[trigger] db_refs@[j]@ == provider_id@),
        decreases db_refs.len() - i,
    {
        if str_eq(db_refs[i].as_str(), provider_id) {
            has_ref = true;
        }
        i = i + 1;
    }
    proof {
        if has_ref {
            let j = choose|j: int| 0 <= j < i && #[trigger] db_refs@[j]@ == provider_id@;
            assert(ref_names(db_refs@)[j] == provider_id@);
        }
        if ref_names(db_refs@).contains(provider_id@) {
            let j = choose|j: int| 0 <= j < ref_names(db_refs@).len() && ref_names(db_refs@)[j] == provider_id@;
            assert(db_refs@[j]@ == provider_id@);
        }
    }
    CredentialStatus {
        provider_id: String::from_str(provider_id),
        has_credential: is_registered && has_ref && store_has_secret,
    }
}

} // verus!
