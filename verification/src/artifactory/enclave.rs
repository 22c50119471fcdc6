//! The access authoriser: the registry of keys that are let in, and the
//! question whether a presented credential is among them.

use crate::artifactory::hex::{legacy_id, HexError};
use crate::artifactory::keys::{
    first_error, key_id, key_views, lemma_registry_domain, registry_of, weigand_to_key, Key,
    KeyConfig, KeyView, Keys, Listing,
};
use crate::io::weigand::{Credential, Weigand};
use std::collections::HashMap;
use vstd::prelude::*;
use vstd::std_specs::hash::group_hash_axioms;

verus! {

/// Where the enclave's own files are kept.
#[derive(Debug)]
pub struct EnclaveConfig {
    pub remote: String,
    pub local: String,
}

/// Whether the files are kept in step with a remote store, and where the
/// operator's credentials for that store are found.
#[derive(Debug)]
pub struct AuthConfig {
    pub is_enabled: bool,
    pub local: String,
}

/// The operator's credentials for the remote store. They play no part in
/// deciding who is let in.
#[derive(Debug)]
pub struct AuthCredential {
    pub username: String,
    pub password: String,
}

/// The enclave section of the main configuration.
#[derive(Debug)]
pub struct EnclaveLoader {
    config: EnclaveConfig,
    key_config: KeyConfig,
    auth_config: AuthConfig,
}

impl EnclaveLoader {
    /// Where the enclave's files are kept.
    pub closed spec fn spec_config(&self) -> EnclaveConfig {
        self.config
    }

    /// Where the key listing is kept.
    pub closed spec fn spec_key_config(&self) -> KeyConfig {
        self.key_config
    }

    /// The settings of the remote store.
    pub closed spec fn spec_auth_config(&self) -> AuthConfig {
        self.auth_config
    }

    /// Whether the configuration asks for the operator's credentials.
    pub open spec fn wants_credentials(&self) -> bool {
        self.spec_auth_config().is_enabled
    }

    /// The section made of its three parts.
    pub fn new(config: EnclaveConfig, key_config: KeyConfig, auth_config: AuthConfig) -> (loader:
        Self)
        ensures
            loader.spec_config() == config,
            loader.spec_key_config() == key_config,
            loader.spec_auth_config() == auth_config,
    {
        Self { config, key_config, auth_config }
    }

    /// Where the enclave's files are kept.
    pub fn config(&self) -> (config: &EnclaveConfig)
        ensures
            *config == self.spec_config(),
    {
        &self.config
    }

    /// Where the key listing is kept.
    pub fn key_config(&self) -> (key_config: &KeyConfig)
        ensures
            *key_config == self.spec_key_config(),
    {
        &self.key_config
    }

    /// The settings of the remote store.
    pub fn auth_config(&self) -> (auth_config: &AuthConfig)
        ensures
            *auth_config == self.spec_auth_config(),
    {
        &self.auth_config
    }
}

/// Why an enclave could not be put together.
#[derive(Debug, Clone, Copy, PartialEq, Eq, Structural)]
pub enum EnclaveError {
    /// The configuration asks for operator credentials and none were given.
    MissingCredentials,
    /// An entry of the key listing has an identifier that does not decode.
    BadKey(HexError),
}

/// What an enclave holds, as plain values.
pub ghost struct EnclaveModel {
    /// User name and password of the operator, where the remote store is
    /// in use.
    pub credentials: Option<(Seq<char>, Seq<char>)>,
    /// The registry: key records by identifier.
    pub keys: Map<u64, KeyView>,
}

/// What the registry answers for a credential: the identifier and the record
/// filed under it, or nothing where the identifier is not in the registry.
pub open spec fn authorised(keys: Map<u64, KeyView>, credential: Credential) -> Option<
    (u64, KeyView),
> {
    let id = key_id(credential) as u64;
    if keys.contains_key(id) {
        Some((id, keys[id]))
    } else {
        None
    }
}

/// The enclave that the parts of a configuration describe.
pub open spec fn assembled(
    wants_credentials: bool,
    credentials: Option<(Seq<char>, Seq<char>)>,
    listing: Listing,
) -> Result<EnclaveModel, EnclaveError> {
    if wants_credentials && credentials.is_none() {
        Err(EnclaveError::MissingCredentials)
    } else {
        match first_error(listing) {
            Some(error) => Err(EnclaveError::BadKey(error)),
            None => Ok(
                EnclaveModel {
                    credentials: if wants_credentials {
                        credentials
                    } else {
                        None
                    },
                    keys: registry_of(listing),
                },
            ),
        }
    }
}

/// The plain values of an operator's credentials.
pub open spec fn credential_view(credentials: Option<AuthCredential>) -> Option<
    (Seq<char>, Seq<char>),
> {
    match credentials {
        Some(credential) => Some((credential.username@, credential.password@)),
        None => None,
    }
}

/// The registry of authorised keys, with the operator's credentials where
/// the remote store is in use. The registry is fixed once it is built.
#[derive(Debug)]
pub struct Enclave {
    credentials: Option<AuthCredential>,
    keys: HashMap<u64, Key>,
}

impl View for Enclave {
    type V = EnclaveModel;

    closed spec fn view(&self) -> EnclaveModel {
        EnclaveModel { credentials: credential_view(self.credentials), keys: key_views(self.keys@) }
    }
}

impl Enclave {
    /// An enclave with the given registry and credentials.
    pub fn new(credentials: Option<AuthCredential>, keys: HashMap<u64, Key>) -> (enclave: Self)
        ensures
            enclave@ == (EnclaveModel {
                credentials: credential_view(credentials),
                keys: key_views(keys@),
            }),
    {
        Self { credentials, keys }
    }

    /// Puts an enclave together from the parts of a configuration that has
    /// been read. Credentials are kept only where the configuration asks for
    /// them, and then they have to be there. The registry is built from the
    /// key listing, which fails as a whole on the first identifier that does
    /// not decode.
    pub fn assemble(
        loader: &EnclaveLoader,
        credentials: Option<AuthCredential>,
        keys: &Keys,
    ) -> (enclave: Result<Self, EnclaveError>)
        ensures
            match enclave {
                Ok(enclave) => assembled(
                    loader.wants_credentials(),
                    credential_view(credentials),
                    keys@,
                ) == Ok::<EnclaveModel, EnclaveError>(enclave@),
                Err(error) => assembled(
                    loader.wants_credentials(),
                    credential_view(credentials),
                    keys@,
                ) == Err::<EnclaveModel, EnclaveError>(error),
            },
    {
        let kept = if loader.auth_config().is_enabled {
            if credentials.is_none() {
                return Err(EnclaveError::MissingCredentials);
            }
            credentials
        } else {
            None
        };
        match keys.get_keys() {
            Err(error) => Err(EnclaveError::BadKey(error)),
            Ok(registry) => Ok(Self { credentials: kept, keys: registry }),
        }
    }

    /// The credentials with which the files are to be fetched anew, and
    /// nothing where the remote store is not in use.
    pub fn update_files(&self) -> (with: Option<&AuthCredential>)
        ensures
            credential_view(
                match with {
                    Some(credential) => Some(*credential),
                    None => None,
                },
            ) == self@.credentials,
    {
        self.credentials.as_ref()
    }

    /// Looks a presented credential up in the registry. Returns the
    /// identifier of the credential with the record filed under it, or
    /// nothing where no record is: a credential that is not known is an
    /// ordinary answer, not a failure. The registry is left as it is.
    pub fn weigand_auth_check(&self, key_code: &Weigand) -> (found: Option<(u64, &Key)>)
        ensures
            match found {
                Some((id, key)) => authorised(self@.keys, key_code@) == Some((id, key@)),
                None => authorised(self@.keys, key_code@).is_none(),
            },
    {
        broadcast use group_hash_axioms;

        let raw_key_code = weigand_to_key(key_code);
        match self.keys.get(&raw_key_code) {
            Some(key) => Some((raw_key_code, key)),
            None => None,
        }
    }

    /// Reserved for the enclave's own housekeeping, of which there is none.
    pub fn run() {
    }
}

/// The answer of a registry depends on the identifier of the credential
/// alone: credentials with one identifier get one answer, as often as they
/// are presented.
pub proof fn lemma_same_identifier_same_answer(
    keys: Map<u64, KeyView>,
    first: Credential,
    second: Credential,
)
    requires
        key_id(first) == key_id(second),
    ensures
        authorised(keys, first) == authorised(keys, second),
{
}

/// A credential whose identifier no entry of the listing decodes to is not
/// found in the registry built from that listing.
pub proof fn lemma_unlisted_is_not_found(listing: Listing, credential: Credential)
    requires
        forall|at: int|
            0 <= at < listing.len() ==> legacy_id(#[trigger] listing[at].0) != Ok::<u64, HexError>(
                key_id(credential) as u64,
            ),
    ensures
        authorised(registry_of(listing), credential).is_none(),
{
    lemma_registry_domain(listing, key_id(credential) as u64);
}

} // verus!
