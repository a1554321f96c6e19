//! The stored password hash, and the cache through which it is read.
//!
//! The credential table belongs to the program around this library. Its answers come in as values;
//! what is to be written to it goes out as values.

use vstd::prelude::*;

use crate::failure::{ClientAddr, PasswordOrigin};

verus! {

/// A row of the credential table.
#[derive(Debug, Clone, PartialEq, Eq)]
pub struct StoredCredential {
    /// The password hash as a PHC string.
    pub password_hash: String,
    /// The Unix second of the last write.
    pub updated_at: u64,
}

/// What reading the credential table came to.
pub type CredentialRead = Result<Option<StoredCredential>, String>;

/// A [`StoredCredential`] with its hash as a sequence of characters.
#[verifier::ext_equal]
pub struct StoredView {
    pub password_hash: Seq<char>,
    pub updated_at: u64,
}

/// An optional row with its hash as a sequence of characters.
pub open spec fn row_view(row: Option<StoredCredential>) -> Option<StoredView> {
    match row {
        Some(stored) => Some(
            StoredView { password_hash: stored.password_hash@, updated_at: stored.updated_at },
        ),
        None => None,
    }
}

/// A [`CredentialRead`] with its texts as sequences of characters.
pub open spec fn read_view(read: CredentialRead) -> Result<Option<StoredView>, Seq<char>> {
    match read {
        Ok(row) => Ok(row_view(row)),
        Err(error) => Err(error@),
    }
}

/// The cached credential. Until it is loaded, the rest of it means nothing.
#[derive(Debug)]
pub struct CredentialCache {
    pub loaded: bool,
    pub password_hash: Option<String>,
    pub updated_at: Option<u64>,
}

/// A [`CredentialCache`] with its hash as a sequence of characters.
#[verifier::ext_equal]
pub struct CredentialView {
    pub loaded: bool,
    pub password_hash: Option<Seq<char>>,
    pub updated_at: Option<u64>,
}

impl CredentialView {
    /// What every operation keeps: the second of the last write is known exactly where there is a
    /// hash.
    pub open spec fn wf(self) -> bool {
        self.password_hash is Some <==> self.updated_at is Some
    }
}

/// The characters of an optional text.
pub open spec fn opt_text(text: Option<String>) -> Option<Seq<char>> {
    match text {
        Some(value) => Some(value@),
        None => None,
    }
}

impl View for CredentialCache {
    type V = CredentialView;

    open spec fn view(&self) -> CredentialView {
        CredentialView {
            loaded: self.loaded,
            password_hash: opt_text(self.password_hash),
            updated_at: self.updated_at,
        }
    }
}

/// The cache that holds what the table held.
pub open spec fn cached(stored: Option<StoredView>) -> CredentialView {
    match stored {
        Some(row) => CredentialView {
            loaded: true,
            password_hash: Some(row.password_hash),
            updated_at: Some(row.updated_at),
        },
        None => CredentialView { loaded: true, password_hash: None, updated_at: None },
    }
}

/// The cache after loading: one that is loaded stays, and a failed read changes nothing.
pub open spec fn after_load(
    cache: CredentialView,
    stored: Result<Option<StoredView>, Seq<char>>,
) -> CredentialView {
    if cache.loaded {
        cache
    } else {
        match stored {
            Ok(row) => cached(row),
            Err(_) => cache,
        }
    }
}

/// Why loading fails, where it does: the cache is not loaded and the table could not be read.
pub open spec fn load_error(
    cache: CredentialView,
    stored: Result<Option<StoredView>, Seq<char>>,
) -> Option<Seq<char>> {
    if cache.loaded {
        None
    } else {
        match stored {
            Ok(_) => None,
            Err(error) => Some(error),
        }
    }
}

impl CredentialCache {
    /// A cache that has not been loaded.
    pub fn new() -> (cache: Self)
        ensures
            cache@ == (CredentialView { loaded: false, password_hash: None, updated_at: None }),
    {
        CredentialCache { loaded: false, password_hash: None, updated_at: None }
    }

    /// Takes over what the table held.
    pub fn adopt(&mut self, stored: &Option<StoredCredential>)
        ensures
            final(self)@ == cached(row_view(*stored)),
    {
        match stored {
            Some(row) => {
                self.password_hash = Some(row.password_hash.clone());
                self.updated_at = Some(row.updated_at);
            },
            None => {
                self.password_hash = None;
                self.updated_at = None;
            },
        }
        self.loaded = true;
    }
}

/// Loads the cache from what the table answered. `stored` is looked at only while the cache is not
/// loaded, so it need not be asked for otherwise.
pub fn load_credential_cache(cache: &mut CredentialCache, stored: &CredentialRead) -> (result:
    Result<(), String>)
    ensures
        final(cache)@ == after_load(old(cache)@, read_view(*stored)),
        match load_error(old(cache)@, read_view(*stored)) {
            Some(error) => result matches Err(message) && message@ == error,
            None => result is Ok,
        },
{
    if cache.loaded {
        return Ok(());
    }
    match stored {
        Ok(row) => {
            cache.adopt(row);
            Ok(())
        },
        Err(error) => Err(error.clone()),
    }
}

/// The password hash, if there is one, loading the cache first where that is needed.
pub fn credential_hash(cache: &mut CredentialCache, stored: &CredentialRead) -> (result: Result<
    Option<String>,
    String,
>)
    ensures
        final(cache)@ == after_load(old(cache)@, read_view(*stored)),
        match load_error(old(cache)@, read_view(*stored)) {
            Some(error) => result matches Err(message) && message@ == error,
            None => result matches Ok(hash) && opt_text(hash) == final(cache)@.password_hash,
        },
{
    match load_credential_cache(cache, stored) {
        Ok(()) => Ok(
            match &cache.password_hash {
                Some(hash) => Some(hash.clone()),
                None => None,
            },
        ),
        Err(error) => Err(error),
    }
}

/// A password hash that is to be written to the credential table, and what the security log will
/// say once it is.
#[derive(Debug)]
pub struct PasswordWrite {
    pub password_hash: String,
    pub origin: PasswordOrigin,
    pub client: Option<ClientAddr>,
}

/// A [`PasswordWrite`] with its hash as a sequence of characters.
#[verifier::ext_equal]
pub struct WriteView {
    pub password_hash: Seq<char>,
    pub origin: PasswordOrigin,
    pub client: Option<ClientAddr>,
}

impl View for PasswordWrite {
    type V = WriteView;

    open spec fn view(&self) -> WriteView {
        WriteView {
            password_hash: self.password_hash@,
            origin: self.origin,
            client: self.client,
        }
    }
}

} // verus!
