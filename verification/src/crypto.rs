//! What the library has from outside crates: random bytes, SHA-256 and Argon2. The functions here
//! are believed, not proved; each says what is claimed of the call that it makes.

use argon2::password_hash::{self, phc::PasswordHash, PasswordHasher, PasswordVerifier};
use argon2::{Algorithm, Argon2, Params, Version};
use sha2::{Digest, Sha256};
use vstd::prelude::*;

use crate::text;

verus! {

/// The SHA-256 digest of `data`.
pub uninterp spec fn sha256(data: Seq<u8>) -> Seq<u8>;

/// The PHC string that Argon2id, version 19, makes of a password and a salt, with a memory cost in
/// KiB, a time cost and a parallelism.
pub uninterp spec fn argon2id_phc(
    password: Seq<u8>,
    salt: Seq<u8>,
    memory_kib: u32,
    time_cost: u32,
    parallelism: u32,
) -> Seq<char>;

/// How a PHC string of Argon2id, version 19, with these costs begins.
pub open spec fn phc_prefix(memory_kib: u32, time_cost: u32, parallelism: u32) -> Seq<char> {
    "$argon2id$v=19$m="@ + text::decimal(memory_kib as nat) + ",t="@ + text::decimal(
        time_cost as nat,
    ) + ",p="@ + text::decimal(parallelism as nat) + "$"@
}

/// What is wrong with a PHC string, in the words of its parser; nothing where it parses.
pub uninterp spec fn phc_fault(stored: Seq<char>) -> Option<Seq<char>>;

/// Whether a password belongs to a PHC string, or why that cannot be told, given enough memory.
pub uninterp spec fn argon2_verdict(stored: Seq<char>, password: Seq<u8>) -> Result<bool, Seq<char>>;

/// Calls `getrandom::fill` for `N` bytes of the operating system's random source. Nothing is
/// claimed of the bytes, nor that there are any: the call can fail, and the error is then its text.
#[verifier::external_body]
pub(crate) fn random_array<const N: usize>() -> (result: Result<[u8; N], String>) {
    let mut bytes = [0u8; N];
    getrandom::fill(&mut bytes).map_err(|error| error.to_string())?;
    Ok(bytes)
}

/// Calls `sha2::Sha256` on all of `data` at once, and claims that the digest depends on the data
/// alone.
#[verifier::external_body]
pub(crate) fn sha256_of(data: &[u8]) -> (digest: [u8; 32])
    ensures
        digest@ == sha256(data@),
{
    let mut hasher = Sha256::new();
    hasher.update(data);
    hasher.finalize().into()
}

/// Calls `Argon2::hash_password_with_salt` with Argon2id, version 19 and the given costs, and
/// writes the result as a PHC string.
///
/// Claimed: the string depends on the arguments alone, starts with its algorithm, version and costs,
/// and is one that parses and that verification takes the same password for. Whether there is
/// memory for the computation is up to the machine; for a password below four GiB nothing else
/// fails.
#[verifier::external_body]
pub(crate) fn argon2id_hash(
    password: &[u8],
    salt: &[u8],
    memory_kib: u32,
    time_cost: u32,
    parallelism: u32,
) -> (result: Result<String, String>)
    requires
        salt@.len() == 16,
        1 <= parallelism <= 0xff_ffff,
        8 * parallelism <= memory_kib,
        1 <= time_cost,
    ensures
        result matches Ok(hash) ==> {
            &&& hash@ == argon2id_phc(password@, salt@, memory_kib, time_cost, parallelism)
            &&& phc_prefix(memory_kib, time_cost, parallelism).is_prefix_of(hash@)
            &&& phc_fault(hash@) is None
            &&& argon2_verdict(hash@, password@) == Ok::<bool, Seq<char>>(true)
        },
        result matches Err(error) ==> password@.len() <= u32::MAX ==> error@ == "out of memory"@,
{
    let params = Params::new(memory_kib, time_cost, parallelism, None)
        .map_err(|error| error.to_string())?;
    Argon2::new(Algorithm::Argon2id, Version::V0x13, params)
        .hash_password_with_salt(password, salt)
        .map(|hash| hash.to_string())
        .map_err(|error| error.to_string())
}

/// Calls `PasswordHash::new`, the parser of PHC strings, for its error alone, and claims that this
/// depends on the string alone.
#[verifier::external_body]
pub(crate) fn phc_error(stored: &str) -> (error: Option<String>)
    ensures
        match error {
            Some(fault) => phc_fault(stored@) == Some(fault@),
            None => phc_fault(stored@) is None,
        },
{
    PasswordHash::new(stored).err().map(|error| error.to_string())
}

/// Calls `Argon2::verify_password` on a PHC string that parses. The algorithm, version, costs and
/// salt are those of the string.
///
/// Claimed: the verdict, and any other error, depends on the string and the password alone, except
/// that the machine may have too little memory, which the error then says.
#[verifier::external_body]
pub(crate) fn argon2_check(stored: &str, password: &[u8]) -> (result: Result<bool, String>)
    requires
        phc_fault(stored@) is None,
    ensures
        match result {
            Ok(matches) => argon2_verdict(stored@, password@) == Ok::<bool, Seq<char>>(matches),
            Err(error) => error@ == "out of memory"@ || argon2_verdict(stored@, password@) == Err::<
                bool,
                Seq<char>,
            >(error@),
        },
{
    let parsed = PasswordHash::new(stored).map_err(|error| error.to_string())?;
    match Argon2::default().verify_password(password, &parsed) {
        Ok(()) => Ok(true),
        Err(password_hash::Error::PasswordInvalid) => Ok(false),
        Err(error) => Err(error.to_string()),
    }
}

} // verus!
