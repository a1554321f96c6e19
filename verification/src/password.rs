//! Administration passwords: which ones are allowed, how they are hashed and how they are checked.

use vstd::prelude::*;

use crate::crypto::{self, argon2_check, argon2id_hash, phc_error, random_array};
use crate::failure::{self, AuthFailure};
use crate::text::{self, contains_control, joined};

verus! {

/// The memory cost of Argon2id in KiB.
pub const ARGON2_MEMORY_KIB: u32 = 19456;

/// The time cost of Argon2id.
pub const ARGON2_TIME_COST: u32 = 2;

/// The parallelism of Argon2id.
pub const ARGON2_PARALLELISM: u32 = 1;

/// The shortest password, in characters, so that multi-byte passwords are not held to more.
pub const MIN_PASSWORD_CHARS: usize = 8;

/// The longest password, in bytes of UTF-8.
pub const MAX_PASSWORD_BYTES: usize = 128;

/// The bytes of a password in UTF-8.
pub open spec fn utf8(password: Seq<char>) -> Seq<u8> {
    vstd::utf8::encode_utf8(password)
}

/// What is wrong with a new password, where anything is.
pub open spec fn password_problem(password: Seq<char>) -> Option<Seq<char>> {
    if password.len() < MIN_PASSWORD_CHARS {
        Some("管理密码至少需要 8 个字符"@)
    } else if utf8(password).len() > MAX_PASSWORD_BYTES {
        Some("管理密码不能超过 128 字节"@)
    } else if text::has_control(password) {
        Some("管理密码不能包含控制字符"@)
    } else {
        None
    }
}

/// Whether a password is one that no stored hash can belong to, so that a login with it need not
/// be checked.
pub open spec fn cannot_be_stored(password: Seq<char>) -> bool {
    utf8(password).len() > MAX_PASSWORD_BYTES || text::has_control(password)
}

/// A result of text with its text as a sequence of characters.
pub open spec fn text_result(result: Result<String, String>) -> Result<Seq<char>, Seq<char>> {
    match result {
        Ok(value) => Ok(value@),
        Err(error) => Err(error@),
    }
}

/// A verdict with its error as a sequence of characters.
pub open spec fn verdict_result(result: Result<bool, String>) -> Result<bool, Seq<char>> {
    match result {
        Ok(value) => Ok(value),
        Err(error) => Err(error@),
    }
}

/// The hash of a password with a given salt.
pub open spec fn salted_hash(password: Seq<char>, salt: Seq<u8>) -> Seq<char> {
    crypto::argon2id_phc(
        utf8(password),
        salt,
        ARGON2_MEMORY_KIB,
        ARGON2_TIME_COST,
        ARGON2_PARALLELISM,
    )
}

/// Whether a stored hash accepts a password, given enough memory to check it.
pub open spec fn accepts(stored: Seq<char>, password: Seq<char>) -> bool {
    crypto::phc_fault(stored) is None && crypto::argon2_verdict(stored, utf8(password)) == Ok::<
        bool,
        Seq<char>,
    >(true)
}

/// Whether `hashed` can come of hashing `password` with `salt`: the hash with the salt, which is a
/// PHC string of Argon2id that accepts the password; or the report that it failed.
pub open spec fn hash_with_salt_possible(
    password: Seq<char>,
    salt: Seq<u8>,
    hashed: Result<Seq<char>, Seq<char>>,
) -> bool {
    match hashed {
        Ok(hash) => {
            &&& hash == salted_hash(password, salt)
            &&& crypto::phc_prefix(
                ARGON2_MEMORY_KIB,
                ARGON2_TIME_COST,
                ARGON2_PARALLELISM,
            ).is_prefix_of(hash)
            &&& accepts(hash, password)
        },
        Err(error) => {
            &&& exists|reason: Seq<char>| error == #[trigger] ("计算密码哈希失败："@ + reason)
            &&& utf8(password).len() <= u32::MAX ==> error == "计算密码哈希失败："@
                + "out of memory"@
        },
    }
}

/// Whether `hashed` can come of hashing `password`: with some salt, or no salt could be drawn.
pub open spec fn hash_possible(
    password: Seq<char>,
    hashed: Result<Seq<char>, Seq<char>>,
) -> bool {
    ||| exists|salt: Seq<u8>|
        salt.len() == 16 && #[trigger] hash_with_salt_possible(password, salt, hashed)
    ||| hashed matches Err(error) && exists|reason: Seq<char>|
        error == #[trigger] ("生成密码盐失败："@ + reason)
}

/// Whether `verdict` can come of checking `password` against `stored`.
pub open spec fn verdict_possible(
    stored: Seq<char>,
    password: Seq<char>,
    verdict: Result<bool, Seq<char>>,
) -> bool {
    match crypto::phc_fault(stored) {
        Some(fault) => verdict == Err::<bool, Seq<char>>("解析已存密码哈希失败："@ + fault),
        None => match verdict {
            Ok(matches) => crypto::argon2_verdict(stored, utf8(password)) == Ok::<bool, Seq<char>>(
                matches,
            ),
            Err(error) => {
                ||| error == "校验管理密码失败："@ + "out of memory"@
                ||| crypto::argon2_verdict(stored, utf8(password)) matches Err(reason) && error
                    == "校验管理密码失败："@ + reason
            },
        },
    }
}

/// Whether `verdict` can come of checking a password that is offered at login: one that cannot have
/// been stored is wrong without a check.
pub open spec fn offer_possible(
    stored: Seq<char>,
    password: Seq<char>,
    verdict: Result<bool, Seq<char>>,
) -> bool {
    if cannot_be_stored(password) {
        verdict == Ok::<bool, Seq<char>>(false)
    } else {
        verdict_possible(stored, password, verdict)
    }
}

/// Checking a password against a stored hash can always come to something.
pub proof fn lemma_some_verdict(stored: Seq<char>, password: Seq<char>)
    ensures
        exists|verdict: Result<bool, Seq<char>>| verdict_possible(stored, password, verdict),
{
    let error = match crypto::phc_fault(stored) {
        Some(fault) => "解析已存密码哈希失败："@ + fault,
        None => "校验管理密码失败："@ + "out of memory"@,
    };
    assert(verdict_possible(stored, password, Err(error)));
}

/// Refuses a new password that is too short, too long or has control characters.
pub fn validate_password(password: &str) -> (result: Result<(), AuthFailure>)
    ensures
        failure::outcome(result) == match password_problem(password@) {
            Some(problem) => Err(failure::FailureView::Invalid(problem)),
            None => Ok(()),
        },
{
    if password.unicode_len() < MIN_PASSWORD_CHARS {
        return Err(AuthFailure::Invalid(String::from_str("管理密码至少需要 8 个字符")));
    }
    if password.as_bytes().len() > MAX_PASSWORD_BYTES {
        return Err(AuthFailure::Invalid(String::from_str("管理密码不能超过 128 字节")));
    }
    if contains_control(password) {
        return Err(AuthFailure::Invalid(String::from_str("管理密码不能包含控制字符")));
    }
    Ok(())
}

/// Whether a password offered at login is one that cannot have been stored.
pub fn is_never_stored(password: &str) -> (never: bool)
    ensures
        never == cannot_be_stored(password@),
{
    password.as_bytes().len() > MAX_PASSWORD_BYTES || contains_control(password)
}

/// Words the failure of a hash computation; a hash stays as it is.
pub fn hash_of_computation(computed: Result<String, String>) -> (hashed: Result<String, String>)
    ensures
        text_result(hashed) == match computed {
            Ok(hash) => Ok(hash@),
            Err(error) => Err("计算密码哈希失败："@ + error@),
        },
{
    match computed {
        Ok(hash) => Ok(hash),
        Err(error) => Err(joined("计算密码哈希失败：", error.as_str())),
    }
}

/// Hashes a password with a given salt.
pub fn hash_with_salt(password: &str, salt: [u8; 16]) -> (hashed: Result<String, String>)
    ensures
        hash_with_salt_possible(password@, salt@, text_result(hashed)),
{
    hash_of_computation(
        argon2id_hash(
            password.as_bytes(),
            salt.as_slice(),
            ARGON2_MEMORY_KIB,
            ARGON2_TIME_COST,
            ARGON2_PARALLELISM,
        ),
    )
}

/// Hashes a password with the salt drawn for it.
pub fn hash_with_drawn(password: &str, drawn: Result<[u8; 16], String>) -> (hashed: Result<
    String,
    String,
>)
    ensures
        match drawn {
            Ok(salt) => hash_with_salt_possible(password@, salt@, text_result(hashed)),
            Err(error) => text_result(hashed) == Err::<Seq<char>, Seq<char>>(
                "生成密码盐失败："@ + error@,
            ),
        },
{
    match drawn {
        Ok(salt) => hash_with_salt(password, salt),
        Err(error) => Err(joined("生成密码盐失败：", error.as_str())),
    }
}

/// Hashes a password with a salt drawn for it.
pub fn hash_password(password: &str) -> (hashed: Result<String, String>)
    ensures
        hash_possible(password@, text_result(hashed)),
{
    let drawn = random_array::<16>();
    let ghost seen = drawn;
    let hashed = hash_with_drawn(password, drawn);
    proof {
        if let Ok(salt) = seen {
            assert(salt@.len() == 16 && hash_with_salt_possible(
                password@,
                salt@,
                text_result(hashed),
            ));
        }
    }
    hashed
}

/// The verdict on a password, given what the check of it against a parsed hash came to.
pub fn verdict_of_check(checked: Result<bool, String>) -> (verdict: Result<bool, String>)
    ensures
        verdict_result(verdict) == match checked {
            Ok(matches) => Ok(matches),
            Err(error) => Err("校验管理密码失败："@ + error@),
        },
{
    match checked {
        Ok(matches) => Ok(matches),
        Err(error) => Err(joined("校验管理密码失败：", error.as_str())),
    }
}

/// Words what is wrong with a stored hash.
pub fn fault_message(fault: &str) -> (message: String)
    ensures
        message@ == "解析已存密码哈希失败："@ + fault@,
{
    joined("解析已存密码哈希失败：", fault)
}

/// Checks a password against a stored hash, with the parameters that the hash records: changing
/// the constants above does not lock an old password out.
pub fn verify_password(stored: &str, password: &str) -> (verdict: Result<bool, String>)
    ensures
        verdict_possible(stored@, password@, verdict_result(verdict)),
{
    match phc_error(stored) {
        Some(fault) => Err(fault_message(fault.as_str())),
        None => verdict_of_check(argon2_check(stored, password.as_bytes())),
    }
}

/// Checks a password that is offered at login. One that cannot have been stored is wrong without
/// being hashed, so that a request cannot have megabytes hashed.
pub fn check_offered(stored: &str, password: &str) -> (verdict: Result<bool, String>)
    ensures
        offer_possible(stored@, password@, verdict_result(verdict)),
{
    if is_never_stored(password) {
        Ok(false)
    } else {
        verify_password(stored, password)
    }
}

} // verus!
