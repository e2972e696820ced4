//! Signing in and changing the password: the checks around the Argon2
//! password hashes.
use argon2::{PasswordHasher, PasswordVerifier};
use vstd::prelude::*;

use crate::errors::{is_bad_request, AppError};
use crate::text::{str_eq, trim, trim_seq};
use vstd::string::StringSliceAdditionalSpecFns;
use vstd::utf8::encode_utf8;

verus! {

/// A request to sign in.
#[derive(Debug, Clone)]
pub struct LoginRequest {
    pub password: String,
    pub display_name: Option<String>,
}

/// A request to change the password.
#[derive(Debug, Clone)]
pub struct ChangePasswordRequest {
    pub current_password: String,
    pub new_password: String,
}

/// `hash` is a password hash in the PHC string format that the `argon2`
/// crate reads.
pub uninterp spec fn phc_readable(hash: Seq<char>) -> bool;

/// Argon2 with its default settings accepts `password` against the PHC
/// string `hash`: hashing the password with the hash's salt and parameters
/// gives the hash's output.
pub uninterp spec fn argon2_accepts(password: Seq<char>, hash: Seq<char>) -> bool;

/// What a stored hash says of a password.
#[derive(Debug, Clone, Copy, PartialEq, Eq)]
pub enum HashCheck {
    Unreadable,
    Mismatch,
    Match,
}

pub open spec fn hash_check_spec(password: Seq<char>, hash: Seq<char>) -> HashCheck {
    if !phc_readable(hash) {
        HashCheck::Unreadable
    } else if argon2_accepts(password, hash) {
        HashCheck::Match
    } else {
        HashCheck::Mismatch
    }
}

/// `argon2::PasswordHash::new` on the stored hash, then
/// `Argon2::default().verify_password` on the password's bytes. Whether the
/// hash is read is named `phc_readable`, and whether it accepts the password
/// `argon2_accepts`.
#[verifier::external_body]
fn argon2_check(password: &str, hash: &str) -> (r: HashCheck)
    ensures
        r == hash_check_spec(password@, hash@),
{
    match argon2::PasswordHash::new(hash) {
        Err(_) => HashCheck::Unreadable,
        Ok(parsed) => match argon2::Argon2::default().verify_password(password.as_bytes(), &parsed) {
            Ok(()) => HashCheck::Match,
            Err(_) => HashCheck::Mismatch,
        },
    }
}

/// `SaltString::generate` with the system's random source, then
/// `Argon2::default().hash_password`, written as a PHC string. With the
/// default parameters and a freshly made 16-byte salt, hashing fails only
/// for a password longer than `u32::MAX` bytes (`verify_inputs`), which is
/// left out here. The salt is random, so the hash is not named; what
/// holds of every hash it gives is that it is readable and accepts the
/// password it was made from, as verifying recomputes the hash with the
/// salt and parameters it holds.
#[verifier::external_body]
fn argon2_hash(password: &str) -> (r: Option<String>)
    requires
        encode_utf8(password@).len() <= 0xFFFF_FFFF,
    ensures
        r is Some,
        r matches Some(h) ==> phc_readable(h@) && argon2_accepts(password@, h@),
{
    let salt = argon2::password_hash::SaltString::generate(&mut argon2::password_hash::rand_core::OsRng);
    match argon2::Argon2::default().hash_password(password.as_bytes(), &salt) {
        Ok(h) => Some(h.to_string()),
        Err(_) => None,
    }
}

/// A sign-in needs a password that is not blank.
pub fn check_login_request(password: &str) -> (r: Result<(), AppError>)
    ensures
        trim_seq(password@).len() == 0 ==> (r matches Err(e) && is_bad_request(
            e,
            "비밀번호를 입력해 주세요"@,
        )),
        trim_seq(password@).len() > 0 ==> r is Ok,
{
    if trim(password).as_str().unicode_len() == 0 {
        return Err(AppError::bad_request("비밀번호를 입력해 주세요"));
    }
    Ok(())
}

/// The outcome of a sign-in with a password against the user's stored
/// hash: refused without a hash or where the hash refuses the password, and
/// a bad request where the hash cannot be read.
pub open spec fn login_spec(password: Seq<char>, stored: Option<Seq<char>>) -> Result<(), Option<Seq<char>>> {
    match stored {
        None => Err(None),
        Some(h) => match hash_check_spec(password, h) {
            HashCheck::Unreadable => Err(Some("비밀번호 정보를 확인할 수 없습니다"@)),
            HashCheck::Mismatch => Err(None),
            HashCheck::Match => Ok(()),
        },
    }
}

/// Checks a sign-in password against the stored hash; see `login_spec`
/// (`Err(None)` is `Unauthorized`).
pub fn verify_login(password: &str, stored_hash: Option<&str>) -> (r: Result<(), AppError>)
    ensures
        match login_spec(
            password@,
            match stored_hash {
                Some(h) => Some(h@),
                None => None,
            },
        ) {
            Ok(()) => r is Ok,
            Err(None) => r == Err::<(), AppError>(AppError::Unauthorized),
            Err(Some(m)) => r matches Err(e) && is_bad_request(e, m),
        },
{
    match stored_hash {
        None => Err(AppError::Unauthorized),
        Some(h) => match argon2_check(password, h) {
            HashCheck::Unreadable => Err(AppError::bad_request("비밀번호 정보를 확인할 수 없습니다")),
            HashCheck::Mismatch => Err(AppError::Unauthorized),
            HashCheck::Match => Ok(()),
        },
    }
}

/// A new password: trimmed, at least 8 bytes long in UTF-8, and other than
/// the trimmed current one.
pub open spec fn new_password_spec(current: Seq<char>, new: Seq<char>) -> Result<Seq<char>, Seq<char>> {
    let n = trim_seq(new);
    if vstd::utf8::encode_utf8(n).len() < 8 {
        Err("새 비밀번호는 8자 이상이어야 합니다"@)
    } else if n == trim_seq(current) {
        Err("새 비밀번호가 현재 비밀번호와 동일합니다"@)
    } else {
        Ok(n)
    }
}

/// The outcome of checking the current password against the stored hash.
pub open spec fn current_password_spec(current: Seq<char>, stored: Option<Seq<char>>) -> Result<(), Option<Seq<char>>> {
    match stored {
        None => Err(None),
        Some(h) => match hash_check_spec(current, h) {
            HashCheck::Unreadable => Err(Some("비밀번호 정보를 확인할 수 없습니다"@)),
            HashCheck::Mismatch => Err(Some("현재 비밀번호가 올바르지 않습니다"@)),
            HashCheck::Match => Ok(()),
        },
    }
}

/// Changes a password: the new password is checked (see
/// `new_password_spec`), then the current one against the stored hash (see
/// `current_password_spec`; `Err(None)` is `Unauthorized`), then a hash of
/// the new password is made, which accepts the new password; hashing fails,
/// giving `Internal`, only for a password longer than `u32::MAX` bytes.
pub fn plan_password_change(current: &str, new: &str, stored_hash: Option<&str>) -> (r: Result<String, AppError>)
    ensures
        match new_password_spec(current@, new@) {
            Err(m) => r matches Err(e) && is_bad_request(e, m),
            Ok(n) => match current_password_spec(
                current@,
                match stored_hash {
                    Some(h) => Some(h@),
                    None => None,
                },
            ) {
                Err(None) => r == Err::<String, AppError>(AppError::Unauthorized),
                Err(Some(m)) => r matches Err(e) && is_bad_request(e, m),
                Ok(()) => if encode_utf8(n).len() <= 0xFFFF_FFFF {
                    r matches Ok(h) && phc_readable(h@) && argon2_accepts(n, h@)
                } else {
                    r == Err::<String, AppError>(AppError::Internal)
                },
            },
        },
{
    let n = trim(new);
    let bytes = n.as_str().as_bytes();
    if bytes.len() < 8 {
        return Err(AppError::bad_request("새 비밀번호는 8자 이상이어야 합니다"));
    }
    if str_eq(n.as_str(), trim(current).as_str()) {
        return Err(AppError::bad_request("새 비밀번호가 현재 비밀번호와 동일합니다"));
    }
    match stored_hash {
        None => return Err(AppError::Unauthorized),
        Some(h) => match argon2_check(current, h) {
            HashCheck::Unreadable => return Err(AppError::bad_request("비밀번호 정보를 확인할 수 없습니다")),
            HashCheck::Mismatch => return Err(AppError::bad_request("현재 비밀번호가 올바르지 않습니다")),
            HashCheck::Match => {},
        },
    }
    if bytes.len() as u64 > 0xFFFF_FFFFu64 {
        return Err(AppError::Internal);
    }
    match argon2_hash(n.as_str()) {
        Some(h) => Ok(h),
        None => Err(AppError::Internal),
    }
}

/// A password changed to `new` lets the user sign in with the trimmed new
/// password.
pub proof fn lemma_changed_password_signs_in(n: Seq<char>, h: Seq<char>)
    requires
        phc_readable(h),
        argon2_accepts(n, h),
    ensures
        login_spec(n, Some(h)) == Ok::<(), Option<Seq<char>>>(()),
{
}

} // verus!
