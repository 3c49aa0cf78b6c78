//! Password hashing and verification, Basic-credential parsing, and the
//! sign-in and password-change decisions built on them. The hashing and
//! decoding primitives are outside calls with stated contracts; everything
//! around them is verified.

use vstd::prelude::*;
use argon2::{PasswordHasher, PasswordVerifier};
use crate::error::{AppError, AppErrorV};
use crate::text::{trim_spaces, trim, first_index_of, lemma_first_index_of_at, starts_with};
use crate::user::User;

verus! {

/// Whether a stored hash text parses as a password hash. Names the success of
/// argon2's `PasswordHash::new`, which depends on the text alone.
pub uninterp spec fn password_hash_parses(hash: Seq<char>) -> bool;

/// Whether a password matches a stored hash. Names the outcome of argon2's
/// `Argon2::verify_password`, which depends on (hash, password) alone.
pub uninterp spec fn password_verifies(hash: Seq<char>, plain: Seq<char>) -> bool;

/// What the standard base64 alphabet decodes a text to, if anything. Names
/// the outcome of base64's STANDARD engine `decode`.
pub uninterp spec fn base64_standard_decoded(s: Seq<char>) -> Option<Seq<u8>>;

/// What a byte sequence decodes to as UTF-8, if anything. Names the outcome
/// of std's `String::from_utf8`.
pub uninterp spec fn utf8_decoded(bytes: Seq<u8>) -> Option<Seq<char>>;

/// Relies on argon2's `SaltString::generate` + `Argon2::hash_password`: a
/// fresh random salt is drawn, and every hash produced this way parses and
/// verifies against the password it was derived from.
#[verifier::external_body]
pub fn hash_password(plain: &str) -> (r: Result<String, AppError>)
    ensures
        match r {
            Ok(h) => password_hash_parses(h@) && password_verifies(h@, plain@),
            Err(e) => e.deep_view() == AppErrorV::Internal("Failed to hash password"@),
        },
{
    let salt = argon2::password_hash::SaltString::generate(&mut rand_core::OsRng);
    match argon2::Argon2::default().hash_password(plain.as_bytes(), &salt) {
        Ok(h) => Ok(h.to_string()),
        Err(_) => Err(AppError::Internal(String::from_str("Failed to hash password"))),
    }
}

/// Relies on argon2's `PasswordHash::new` and `Argon2::verify_password`:
/// parsing depends on the hash text alone, verification on (hash, password)
/// alone.
#[verifier::external_body]
pub fn verify_password(hash: &str, plain: &str) -> (r: Result<bool, AppError>)
    ensures
        match r {
            Ok(b) => password_hash_parses(hash@) && b == password_verifies(hash@, plain@),
            Err(e) => !password_hash_parses(hash@) && e.deep_view() == AppErrorV::Internal(
                "Failed to instantiate PasswordHash"@,
            ),
        },
{
    match argon2::PasswordHash::new(hash) {
        Ok(parsed) => Ok(
            argon2::Argon2::default().verify_password(plain.as_bytes(), &parsed).is_ok(),
        ),
        Err(_) => Err(
            AppError::Internal(String::from_str("Failed to instantiate PasswordHash")),
        ),
    }
}

/// Relies on base64's STANDARD engine `decode`: the result depends on the
/// input text alone.
#[verifier::external_body]
fn base64_decode(s: &str) -> (r: Option<Vec<u8>>)
    ensures
        match r {
            Some(v) => base64_standard_decoded(s@) == Some(v@),
            None => base64_standard_decoded(s@) is None,
        },
{
    base64::Engine::decode(&base64::engine::general_purpose::STANDARD, s).ok()
}

/// Relies on std's `String::from_utf8`: the result depends on the bytes
/// alone.
#[verifier::external_body]
fn string_from_utf8(bytes: Vec<u8>) -> (r: Option<String>)
    ensures
        match r {
            Some(s) => utf8_decoded(bytes@) == Some(s@),
            None => utf8_decoded(bytes@) is None,
        },
{
    String::from_utf8(bytes).ok()
}

/// Why a Basic Authorization header was rejected. The boundary answers a
/// missing scheme as unauthorized and the malformed payloads as bad
/// requests, each with its own text.
#[derive(Debug, Clone, Copy, PartialEq, Eq, Structural)]
pub enum BasicAuthError {
    NotBasic,
    InvalidBase64,
    InvalidUtf8,
    MissingSeparator,
}

/// The credentials carried by a Basic Authorization header — the part after
/// "Basic " is base64 text decoding to UTF-8 "user:password" — or the first
/// reason the header fails.
pub open spec fn spec_parse_basic(header: Seq<char>) -> Result<
    (Seq<char>, Seq<char>),
    BasicAuthError,
> {
    if !(header.len() >= 6 && header.subrange(0, 6) == "Basic "@) {
        Err(BasicAuthError::NotBasic)
    } else {
        match base64_standard_decoded(header.skip(6)) {
            None => Err(BasicAuthError::InvalidBase64),
            Some(bytes) => match utf8_decoded(bytes) {
                None => Err(BasicAuthError::InvalidUtf8),
                Some(decoded) => {
                    let i = first_index_of(decoded, ':');
                    if i == decoded.len() {
                        Err(BasicAuthError::MissingSeparator)
                    } else {
                        Ok(
                            (
                                decoded.subrange(0, i),
                                decoded.subrange(i + 1, decoded.len() as int),
                            ),
                        )
                    }
                },
            },
        }
    }
}

/// Extract the username and password from a Basic Authorization header, or
/// say exactly why it is rejected.
pub fn parse_basic_authorization(header: &str) -> (r: Result<(String, String), BasicAuthError>)
    ensures
        match r {
            Ok(up) => spec_parse_basic(header@) == Ok::<(Seq<char>, Seq<char>), BasicAuthError>(
                (up.0@, up.1@),
            ),
            Err(e) => spec_parse_basic(header@) == Err::<(Seq<char>, Seq<char>), BasicAuthError>(
                e,
            ),
        },
{
    if !starts_with(header, "Basic ") {
        proof {
            reveal_strlit("Basic ");
        }
        return Err(BasicAuthError::NotBasic);
    }
    proof {
        reveal_strlit("Basic ");
    }
    let n = header.unicode_len();
    let b64 = header.substring_char(6, n);
    proof {
        assert(b64@ =~= header@.skip(6));
    }
    let bytes = match base64_decode(b64) {
        Some(v) => v,
        None => {
            return Err(BasicAuthError::InvalidBase64);
        },
    };
    let decoded = match string_from_utf8(bytes) {
        Some(s) => s,
        None => {
            return Err(BasicAuthError::InvalidUtf8);
        },
    };
    let d = decoded.as_str();
    let dn = d.unicode_len();
    let mut i: usize = 0;
    while i < dn && d.get_char(i) != ':'
        invariant
            dn == d@.len(),
            i <= dn,
            forall|j: int| 0 <= j < i ==> d@[j] != ':',
        decreases dn - i,
    {
        i = i + 1;
    }
    proof {
        lemma_first_index_of_at(d@, ':', i as int);
    }
    if i == dn {
        return Err(BasicAuthError::MissingSeparator);
    }
    let username = d.substring_char(0, i);
    let password = d.substring_char(i + 1, dn);
    Ok((String::from_str(username), String::from_str(password)))
}

/// The sign-in decision over a looked-up user: unknown labels and wrong
/// passwords are both rejected as unauthorized; an unparsable stored hash is
/// an internal failure.
pub fn signin_check(user: &Option<User>, password: &str) -> (r: Result<i64, AppError>)
    ensures
        match user.deep_view() {
            None => r matches Err(e) && e.deep_view() == AppErrorV::Unauthorized,
            Some(u) => match r {
                Ok(id) => id == u.id && password_hash_parses(u.password_hash)
                    && password_verifies(u.password_hash, password@),
                Err(e) => match e.deep_view() {
                    AppErrorV::Unauthorized => password_hash_parses(u.password_hash)
                        && !password_verifies(u.password_hash, password@),
                    AppErrorV::Internal(m) => !password_hash_parses(u.password_hash),
                    _ => false,
                },
            },
        },
{
    let u = match user {
        None => {
            return Err(AppError::Unauthorized);
        },
        Some(u) => u,
    };
    let valid = match verify_password(u.password_hash.as_str(), password) {
        Ok(b) => b,
        Err(e) => {
            return Err(e);
        },
    };
    if !valid {
        return Err(AppError::Unauthorized);
    }
    Ok(u.id)
}

/// The password-change decision: the new password must be at least 8
/// characters — counted as characters after ASCII-whitespace trimming, the
/// stable reading of the length rule — the current password must verify
/// against the stored hash, and the result is a fresh hash of the new
/// password.
pub fn change_password_core(stored_hash: &str, current: &str, new_password: &str) -> (r:
    Result<String, AppError>)
    ensures
        match r {
            Ok(h) => trim_spaces(new_password@).len() >= 8 && password_hash_parses(
                stored_hash@,
            ) && password_verifies(stored_hash@, current@) && password_hash_parses(h@)
                && password_verifies(h@, new_password@),
            Err(e) => match e.deep_view() {
                AppErrorV::BadRequest(m) => trim_spaces(new_password@).len() < 8 && m
                    == "new password must be at least 8 characters"@,
                AppErrorV::Unauthorized => trim_spaces(new_password@).len() >= 8
                    && password_hash_parses(stored_hash@) && !password_verifies(
                    stored_hash@,
                    current@,
                ),
                AppErrorV::Internal(m) => trim_spaces(new_password@).len() >= 8 && (
                !password_hash_parses(stored_hash@) || password_verifies(
                    stored_hash@,
                    current@,
                )),
                _ => false,
            },
        },
{
    let t = trim(new_password);
    if t.unicode_len() < 8 {
        return Err(AppError::bad_request("new password must be at least 8 characters"));
    }
    let valid = match verify_password(stored_hash, current) {
        Ok(b) => b,
        Err(e) => {
            return Err(e);
        },
    };
    if !valid {
        return Err(AppError::Unauthorized);
    }
    hash_password(new_password)
}

} // verus!
