//! Passwords: hashing them at registration and checking them at log-in, with bcrypt.

use vstd::prelude::*;
use vstd::string::*;
use vstd::utf8::is_ascii_chars;
use crate::models::{CreateUser, InfoMessage};
use crate::status::HttpStatus;

verus! {

/// `bcrypt::BcryptError`, the error of the bcrypt functions; opaque here.
#[verifier::external_type_specification]
#[verifier::external_body]
pub struct ExBcryptError(bcrypt::BcryptError);

/// What `bcrypt::verify(password, hash)` returns: `Some(matches)` when it succeeds,
/// `None` when it fails. It recomputes the hash of the password with the cost and
/// salt read from `hash`, so it depends on its two arguments alone.
pub uninterp spec fn bcrypt_verify_result(password: Seq<char>, hash: Seq<char>) -> Option<bool>;

/// Calls `bcrypt::verify(password, hash)`.
///
/// Trusted: the result is `bcrypt_verify_result` of the two texts; and, as the
/// crate's `split_hash` shows, a hash that is not exactly 60 ASCII characters is
/// refused with an error.
#[verifier::external_body]
fn bcrypt_verify(password: &str, hash: &str) -> (res: Result<bool, bcrypt::BcryptError>)
    ensures
        match res {
            Ok(m) => bcrypt_verify_result(password@, hash@) == Some(m),
            Err(_) => bcrypt_verify_result(password@, hash@) is None,
        },
        !(hash@.len() == 60 && is_ascii_chars(hash@)) ==> res is Err,
{
    bcrypt::verify(password, hash)
}

/// Calls `bcrypt::hash(password, bcrypt::DEFAULT_COST)`.
///
/// Trusted: a hash that is returned is 60 characters long and begins with
/// `$2b$12$` (version 2b, cost 12), as the crate's `HashParts::format` writes it;
/// and `bcrypt::verify` accepts the password against it, since `verify` reads the
/// cost and salt back out of the hash (`split_hash`) and recomputes the hash of the
/// password with them, truncating it as `hash` did.
/// The salt is drawn from the operating system's random source, so nothing is
/// said of the rest of the hash, nor of when the call fails (only when that
/// random source fails).
#[verifier::external_body]
fn bcrypt_hash(password: &str) -> (res: Result<String, bcrypt::BcryptError>)
    ensures
        res matches Ok(h) ==> h@.len() == 60 && h@.take(7) == "$2b$12$"@,
        res matches Ok(h) ==> bcrypt_verify_result(password@, h@) == Some(true),
{
    bcrypt::hash(password, bcrypt::DEFAULT_COST)
}

/// The answer to a log-in attempt.
#[derive(Clone, Debug, PartialEq, Eq)]
pub enum LoginOutcome {
    /// The password is right: a pair of tokens is issued.
    Granted,
    /// The attempt is refused with this status and message.
    Rejected(HttpStatus, InfoMessage),
}

/// `outcome` is the answer to a log-in: refused with "User does not exist" when no
/// account has the e-mail address, refused with "Invalid password" when the password
/// is wrong (both unauthorized), granted otherwise.
pub open spec fn is_verdict(outcome: LoginOutcome, user_found: bool, password_matches: bool) -> bool {
    match outcome {
        LoginOutcome::Granted => user_found && password_matches,
        LoginOutcome::Rejected(status, m) => {
            &&& status == HttpStatus::Unauthorized
            &&& if !user_found {
                m.message@ == "User does not exist"@
            } else if !password_matches {
                m.message@ == "Invalid password"@
            } else {
                false
            }
        },
    }
}

/// Decides a log-in from whether the account exists and whether the password matched.
pub fn login_verdict(user_found: bool, password_matches: bool) -> (outcome: LoginOutcome)
    ensures
        is_verdict(outcome, user_found, password_matches),
{
    if !user_found {
        LoginOutcome::Rejected(
            HttpStatus::Unauthorized,
            InfoMessage { message: String::from_str("User does not exist") },
        )
    } else if !password_matches {
        LoginOutcome::Rejected(
            HttpStatus::Unauthorized,
            InfoMessage { message: String::from_str("Invalid password") },
        )
    } else {
        LoginOutcome::Granted
    }
}

/// Checks a log-in: `stored_hash` is the password hash of the account with the given
/// e-mail address, `None` when there is no such account. An error of bcrypt is passed on.
pub fn check_login(stored_hash: Option<&str>, password: &str) -> (res: Result<LoginOutcome, bcrypt::BcryptError>)
    ensures
        match stored_hash {
            None => res matches Ok(o) && is_verdict(o, false, false),
            Some(h) => match bcrypt_verify_result(password@, h@) {
                Some(m) => res matches Ok(o) && is_verdict(o, true, m),
                None => res is Err,
            },
        },
{
    match stored_hash {
        None => Ok(login_verdict(false, false)),
        Some(h) => match bcrypt_verify(password, h) {
            Ok(m) => Ok(login_verdict(true, m)),
            Err(e) => Err(e),
        },
    }
}

/// The account to store for a registration: its name and e-mail address, and
/// the hash of its password.
#[derive(Clone, Debug, PartialEq, Eq)]
pub struct NewUser {
    pub username: String,
    pub email: String,
    pub password_hash: String,
}

/// The account to store for a registration, its password hashed with bcrypt at the
/// default cost, so that the stored hash verifies the password. An error of bcrypt
/// is passed on.
pub fn new_user_record(payload: &CreateUser) -> (res: Result<NewUser, bcrypt::BcryptError>)
    ensures
        res matches Ok(u) ==> {
            &&& u.username@ == payload.username@
            &&& u.email@ == payload.email@
            &&& u.password_hash@.len() == 60
            &&& u.password_hash@.take(7) == "$2b$12$"@
            &&& bcrypt_verify_result(payload.password@, u.password_hash@) == Some(true)
        },
{
    let hashed = bcrypt_hash(payload.password.as_str());
    user_record_with_hash(payload, hashed)
}

/// The account to store for a registration, given what hashing its password gave:
/// the name and e-mail address of the request with that hash, or the error of the hashing.
pub fn user_record_with_hash(payload: &CreateUser, hashed: Result<String, bcrypt::BcryptError>) -> (res: Result<
    NewUser,
    bcrypt::BcryptError,
>)
    ensures
        match hashed {
            Ok(h) => res matches Ok(u) && u.username@ == payload.username@ && u.email@
                == payload.email@ && u.password_hash == h,
            Err(e) => res == Err::<NewUser, bcrypt::BcryptError>(e),
        },
{
    match hashed {
        Ok(password_hash) => Ok(
            NewUser {
                username: payload.username.clone(),
                email: payload.email.clone(),
                password_hash,
            },
        ),
        Err(e) => Err(e),
    }
}

/// A log-in is granted exactly when the account exists and the password matches; an
/// unknown account is answered "User does not exist" and a wrong password "Invalid
/// password", both as unauthorized.
pub proof fn law_login_answers(o: LoginOutcome, user_found: bool, password_matches: bool)
    requires
        is_verdict(o, user_found, password_matches),
    ensures
        (o is Granted) <==> (user_found && password_matches),
        !user_found ==> o == LoginOutcome::Rejected(
            HttpStatus::Unauthorized,
            InfoMessage { message: o->Rejected_1.message },
        ) && o->Rejected_1.message@ == "User does not exist"@,
        user_found && !password_matches ==> o == LoginOutcome::Rejected(
            HttpStatus::Unauthorized,
            InfoMessage { message: o->Rejected_1.message },
        ) && o->Rejected_1.message@ == "Invalid password"@,
{
}

} // verus!
