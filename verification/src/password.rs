//! Hashed credentials. The store never inspects or stores these; the
//! credential subsystem stands beside it.

use vstd::prelude::*;
use crate::error::AppError;
use crate::text;

verus! {

/// A hashed credential.
#[derive(Debug, Clone)]
pub struct HashedPassword {
    pub value: String,
}

/// Relies on pw_hash's bcrypt::hash: a bcrypt hash of the password with
/// a random salt and the default cost. The salt is random, so nothing is
/// promised of the text handed back.
#[verifier::external_body]
fn bcrypt_hash(password: &str) -> (r: Option<String>) {
    match pw_hash::bcrypt::hash(password) {
        Ok(h) => Some(h),
        Err(_) => None,
    }
}

impl HashedPassword {
    /// Hashes a password; rejects one that is empty once trimmed. A
    /// failure of the hashing backend itself is reported as a storage
    /// error rather than reaching the caller as a crash.
    pub fn new(password: String) -> (r: Result<Self, AppError>)
        ensures
            text::is_blank(password@) ==> (r matches Err(AppError::User(m)) && m@
                == "密码不能为空"@),
            !text::is_blank(password@) ==> (r is Ok || (r matches Err(AppError::Storage(m)) && m@
                == "密码哈希失败"@)),
    {
        if text::trimmed_empty(password.as_str()) {
            return Err(AppError::User("密码不能为空".to_owned()));
        }
        match bcrypt_hash(password.as_str()) {
            Some(h) => Ok(HashedPassword { value: h }),
            None => Err(AppError::Storage("密码哈希失败".to_owned())),
        }
    }
}

} // verus!
