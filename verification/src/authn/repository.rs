use vstd::prelude::*;

use crate::authn::models::NewUser;
use crate::authn::password::{bcrypt_hash_text, hash_password, PASSWORD_HASH_COST};

verus! {

/// The values stored for a new user.
#[derive(Debug, Clone)]
pub struct NewUserRecord {
    pub name: String,
    pub password_hash: String,
    pub locale: String,
}

/// What is stored for a new user: the name, the bcrypt hash of the password
/// with the configured salt, and the locale `en`.
pub fn new_user_record(user: NewUser, salt: [u8; 16]) -> (record: NewUserRecord)
    ensures
        record.name@ == user.name@,
        record.password_hash@ == bcrypt_hash_text(user.raw_password@, PASSWORD_HASH_COST, salt@),
        record.locale@ == "en"@,
{
    let password_hash = hash_password(user.raw_password.as_str(), salt);
    NewUserRecord { name: user.name, password_hash, locale: "en".to_owned() }
}

} // verus!
