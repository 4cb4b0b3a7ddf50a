use vstd::prelude::*;
use vstd::utf8::encode_utf8;

verus! {

/// A user about to be created, with the password as typed.
#[derive(Debug, Default, Clone)]
pub struct NewUser {
    pub raw_password: String,
    pub name: String,
}

/// A stored user.
#[derive(Debug, Default, Clone)]
pub struct User {
    pub id: i64,
    pub password_hash: String,
    pub name: String,
    pub locale: String,
}

/// The name and password of a login or sign-up form.
#[derive(Debug)]
pub struct Credentials {
    pub username: String,
    pub password: String,
}

/// The user shown when no stored user can be had.
pub fn error_user() -> (user: User)
    ensures
        user.id == -1,
        user.password_hash@ == Seq::<char>::empty(),
        user.name@ == "Unknown"@,
        user.locale@ == "en"@,
{
    User {
        id: -1,
        password_hash: String::new(),
        name: "Unknown".to_owned(),
        locale: "en".to_owned(),
    }
}

impl User {
    /// The identifier the session remembers the user by.
    pub fn get_id(&self) -> (id: i64)
        ensures
            id == self.id,
    {
        self.id
    }

    /// The bytes of the stored password hash.
    pub fn get_password_hash(&self) -> (hash: Vec<u8>)
        ensures
            hash@ == encode_utf8(self.password_hash@),
    {
        self.password_hash.as_str().as_bytes_vec()
    }
}

} // verus!
