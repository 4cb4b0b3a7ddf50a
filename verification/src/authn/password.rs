use vstd::prelude::*;
use vstd::string::StringSliceAdditionalSpecFns;

verus! {

/// `bcrypt::BcryptError`, the error of the bcrypt functions.
#[verifier::external_type_specification]
#[verifier::external_body]
pub struct ExBcryptError(bcrypt::BcryptError);

/// The text of the bcrypt hash (`$2y$` form) of a password at a cost with a
/// salt, as `bcrypt::hash_with_salt` and `HashParts::to_string` compute it.
pub uninterp spec fn bcrypt_hash_text(password: Seq<char>, cost: u32, salt: Seq<u8>) -> Seq<char>;

/// What `bcrypt::verify` answers for a password and a stored hash: whether
/// they match, or nothing when the hash cannot be read or checked.
pub uninterp spec fn bcrypt_verify_outcome(password: Seq<char>, hash: Seq<char>) -> Option<bool>;

/// Calls `bcrypt::hash_with_salt` and writes the hash as text with
/// `HashParts::to_string`. The crate's source rejects a cost outside 4..=31
/// and otherwise always succeeds; the hash text itself is only named here.
#[verifier::external_body]
fn bcrypt_hash_with_salt(password: &str, cost: u32, salt: [u8; 16]) -> (hashed: Result<String, bcrypt::BcryptError>)
    ensures
        hashed is Ok <==> 4 <= cost <= 31,
        hashed matches Ok(text) ==> text@ == bcrypt_hash_text(password@, cost, salt@),
{
    match bcrypt::hash_with_salt(password, cost, salt) {
        Ok(parts) => Ok(parts.to_string()),
        Err(error) => Err(error),
    }
}

/// Calls `bcrypt::verify`. Its outcome is only named here, except for two
/// facts of the crate's source: a hash without any `$` cannot be read, and a
/// hash that `bcrypt_hash_with_salt` made of the same password (at an
/// allowed cost, with a 16-byte salt) verifies.
#[verifier::external_body]
fn bcrypt_verify(password: &str, hash: &str) -> (outcome: Result<bool, bcrypt::BcryptError>)
    ensures
        match outcome {
            Ok(matches) => bcrypt_verify_outcome(password@, hash@) == Some(matches),
            Err(_) => bcrypt_verify_outcome(password@, hash@) is None,
        },
        !hash@.contains('$') ==> outcome is Err,
        forall|cost: u32, salt: Seq<u8>|
            4 <= cost <= 31 && salt.len() == 16 && hash@ == #[trigger] bcrypt_hash_text(
                password@,
                cost,
                salt,
            ) ==> outcome matches Ok(true),
{
    bcrypt::verify(password, hash)
}

/// The cost at which new passwords are hashed.
pub const PASSWORD_HASH_COST: u32 = 10;

/// Why a password could not be checked against a stored hash.
#[derive(Debug, Clone, Copy, PartialEq, Eq)]
pub enum PasswordError {
    /// The stored hash cannot be read or checked.
    Unverifiable,
}

/// The salt for new password hashes from the value of its setting, which
/// must be exactly 16 bytes long.
pub fn password_salt(setting: &str) -> (salt: [u8; 16])
    requires
        setting.spec_bytes().len() == 16,
    ensures
        salt@ == setting.spec_bytes(),
{
    let bytes = setting.as_bytes();
    let mut salt: [u8; 16] = [0u8; 16];
    let mut i: usize = 0;
    while i < 16
        invariant
            i <= 16,
            bytes@ == setting.spec_bytes(),
            bytes@.len() == 16,
            forall|j: int| 0 <= j < i ==> salt@[j] == bytes@[j],
        decreases 16 - i,
    {
        salt[i] = bytes[i];
        i = i + 1;
    }
    proof {
        assert(salt@ =~= bytes@);
    }
    salt
}

/// The stored hash of a new password: bcrypt at the fixed cost with the
/// given salt.
pub fn hash_password(raw_password: &str, salt: [u8; 16]) -> (hash: String)
    ensures
        hash@ == bcrypt_hash_text(raw_password@, PASSWORD_HASH_COST, salt@),
{
    match bcrypt_hash_with_salt(raw_password, PASSWORD_HASH_COST, salt) {
        Ok(hash) => hash,
        Err(_) => String::new(),
    }
}

/// Checks a password against a stored hash.
///
/// A hash made by `hash_password` of the same password always verifies.
pub fn verify_password(password: &str, hash: &str) -> (outcome: Result<bool, PasswordError>)
    ensures
        match outcome {
            Ok(matches) => bcrypt_verify_outcome(password@, hash@) == Some(matches),
            Err(_) => bcrypt_verify_outcome(password@, hash@) is None,
        },
        !hash@.contains('$') ==> outcome == Err::<bool, PasswordError>(PasswordError::Unverifiable),
        forall|salt: Seq<u8>|
            salt.len() == 16 && hash@ == #[trigger] bcrypt_hash_text(
                password@,
                PASSWORD_HASH_COST,
                salt,
            ) ==> outcome == Ok::<bool, PasswordError>(true),
{
    match bcrypt_verify(password, hash) {
        Ok(matches) => Ok(matches),
        Err(_) => Err(PasswordError::Unverifiable),
    }
}

} // verus!
