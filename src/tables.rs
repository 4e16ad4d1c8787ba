use vstd::prelude::*;

verus! {

#[verifier::external_type_specification]
#[verifier::external_body]
pub struct ExBcryptError(bcrypt::BcryptError);

/// What `bcrypt::verify` answers for `password` against `hash`: whether the
/// password matches, or `None` where it reports an error (a malformed hash).
pub uninterp spec fn bcrypt_verdict(password: Seq<char>, hash: Seq<char>) -> Option<bool>;

/// Relies on `bcrypt::hash` at `bcrypt::DEFAULT_COST` (12): on success it
/// returns `$2b$12$` followed by 22 characters of salt and 31 of hash. The
/// salt is random, so neither the text nor success is fixed by the password.
#[verifier::external_body]
fn bcrypt_hash(password: &str) -> (r: Result<String, bcrypt::BcryptError>)
    ensures
        r matches Ok(h) ==> h@.len() == 60 && h@.subrange(0, 7) == "$2b$12$"@,
{
    bcrypt::hash(password, bcrypt::DEFAULT_COST)
}

/// Relies on `bcrypt::verify`: it recomputes the hash of `password` with the
/// cost and salt read from `hash`, so its answer depends on the two alone.
#[verifier::external_body]
fn bcrypt_verify(password: &str, hash: &str) -> (r: Result<bool, bcrypt::BcryptError>)
    ensures
        match r {
            Ok(b) => bcrypt_verdict(password@, hash@) == Some(b),
            Err(_) => bcrypt_verdict(password@, hash@) is None,
        },
{
    bcrypt::verify(password, hash)
}

/// A failure of the password hashing library.
pub enum PasswordError {
    Bcrypt(bcrypt::BcryptError),
}

/// A user account record.
#[allow(dead_code)]
pub struct User<'a> {
    id: i32,
    username: &'a str,
    password: String,
    email: &'a str,
    preferences: UserPreferences<'a>,
}

/// A user's display settings.
pub struct UserPreferences<'a> {
    pub theme: &'a str,
    pub screen_reader: bool,
}

/// A named object of a building model.
pub struct BimObject<'a> {
    pub id: i32,
    pub name: &'a str,
}

impl<'a> User<'a> {
    /// The stored (hashed) password of this user.
    pub closed spec fn password_hash(&self) -> Seq<char> {
        self.password@
    }

    /// A user record whose stored password is `password_hash`.
    pub fn new(
        id: i32,
        username: &'a str,
        password_hash: String,
        email: &'a str,
        preferences: UserPreferences<'a>,
    ) -> (r: Self)
        ensures
            r.password_hash() == password_hash@,
    {
        User { id, username, password: password_hash, email, preferences }
    }

    /// Hashes `password` with a fresh random salt at the default cost.
    pub fn hash_password(password: &str) -> (r: Result<String, PasswordError>)
        ensures
            r matches Ok(h) ==> h@.len() == 60 && h@.subrange(0, 7) == "$2b$12$"@,
    {
        match bcrypt_hash(password) {
            Ok(h) => Ok(h),
            Err(e) => Err(PasswordError::Bcrypt(e)),
        }
    }

    /// Whether `password` matches this user's stored hash; an error where
    /// the stored hash is malformed.
    pub fn verify_password(&self, password: &str) -> (r: Result<bool, PasswordError>)
        ensures
            match r {
                Ok(b) => bcrypt_verdict(password@, self.password_hash()) == Some(b),
                Err(_) => bcrypt_verdict(password@, self.password_hash()) is None,
            },
    {
        match bcrypt_verify(password, self.password.as_str()) {
            Ok(b) => Ok(b),
            Err(e) => Err(PasswordError::Bcrypt(e)),
        }
    }
}

} // verus!
