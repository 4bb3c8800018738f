use vstd::prelude::*;

verus! {

/// A privilege role held by an account.
///
/// Roles are an enumerated capability set rather than free-form strings, so
/// the privilege model can grow without string comparisons at call sites.
#[derive(Clone, Copy, Debug, PartialEq, Eq, Structural)]
pub enum Role {
    /// Elevated privilege, granted only to the very first (bootstrap) account.
    Owner,
    /// Ordinary privilege, granted to every invited account.
    User,
}

/// The error kinds surfaced by this subsystem.
#[derive(Clone, Copy, Debug, PartialEq, Eq, Structural)]
pub enum AuthError {
    /// Unknown username or secret mismatch at login. The two causes are
    /// deliberately indistinguishable, so usernames cannot be enumerated.
    InvalidCredentials,
    /// Registration attempted without a valid unclaimed invite token while at
    /// least one account already exists.
    NoToken,
    /// A datastore constraint was violated (here: the username is taken).
    DatabaseError,
}

impl AuthError {
    /// A short stable name for the error kind, for boundary layers that
    /// render an error body.
    pub fn kind(&self) -> (r: &'static str)
        ensures
            *self == AuthError::InvalidCredentials ==> r@ == "invalid credentials"@,
            *self == AuthError::NoToken ==> r@ == "no token"@,
            *self == AuthError::DatabaseError ==> r@ == "database error"@,
    {
        match self {
            AuthError::InvalidCredentials => "invalid credentials",
            AuthError::NoToken => "no token",
            AuthError::DatabaseError => "database error",
        }
    }
}

} // verus!
