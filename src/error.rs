//! Failures of the authentication and authorization operations.

use vstd::prelude::*;

verus! {

#[derive(Debug, PartialEq, Eq)]
pub enum AuthError {
    /// The token is malformed, its signature does not match the current
    /// key, or a claim is missing or unreadable.
    InvalidToken,
    /// The token's subject, or the librarian named, is not in the store.
    LibrarianNotFound,
    /// Unknown name or wrong password; the two are not told apart.
    InvalidCredentials,
    /// The first-librarian token was used while a librarian exists.
    AlreadyBootstrapped,
    RoleNotFound,
    UnknownAction,
    /// A permission list grants the same permission twice.
    AlreadyGranted,
    RoleAlreadyExists,
    /// The store or the platform failed; the text says how.
    StorageError(String),
}

} // verus!
