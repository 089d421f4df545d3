use vstd::prelude::*;

verus! {

/// Everything that can go wrong in the forum core.
///
/// All variants but `HashingFailure` are expected, recoverable conditions
/// that a caller converts into a user-visible status. `HashingFailure`
/// signals a broken deployment (a missing or unusable server secret) and is
/// meant to stop the process during startup validation.
#[derive(Clone, Copy, Debug, PartialEq, Eq, Structural)]
pub enum ForumError {
    /// A referenced user, post or comment does not exist.
    NotFound,
    /// The username chosen at signup is already taken.
    DuplicateUsername,
    /// No session, an invalid session, or a session for a deleted user.
    Unauthorized,
    /// A comment's parent belongs to a different post, or does not exist.
    InvalidParent,
    /// The store cannot accept another row.
    StoreUnavailable,
    /// The server secret is missing or unusable.
    HashingFailure,
}

} // verus!
