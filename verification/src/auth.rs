use vstd::prelude::*;

use crate::errors::ForumError;
use crate::models::User;
use crate::session::SessionState;
use crate::store::Store;

verus! {

/// The guard: converts a resolved session into a concrete user row, or
/// refuses with `Unauthorized`.
///
/// An anonymous session is refused outright. An authenticated session whose
/// user id no longer names a user row — a stale or forged session — is
/// also refused with `Unauthorized`, never surfaced as a lookup failure.
/// Content-mutating operations call this first and act only after it
/// passes.
pub fn require_login<'a>(state: &SessionState, store: &'a Store) -> (r: Result<
    &'a User,
    ForumError,
>)
    requires
        store.wf(),
    ensures
        r is Ok <==> (*state matches SessionState::Authenticated(id) && 1 <= id
            <= store@.users.len()),
        r matches Ok(u) ==> (*state matches SessionState::Authenticated(id) && u@
            == store@.users[id - 1]),
        r matches Err(e) ==> e == ForumError::Unauthorized,
{
    match state {
        SessionState::Authenticated(id) => match store.user_by_id(*id) {
            Ok(u) => Ok(u),
            Err(_) => Err(ForumError::Unauthorized),
        },
        SessionState::Anonymous => Err(ForumError::Unauthorized),
    }
}

} // verus!
