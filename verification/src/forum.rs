use vstd::prelude::*;

use crate::auth;
use crate::errors::ForumError;
use crate::models::{CommentView, NewComment, NewPost, NewUser, PostView};
use crate::password;
use crate::session;
use crate::session::{SecretKey, SessionState};
use crate::store::{
    comment_allowed, comment_error, has_username, opt_view, signup_effect, signup_ok, user_by_name,
    Store, StoreView,
};

verus! {

// ---------------------------------------------------------------------------
// Spec helpers for the request-level contracts.
// ---------------------------------------------------------------------------

/// Whether the guard lets this session act on this store: a logged-in user
/// whose row still exists.
pub open spec fn guard_passes(s: StoreView, state: SessionState) -> bool {
    state matches SessionState::Authenticated(uid) && 1 <= uid <= s.users.len()
}

/// The user id a session claims (zero when anonymous).
pub open spec fn state_uid(state: SessionState) -> int {
    match state {
        SessionState::Authenticated(uid) => uid as int,
        SessionState::Anonymous => 0,
    }
}

/// The store after a successful submission.
pub open spec fn post_effect(
    s: StoreView,
    title: Seq<char>,
    link: Seq<char>,
    author: int,
    t: int,
) -> StoreView {
    StoreView {
        posts: s.posts.push(
            PostView {
                id: s.posts.len() as int + 1,
                title: title,
                link: Some(link),
                author: author,
                created_at: t,
            },
        ),
        ..s
    }
}

/// The store after a successful comment.
pub open spec fn comment_effect(
    s: StoreView,
    body: Seq<char>,
    post_id: int,
    user_id: int,
    parent: Option<int>,
    t: int,
) -> StoreView {
    StoreView {
        comments: s.comments.push(
            CommentView {
                id: s.comments.len() as int + 1,
                comment: body,
                post_id: post_id,
                user_id: user_id,
                parent_comment_id: parent,
                created_at: t,
            },
        ),
        ..s
    }
}

/// The error a refused comment request carries: the guard's verdict first,
/// then the store's.
pub open spec fn comment_refusal(
    s: StoreView,
    state: SessionState,
    post_id: int,
    parent: Option<int>,
) -> ForumError {
    if !guard_passes(s, state) {
        ForumError::Unauthorized
    } else {
        comment_error(s, post_id, state_uid(state), parent)
    }
}

/// Law: after a fresh signup, the user is found under their username, the
/// stored hash is the stored form of the signup password — so a login
/// attempt with that password verifies — and an attempt with any other
/// password verifies only if its digest collides with the right one's.
pub proof fn lemma_signup_password_verifies(
    s: StoreView,
    name: Seq<char>,
    email: Seq<char>,
    p: Seq<char>,
    k: Seq<u8>,
    q: Seq<char>,
)
    requires
        crate::store::store_wf(s),
        signup_ok(s, name),
    ensures
        ({
            let h = password::stored_hash_of(p, k);
            let s2 = signup_effect(s, name, email, h);
            &&& crate::store::store_wf(s2)
            &&& has_username(s2, name)
            &&& user_by_name(s2, name).password == h
            &&& (user_by_name(s2, name).password == password::stored_hash_of(q, k)
                <==> password::argon2_digest_of(q, k) == password::argon2_digest_of(p, k))
        }),
{
    let h = password::stored_hash_of(p, k);
    let s2 = signup_effect(s, name, email, h);
    crate::store::lemma_signup_effect_found(s, name, email, h);
    password::lemma_stored_hash_collision(p, q, k);
}

// ---------------------------------------------------------------------------
// The request-level operations.
// ---------------------------------------------------------------------------

/// Signup: hash the password under the server secret, then insert the user
/// row. Fails with `DuplicateUsername` when the username is taken, leaving
/// the store unchanged — signing up twice with one username fails the
/// second time and leaves no partial row behind.
pub fn process_signup(
    store: &mut Store,
    username: String,
    email: String,
    password: String,
    key: &SecretKey,
) -> (r: Result<i32, ForumError>)
    requires
        old(store).wf(),
        key.wf(),
    ensures
        final(store).wf(),
        r matches Ok(id) ==> signup_ok(old(store)@, username@) && id == old(store)@.users.len() + 1
            && final(store)@ == signup_effect(
            old(store)@,
            username@,
            email@,
            password::stored_hash_of(password@, key@),
        ) && password::stored_hash_of(password@, key@).len() == 64,
        r matches Err(e) ==> final(store)@ == old(store)@ && (e == ForumError::HashingFailure || (e
            == ForumError::DuplicateUsername && has_username(old(store)@, username@)) || (e
            == ForumError::StoreUnavailable && !has_username(old(store)@, username@)
            && old(store)@.users.len() >= 0x7fff_ffff)),
        has_username(old(store)@, username@) ==> !(r is Ok),
{
    let nu = match NewUser::new(username, email, password, key) {
        Ok(nu) => nu,
        Err(e) => { return Err(e) },
    };
    store.create(nu)
}

/// Login: look up the user by username, hash the attempted password and
/// compare it with the stored hash — never a plaintext comparison — and
/// issue a session cookie on success. An unknown username and a wrong
/// password are both refused with the same `Unauthorized`, so the outcome
/// does not reveal which of the two it was.
pub fn process_login(
    store: &Store,
    username: &String,
    password: &String,
    key: &SecretKey,
    signing: &SecretKey,
) -> (r: Result<Vec<u8>, ForumError>)
    requires
        store.wf(),
        key.wf(),
    ensures
        r matches Ok(c) ==> has_username(store@, username@) && user_by_name(
            store@,
            username@,
        ).password == password::stored_hash_of(password@, key@) && c@ == session::cookie_of(
            user_by_name(store@, username@).id as u32,
            signing@,
        ),
        r matches Err(e) ==> (e == ForumError::Unauthorized && !(has_username(store@, username@)
            && user_by_name(store@, username@).password == password::stored_hash_of(
            password@,
            key@,
        ))) || e == ForumError::HashingFailure,
        !has_username(store@, username@) ==> r == Err::<Vec<u8>, ForumError>(
            ForumError::Unauthorized,
        ),
{
    let u = match store.find_by_username(username) {
        Ok(u) => u,
        Err(_) => { return Err(ForumError::Unauthorized) },
    };
    let matched = match password::verify(password, &u.password, key) {
        Ok(b) => b,
        Err(e) => { return Err(e) },
    };
    if matched {
        proof {
            crate::store::lemma_username_unique(store@, crate::store::user_index(store@, username@));
        }
        Ok(session::begin(u.id, signing))
    } else {
        Err(ForumError::Unauthorized)
    }
}

/// Submission: the guard first, the post only after it passes. An
/// anonymous request is refused with `Unauthorized` and writes nothing.
pub fn process_submission(store: &mut Store, state: &SessionState, title: String, link: String) -> (r:
    Result<i32, ForumError>)
    requires
        old(store).wf(),
    ensures
        final(store).wf(),
        *state is Anonymous ==> r == Err::<i32, ForumError>(ForumError::Unauthorized)
            && final(store)@ == old(store)@,
        r is Ok <==> guard_passes(old(store)@, *state) && old(store)@.posts.len() < 0x7fff_ffff,
        r matches Ok(id) ==> id == old(store)@.posts.len() + 1 && (exists|t: int|
            final(store)@ == post_effect(old(store)@, title@, link@, state_uid(*state), t)),
        r matches Err(e) ==> final(store)@ == old(store)@ && e == (
        if !guard_passes(old(store)@, *state) {
            ForumError::Unauthorized
        } else {
            ForumError::StoreUnavailable
        }),
{
    let uid = match auth::require_login(state, store) {
        Ok(u) => u.id,
        Err(e) => { return Err(e) },
    };
    let np = NewPost::from_post_form(title, link, uid);
    let r = store.insert_post(np);
    proof {
        if r is Ok {
            assert(store@ == post_effect(
                old(store)@,
                title@,
                link@,
                state_uid(*state),
                np.created_at as int,
            ));
        }
    }
    r
}

/// Comment: the guard first, the comment only after it passes. An
/// anonymous request is refused with `Unauthorized` and writes nothing;
/// the target post must exist, and the parent, when given, must be a
/// comment on the same post.
pub fn comment(
    store: &mut Store,
    state: &SessionState,
    post_id: i32,
    body: String,
    parent_comment_id: Option<i32>,
) -> (r: Result<i32, ForumError>)
    requires
        old(store).wf(),
    ensures
        final(store).wf(),
        *state is Anonymous ==> r == Err::<i32, ForumError>(ForumError::Unauthorized)
            && final(store)@ == old(store)@,
        r is Ok <==> guard_passes(old(store)@, *state) && comment_allowed(
            old(store)@,
            post_id as int,
            state_uid(*state),
            opt_view(parent_comment_id),
        ) && old(store)@.comments.len() < 0x7fff_ffff,
        r matches Ok(id) ==> id == old(store)@.comments.len() + 1 && (exists|t: int|
            final(store)@ == comment_effect(
                old(store)@,
                body@,
                post_id as int,
                state_uid(*state),
                opt_view(parent_comment_id),
                t,
            )),
        r matches Err(e) ==> final(store)@ == old(store)@ && e == comment_refusal(
            old(store)@,
            *state,
            post_id as int,
            opt_view(parent_comment_id),
        ),
{
    let uid = match auth::require_login(state, store) {
        Ok(u) => u.id,
        Err(e) => { return Err(e) },
    };
    let nc = NewComment::new(body, post_id, uid, parent_comment_id);
    let r = store.insert_comment(nc);
    proof {
        if r is Ok {
            assert(store@ == comment_effect(
                old(store)@,
                body@,
                post_id as int,
                state_uid(*state),
                opt_view(parent_comment_id),
                nc.created_at as int,
            ));
        }
    }
    r
}

} // verus!
