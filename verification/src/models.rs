use vstd::prelude::*;

use crate::errors::ForumError;
use crate::password;
use crate::session::SecretKey;

verus! {

// ---------------------------------------------------------------------------
// Mathematical views of the row types.
//
// Contracts throughout the crate speak about these, never about the raw
// `String` and `i32` fields.
// ---------------------------------------------------------------------------

/// Mathematical view of a [`User`] row.
pub struct UserView {
    pub id: int,
    pub username: Seq<char>,
    pub email: Seq<char>,
    pub password: Seq<char>,
}

/// Mathematical view of a [`Post`] row.
pub struct PostView {
    pub id: int,
    pub title: Seq<char>,
    pub link: Option<Seq<char>>,
    pub author: int,
    pub created_at: int,
}

/// Mathematical view of a [`Comment`] row.
pub struct CommentView {
    pub id: int,
    pub comment: Seq<char>,
    pub post_id: int,
    pub user_id: int,
    pub parent_comment_id: Option<int>,
    pub created_at: int,
}

// ---------------------------------------------------------------------------
// Row types.
// ---------------------------------------------------------------------------

/// A registered user. `password` holds the stored password hash, never the
/// plaintext password.
#[derive(Debug)]
pub struct User {
    pub id: i32,
    pub username: String,
    pub email: String,
    pub password: String,
}

impl View for User {
    type V = UserView;

    open spec fn view(&self) -> UserView {
        UserView {
            id: self.id as int,
            username: self.username@,
            email: self.email@,
            password: self.password@,
        }
    }
}

/// A link post. `link` is optional: a post may be only a title.
#[derive(Debug)]
pub struct Post {
    pub id: i32,
    pub title: String,
    pub link: Option<String>,
    pub author: i32,
    pub created_at: i64,
}

impl View for Post {
    type V = PostView;

    open spec fn view(&self) -> PostView {
        PostView {
            id: self.id as int,
            title: self.title@,
            link: match self.link {
                Some(l) => Some(l@),
                None => None,
            },
            author: self.author as int,
            created_at: self.created_at as int,
        }
    }
}

/// A comment on a post. Top-level comments have `parent_comment_id = None`;
/// replies reference an earlier comment on the same post.
#[derive(Debug)]
pub struct Comment {
    pub id: i32,
    pub comment: String,
    pub post_id: i32,
    pub user_id: i32,
    pub parent_comment_id: Option<i32>,
    pub created_at: i64,
}

impl View for Comment {
    type V = CommentView;

    open spec fn view(&self) -> CommentView {
        CommentView {
            id: self.id as int,
            comment: self.comment@,
            post_id: self.post_id as int,
            user_id: self.user_id as int,
            parent_comment_id: match self.parent_comment_id {
                Some(p) => Some(p as int),
                None => None,
            },
            created_at: self.created_at as int,
        }
    }
}

// ---------------------------------------------------------------------------
// Insertion forms: the values a handler builds before asking the store to
// insert a row. The store assigns the `id`.
// ---------------------------------------------------------------------------

/// A user ready to be inserted: the password has already been hashed.
#[derive(Debug)]
pub struct NewUser {
    pub username: String,
    pub email: String,
    pub password: String,
}

impl NewUser {
    /// Builds an insertable user from signup form data, hashing the
    /// plaintext password under the server secret. The plaintext itself is
    /// never stored. Fails only when the hasher cannot do its work.
    pub fn new(username: String, email: String, password: String, key: &SecretKey) -> (r: Result<
        NewUser,
        ForumError,
    >)
        requires
            key.wf(),
        ensures
            r matches Ok(nu) ==> nu.username@ == username@ && nu.email@ == email@ && nu.password@
                == password::stored_hash_of(password@, key@) && nu.password@.len() == 64,
            r matches Err(e) ==> e == ForumError::HashingFailure,
    {
        let hash = password::hash(&password, key)?;
        Ok(NewUser { username, email, password: hash })
    }
}

/// A post ready to be inserted.
#[derive(Debug)]
pub struct NewPost {
    pub title: String,
    pub link: String,
    pub author: i32,
    pub created_at: i64,
}

impl NewPost {
    /// Builds an insertable post from submission form data, stamping the
    /// creation time from the wall clock.
    pub fn from_post_form(title: String, link: String, uid: i32) -> (np: NewPost)
        ensures
            np.title@ == title@,
            np.link@ == link@,
            np.author == uid,
    {
        NewPost { title, link, author: uid, created_at: now_timestamp() }
    }
}

/// A comment ready to be inserted.
#[derive(Debug)]
pub struct NewComment {
    pub comment: String,
    pub post_id: i32,
    pub user_id: i32,
    pub parent_comment_id: Option<i32>,
    pub created_at: i64,
}

impl NewComment {
    /// Builds an insertable comment, stamping the creation time from the
    /// wall clock.
    pub fn new(comment: String, post_id: i32, user_id: i32, parent_comment_id: Option<i32>) -> (nc:
        NewComment)
        ensures
            nc.comment@ == comment@,
            nc.post_id == post_id,
            nc.user_id == user_id,
            nc.parent_comment_id == parent_comment_id,
    {
        NewComment { comment, post_id, user_id, parent_comment_id, created_at: now_timestamp() }
    }
}

/// Relies on chrono::Local::now (naive UTC, unix seconds). The wall clock
/// decides the result, so nothing is promised of it.
#[verifier::external_body]
fn now_timestamp() -> i64 {
    chrono::Local::now().naive_utc().and_utc().timestamp()
}

} // verus!
