use vstd::prelude::*;

use crate::errors::ForumError;
use crate::models::{
    Comment, CommentView, NewComment, NewPost, NewUser, Post, PostView, User, UserView,
};

verus! {

// ---------------------------------------------------------------------------
// The mathematical model of the store.
// ---------------------------------------------------------------------------

/// Mathematical view of the whole store: the three tables as sequences of
/// row views, in insertion order.
#[verifier::ext_equal]
pub struct StoreView {
    pub users: Seq<UserView>,
    pub posts: Seq<PostView>,
    pub comments: Seq<CommentView>,
}

/// View of an optional row reference.
pub open spec fn opt_view(o: Option<i32>) -> Option<int> {
    match o {
        Some(p) => Some(p as int),
        None => None,
    }
}

/// The store's invariant.
///
/// Rows are numbered serially from 1 in insertion order. Usernames are
/// unique. Posts reference an existing author. Comments reference an
/// existing post and user, and a comment's parent, when present, is an
/// earlier comment on the same post — the threading invariant.
pub open spec fn store_wf(s: StoreView) -> bool {
    &&& forall|i: int| 0 <= i < s.users.len() ==> (#[trigger] s.users[i]).id == i + 1
    &&& forall|i: int, j: int|
        #![trigger s.users[i].username, s.users[j].username]
        0 <= i < j < s.users.len() ==> s.users[i].username != s.users[j].username
    &&& forall|i: int|
        0 <= i < s.posts.len() ==> (#[trigger] s.posts[i]).id == i + 1 && 1 <= s.posts[i].author
            <= s.users.len()
    &&& forall|i: int|
        0 <= i < s.comments.len() ==> {
            let c = #[trigger] s.comments[i];
            &&& c.id == i + 1
            &&& 1 <= c.post_id <= s.posts.len()
            &&& 1 <= c.user_id <= s.users.len()
            &&& (c.parent_comment_id matches Some(p) ==> 1 <= p < c.id
                && s.comments[p - 1].post_id == c.post_id)
        }
}

/// Whether some user carries this username.
pub open spec fn has_username(s: StoreView, name: Seq<char>) -> bool {
    exists|i: int| 0 <= i < s.users.len() && (#[trigger] s.users[i]).username == name
}

/// The index of the user carrying this username (meaningful when
/// `has_username` holds; unique by `store_wf`).
pub open spec fn user_index(s: StoreView, name: Seq<char>) -> int {
    choose|i: int| 0 <= i < s.users.len() && (#[trigger] s.users[i]).username == name
}

/// The user record carrying this username.
pub open spec fn user_by_name(s: StoreView, name: Seq<char>) -> UserView {
    s.users[user_index(s, name)]
}

/// In a well-formed store the username of row `i` points back to row `i`.
pub proof fn lemma_username_unique(s: StoreView, i: int)
    requires
        store_wf(s),
        0 <= i < s.users.len(),
    ensures
        has_username(s, s.users[i].username),
        user_index(s, s.users[i].username) == i,
{
    let name = s.users[i].username;
    assert(has_username(s, name));
    let j = user_index(s, name);
    assert(0 <= j < s.users.len() && s.users[j].username == name);
    if i < j {
        assert(s.users[i].username != s.users[j].username);
    } else if j < i {
        assert(s.users[j].username != s.users[i].username);
    }
}

/// Whether a signup with this username can succeed.
pub open spec fn signup_ok(s: StoreView, name: Seq<char>) -> bool {
    !has_username(s, name) && s.users.len() < 0x7fff_ffff
}

/// The store after a successful signup.
pub open spec fn signup_effect(
    s: StoreView,
    name: Seq<char>,
    email: Seq<char>,
    password_hash: Seq<char>,
) -> StoreView {
    StoreView {
        users: s.users.push(
            UserView {
                id: s.users.len() as int + 1,
                username: name,
                email: email,
                password: password_hash,
            },
        ),
        posts: s.posts,
        comments: s.comments,
    }
}

/// Whether a comment with these references is acceptable.
pub open spec fn comment_allowed(
    s: StoreView,
    post_id: int,
    user_id: int,
    parent: Option<int>,
) -> bool {
    &&& 1 <= post_id <= s.posts.len()
    &&& 1 <= user_id <= s.users.len()
    &&& (parent matches Some(p) ==> 1 <= p <= s.comments.len() && s.comments[p - 1].post_id
        == post_id)
}

/// The error an unacceptable or unstorable comment is refused with: a
/// missing post or user is `NotFound`, a parent on another post (or a
/// missing parent) is `InvalidParent`, a full store is `StoreUnavailable`.
pub open spec fn comment_error(
    s: StoreView,
    post_id: int,
    user_id: int,
    parent: Option<int>,
) -> ForumError {
    if !(1 <= post_id <= s.posts.len()) || !(1 <= user_id <= s.users.len()) {
        ForumError::NotFound
    } else if !(parent matches Some(p) ==> 1 <= p <= s.comments.len() && s.comments[p - 1].post_id
        == post_id) {
        ForumError::InvalidParent
    } else {
        ForumError::StoreUnavailable
    }
}

// ---------------------------------------------------------------------------
// The store itself.
// ---------------------------------------------------------------------------

/// The relational store: users, posts and comments, held in insertion
/// order, with ids assigned serially from 1.
pub struct Store {
    users: Vec<User>,
    posts: Vec<Post>,
    comments: Vec<Comment>,
}

impl View for Store {
    type V = StoreView;

    closed spec fn view(&self) -> StoreView {
        StoreView {
            users: self.users@.map_values(|u: User| u@),
            posts: self.posts@.map_values(|p: Post| p@),
            comments: self.comments@.map_values(|c: Comment| c@),
        }
    }
}

fn clone_user(u: &User) -> (r: User)
    ensures
        r@ == u@,
{
    User {
        id: u.id,
        username: u.username.clone(),
        email: u.email.clone(),
        password: u.password.clone(),
    }
}

fn clone_post(p: &Post) -> (r: Post)
    ensures
        r@ == p@,
{
    Post {
        id: p.id,
        title: p.title.clone(),
        link: match &p.link {
            Some(l) => Some(l.clone()),
            None => None,
        },
        author: p.author,
        created_at: p.created_at,
    }
}

fn clone_comment(c: &Comment) -> (r: Comment)
    ensures
        r@ == c@,
{
    Comment {
        id: c.id,
        comment: c.comment.clone(),
        post_id: c.post_id,
        user_id: c.user_id,
        parent_comment_id: c.parent_comment_id,
        created_at: c.created_at,
    }
}

impl Store {
    /// The store's invariant, as a predicate on its view.
    pub open spec fn wf(&self) -> bool {
        store_wf(self@)
    }

    /// An empty store.
    pub fn new() -> (s: Store)
        ensures
            s.wf(),
            s@.users.len() == 0,
            s@.posts.len() == 0,
            s@.comments.len() == 0,
    {
        Store { users: Vec::new(), posts: Vec::new(), comments: Vec::new() }
    }

    /// Inserts a new user row, failing on a duplicate username — the
    /// uniqueness constraint on `users.username` — and leaving the store
    /// unchanged on failure: no partial row is ever left behind.
    pub fn create(&mut self, nu: NewUser) -> (r: Result<i32, ForumError>)
        requires
            old(self).wf(),
        ensures
            final(self).wf(),
            r is Ok <==> signup_ok(old(self)@, nu.username@),
            r matches Ok(id) ==> id == old(self)@.users.len() + 1 && final(self)@ == signup_effect(
                old(self)@,
                nu.username@,
                nu.email@,
                nu.password@,
            ),
            r matches Err(e) ==> final(self)@ == old(self)@ && e == (
            if has_username(old(self)@, nu.username@) {
                ForumError::DuplicateUsername
            } else {
                ForumError::StoreUnavailable
            }),
    {
        let ghost s0 = self@;
        let mut i: usize = 0;
        while i < self.users.len()
            invariant
                self.wf(),
                self@ == s0,
                0 <= i <= self.users.len(),
                forall|j: int| 0 <= j < i ==> (#[trigger] s0.users[j]).username != nu.username@,
            decreases self.users@.len() - i,
        {
            if self.users[i].username == nu.username {
                assert(s0.users[i as int].username == nu.username@);
                return Err(ForumError::DuplicateUsername);
            }
            i = i + 1;
        }
        assert(!has_username(s0, nu.username@));
        if self.users.len() >= 0x7fff_ffff {
            return Err(ForumError::StoreUnavailable);
        }
        let id: i32 = (self.users.len() + 1) as i32;
        self.users.push(User { id, username: nu.username, email: nu.email, password: nu.password });
        proof {
            assert(self@.users =~= s0.users.push(
                UserView {
                    id: s0.users.len() as int + 1,
                    username: nu.username@,
                    email: nu.email@,
                    password: nu.password@,
                },
            ));
            assert(self@ =~= signup_effect(s0, nu.username@, nu.email@, nu.password@));
        }
        Ok(id)
    }

    /// Looks up the single user row carrying this username.
    pub fn find_by_username(&self, username: &String) -> (r: Result<&User, ForumError>)
        requires
            self.wf(),
        ensures
            r is Ok <==> has_username(self@, username@),
            r matches Ok(u) ==> u@ == user_by_name(self@, username@) && u@.username == username@,
            r matches Err(e) ==> e == ForumError::NotFound,
    {
        let mut i: usize = 0;
        while i < self.users.len()
            invariant
                self.wf(),
                0 <= i <= self.users.len(),
                forall|j: int| 0 <= j < i ==> (#[trigger] self@.users[j]).username != username@,
            decreases self.users@.len() - i,
        {
            if self.users[i].username == *username {
                proof {
                    lemma_username_unique(self@, i as int);
                }
                return Ok(&self.users[i]);
            }
            i = i + 1;
        }
        Err(ForumError::NotFound)
    }

    /// Looks up a user row by id.
    pub fn user_by_id(&self, id: i32) -> (r: Result<&User, ForumError>)
        requires
            self.wf(),
        ensures
            r is Ok <==> 1 <= id <= self@.users.len(),
            r matches Ok(u) ==> u@ == self@.users[id - 1],
            r matches Err(e) ==> e == ForumError::NotFound,
    {
        if id < 1 {
            return Err(ForumError::NotFound);
        }
        let idx = (id - 1) as usize;
        if idx >= self.users.len() {
            return Err(ForumError::NotFound);
        }
        Ok(&self.users[idx])
    }

    /// Looks up a post row by id.
    pub fn post_by_id(&self, id: i32) -> (r: Result<&Post, ForumError>)
        requires
            self.wf(),
        ensures
            r is Ok <==> 1 <= id <= self@.posts.len(),
            r matches Ok(p) ==> p@ == self@.posts[id - 1],
            r matches Err(e) ==> e == ForumError::NotFound,
    {
        if id < 1 {
            return Err(ForumError::NotFound);
        }
        let idx = (id - 1) as usize;
        if idx >= self.posts.len() {
            return Err(ForumError::NotFound);
        }
        Ok(&self.posts[idx])
    }

    /// Inserts a new post row for an existing author, stamping the next
    /// serial id. The store is unchanged on failure.
    pub fn insert_post(&mut self, np: NewPost) -> (r: Result<i32, ForumError>)
        requires
            old(self).wf(),
        ensures
            final(self).wf(),
            r is Ok <==> 1 <= np.author <= old(self)@.users.len() && old(self)@.posts.len()
                < 0x7fff_ffff,
            r matches Ok(id) ==> id == old(self)@.posts.len() + 1 && final(self)@ == (StoreView {
                posts: old(self)@.posts.push(
                    PostView {
                        id: old(self)@.posts.len() as int + 1,
                        title: np.title@,
                        link: Some(np.link@),
                        author: np.author as int,
                        created_at: np.created_at as int,
                    },
                ),
                ..old(self)@
            }),
            r matches Err(e) ==> final(self)@ == old(self)@ && e == (
            if !(1 <= np.author <= old(self)@.users.len()) {
                ForumError::NotFound
            } else {
                ForumError::StoreUnavailable
            }),
    {
        let ghost s0 = self@;
        if np.author < 1 || (np.author - 1) as usize >= self.users.len() {
            return Err(ForumError::NotFound);
        }
        if self.posts.len() >= 0x7fff_ffff {
            return Err(ForumError::StoreUnavailable);
        }
        let id: i32 = (self.posts.len() + 1) as i32;
        self.posts.push(
            Post {
                id,
                title: np.title,
                link: Some(np.link),
                author: np.author,
                created_at: np.created_at,
            },
        );
        proof {
            assert(self@.posts =~= s0.posts.push(
                PostView {
                    id: s0.posts.len() as int + 1,
                    title: np.title@,
                    link: Some(np.link@),
                    author: np.author as int,
                    created_at: np.created_at as int,
                },
            ));
            assert(self@ =~= StoreView { posts: self@.posts, ..s0 });
        }
        Ok(id)
    }

    /// Inserts a new comment row: the post must exist, the user must exist,
    /// and the parent, when given, must be an existing comment on the same
    /// post — the threading invariant. The store is unchanged on failure.
    pub fn insert_comment(&mut self, nc: NewComment) -> (r: Result<i32, ForumError>)
        requires
            old(self).wf(),
        ensures
            final(self).wf(),
            r is Ok <==> comment_allowed(
                old(self)@,
                nc.post_id as int,
                nc.user_id as int,
                opt_view(nc.parent_comment_id),
            ) && old(self)@.comments.len() < 0x7fff_ffff,
            r matches Ok(id) ==> id == old(self)@.comments.len() + 1 && final(self)@ == (StoreView {
                comments: old(self)@.comments.push(
                    CommentView {
                        id: old(self)@.comments.len() as int + 1,
                        comment: nc.comment@,
                        post_id: nc.post_id as int,
                        user_id: nc.user_id as int,
                        parent_comment_id: opt_view(nc.parent_comment_id),
                        created_at: nc.created_at as int,
                    },
                ),
                ..old(self)@
            }),
            r matches Err(e) ==> final(self)@ == old(self)@ && e == comment_error(
                old(self)@,
                nc.post_id as int,
                nc.user_id as int,
                opt_view(nc.parent_comment_id),
            ),
    {
        let ghost s0 = self@;
        if nc.post_id < 1 || (nc.post_id - 1) as usize >= self.posts.len() {
            return Err(ForumError::NotFound);
        }
        if nc.user_id < 1 || (nc.user_id - 1) as usize >= self.users.len() {
            return Err(ForumError::NotFound);
        }
        match nc.parent_comment_id {
            Some(p) => {
                if p < 1 || (p - 1) as usize >= self.comments.len() {
                    return Err(ForumError::InvalidParent);
                }
                if self.comments[(p - 1) as usize].post_id != nc.post_id {
                    return Err(ForumError::InvalidParent);
                }
            },
            None => {},
        }
        if self.comments.len() >= 0x7fff_ffff {
            return Err(ForumError::StoreUnavailable);
        }
        let id: i32 = (self.comments.len() + 1) as i32;
        self.comments.push(
            Comment {
                id,
                comment: nc.comment,
                post_id: nc.post_id,
                user_id: nc.user_id,
                parent_comment_id: nc.parent_comment_id,
                created_at: nc.created_at,
            },
        );
        proof {
            assert(self@.comments =~= s0.comments.push(
                CommentView {
                    id: s0.comments.len() as int + 1,
                    comment: nc.comment@,
                    post_id: nc.post_id as int,
                    user_id: nc.user_id as int,
                    parent_comment_id: opt_view(nc.parent_comment_id),
                    created_at: nc.created_at as int,
                },
            ));
            assert(self@ =~= StoreView { comments: self@.comments, ..s0 });
        }
        Ok(id)
    }

    /// The landing-page listing: every post, in insertion order, paired
    /// with its author.
    pub fn list_posts(&self) -> (r: Vec<(Post, User)>)
        requires
            self.wf(),
        ensures
            r@.len() == self@.posts.len(),
            forall|i: int|
                0 <= i < r@.len() ==> (#[trigger] r@[i]).0@ == self@.posts[i] && r@[i].1@
                    == self@.users[self@.posts[i].author - 1],
    {
        let mut r: Vec<(Post, User)> = Vec::new();
        let mut i: usize = 0;
        while i < self.posts.len()
            invariant
                self.wf(),
                0 <= i <= self.posts.len(),
                r@.len() == i,
                forall|j: int|
                    0 <= j < i ==> (#[trigger] r@[j]).0@ == self@.posts[j] && r@[j].1@
                        == self@.users[self@.posts[j].author - 1],
            decreases self.posts@.len() - i,
        {
            let p = &self.posts[i];
            proof {
                assert(p@ == self@.posts[i as int]);
            }
            let author_idx = (p.author - 1) as usize;
            let pair = (clone_post(p), clone_user(&self.users[author_idx]));
            r.push(pair);
            i = i + 1;
        }
        r
    }
}

// ---------------------------------------------------------------------------
// The comment forest.
// ---------------------------------------------------------------------------

/// One tree of the comment forest: a comment, its author, and the subtrees
/// of its replies, in insertion order.
#[derive(Debug)]
pub struct CommentNode {
    pub comment: Comment,
    pub author: User,
    pub replies: Vec<CommentNode>,
}

/// Everything the post page shows: the post, its author, and the comment
/// forest.
#[derive(Debug)]
pub struct PostPage {
    pub post: Post,
    pub author: User,
    pub comments: Vec<CommentNode>,
}

/// The comments in `cs` on a given post with a given parent, in insertion
/// order.
pub open spec fn filtered_comments(
    cs: Seq<CommentView>,
    post_id: int,
    parent: Option<int>,
) -> Seq<CommentView> {
    cs.filter(|c: CommentView| c.post_id == post_id && c.parent_comment_id == parent)
}

/// How one appended comment changes a sibling group.
proof fn lemma_filtered_comments_push(
    cs: Seq<CommentView>,
    c: CommentView,
    post_id: int,
    parent: Option<int>,
)
    ensures
        filtered_comments(cs.push(c), post_id, parent) == (
        if c.post_id == post_id && c.parent_comment_id == parent {
            filtered_comments(cs, post_id, parent).push(c)
        } else {
            filtered_comments(cs, post_id, parent)
        }),
{
    reveal(Seq::filter);
    assert(cs.push(c).drop_last() =~= cs);
    assert(cs.push(c).last() == c);
}

/// The comments of a post with a given parent, in insertion order — the
/// sibling groups of the forest.
pub open spec fn comments_with_parent(
    s: StoreView,
    post_id: int,
    parent: Option<int>,
) -> Seq<CommentView> {
    filtered_comments(s.comments, post_id, parent)
}

/// A faithful subtree of the comment forest: the node carries a comment of
/// the post and that comment's author, and its replies are exactly the
/// comments whose parent this comment is, in insertion order, each again a
/// faithful subtree. Replies always have larger ids than their parent,
/// which bounds the recursion.
pub open spec fn node_ok(s: StoreView, post_id: int, n: CommentNode) -> bool
    decreases s.comments.len() - n.comment@.id,
    when 1 <= n.comment@.id <= s.comments.len()
{
    &&& 1 <= n.comment@.id <= s.comments.len()
    &&& n.comment@ == s.comments[n.comment@.id - 1]
    &&& n.comment@.post_id == post_id
    &&& 1 <= n.comment@.user_id <= s.users.len()
    &&& n.author@ == s.users[n.comment@.user_id - 1]
    &&& n.replies@.map_values(|r: CommentNode| r.comment@) == comments_with_parent(
        s,
        post_id,
        Some(n.comment@.id),
    )
    &&& forall|i: int|
        0 <= i < n.replies@.len() ==> {
            let ch = #[trigger] n.replies@[i];
            n.comment@.id < ch.comment@.id <= s.comments.len() && node_ok(s, post_id, ch)
        }
}

/// A faithful comment forest for a post: the roots are exactly the post's
/// top-level comments, in insertion order, each a faithful subtree.
pub open spec fn forest_ok(s: StoreView, post_id: int, nodes: Seq<CommentNode>) -> bool {
    &&& nodes.map_values(|n: CommentNode| n.comment@) == comments_with_parent(s, post_id, None)
    &&& forall|i: int|
        0 <= i < nodes.len() ==> {
            let n = #[trigger] nodes[i];
            1 <= n.comment@.id <= s.comments.len() && node_ok(s, post_id, n)
        }
}

impl Store {
    /// The subtrees of the replies to comment `parent` of post `post_id`.
    fn build_replies(&self, post_id: i32, parent: i32) -> (r: Vec<CommentNode>)
        requires
            self.wf(),
            1 <= post_id <= self@.posts.len(),
            1 <= parent <= self@.comments.len(),
        ensures
            r@.map_values(|n: CommentNode| n.comment@) == comments_with_parent(
                self@,
                post_id as int,
                Some(parent as int),
            ),
            forall|k: int|
                0 <= k < r@.len() ==> {
                    let n = #[trigger] r@[k];
                    parent < n.comment@.id <= self@.comments.len() && node_ok(
                        self@,
                        post_id as int,
                        n,
                    )
                },
        decreases self@.comments.len() - parent,
    {
        let mut r: Vec<CommentNode> = Vec::new();
        let mut i: usize = 0;
        while i < self.comments.len()
            invariant
                self.wf(),
                1 <= post_id <= self@.posts.len(),
                1 <= parent <= self@.comments.len(),
                0 <= i <= self@.comments.len(),
                r@.map_values(|n: CommentNode| n.comment@) == filtered_comments(
                    self@.comments.take(i as int),
                    post_id as int,
                    Some(parent as int),
                ),
                forall|k: int|
                    0 <= k < r@.len() ==> {
                        let n = #[trigger] r@[k];
                        parent < n.comment@.id <= self@.comments.len() && node_ok(
                            self@,
                            post_id as int,
                            n,
                        )
                    },
            decreases self@.comments.len() - i,
        {
            let ghost prefix = self@.comments.take(i as int);
            let c = &self.comments[i];
            proof {
                assert(c@ == self@.comments[i as int]);
                assert(self@.comments.take(i + 1) =~= prefix.push(c@));
                lemma_filtered_comments_push(prefix, c@, post_id as int, Some(parent as int));
            }
            let is_child = c.post_id == post_id && (match c.parent_comment_id {
                Some(p) => p == parent,
                None => false,
            });
            if is_child {
                let replies = self.build_replies(post_id, c.id);
                let author_idx = (c.user_id - 1) as usize;
                let node = CommentNode {
                    comment: clone_comment(c),
                    author: clone_user(&self.users[author_idx]),
                    replies,
                };
                proof {
                    assert(node_ok(self@, post_id as int, node));
                }
                r.push(node);
                proof {
                    assert(r@.map_values(|n: CommentNode| n.comment@) =~= filtered_comments(
                        self@.comments.take(i + 1),
                        post_id as int,
                        Some(parent as int),
                    ));
                }
            } else {
                proof {
                    assert(r@.map_values(|n: CommentNode| n.comment@) =~= filtered_comments(
                        self@.comments.take(i + 1),
                        post_id as int,
                        Some(parent as int),
                    ));
                }
            }
            i = i + 1;
        }
        proof {
            assert(self@.comments.take(self@.comments.len() as int) =~= self@.comments);
        }
        r
    }

    /// The comment forest of a post: its top-level comments, each with its
    /// nested replies.
    fn build_forest(&self, post_id: i32) -> (r: Vec<CommentNode>)
        requires
            self.wf(),
            1 <= post_id <= self@.posts.len(),
        ensures
            forest_ok(self@, post_id as int, r@),
    {
        let mut r: Vec<CommentNode> = Vec::new();
        let mut i: usize = 0;
        while i < self.comments.len()
            invariant
                self.wf(),
                1 <= post_id <= self@.posts.len(),
                0 <= i <= self@.comments.len(),
                r@.map_values(|n: CommentNode| n.comment@) == filtered_comments(
                    self@.comments.take(i as int),
                    post_id as int,
                    None,
                ),
                forall|k: int|
                    0 <= k < r@.len() ==> {
                        let n = #[trigger] r@[k];
                        1 <= n.comment@.id <= self@.comments.len() && node_ok(
                            self@,
                            post_id as int,
                            n,
                        )
                    },
            decreases self@.comments.len() - i,
        {
            let ghost prefix = self@.comments.take(i as int);
            let c = &self.comments[i];
            proof {
                assert(c@ == self@.comments[i as int]);
                assert(self@.comments.take(i + 1) =~= prefix.push(c@));
                lemma_filtered_comments_push(prefix, c@, post_id as int, None);
            }
            let is_top = c.post_id == post_id && (match c.parent_comment_id {
                Some(_) => false,
                None => true,
            });
            if is_top {
                let replies = self.build_replies(post_id, c.id);
                let author_idx = (c.user_id - 1) as usize;
                let node = CommentNode {
                    comment: clone_comment(c),
                    author: clone_user(&self.users[author_idx]),
                    replies,
                };
                proof {
                    assert(node_ok(self@, post_id as int, node));
                }
                r.push(node);
                proof {
                    assert(r@.map_values(|n: CommentNode| n.comment@) =~= filtered_comments(
                        self@.comments.take(i + 1),
                        post_id as int,
                        None,
                    ));
                }
            } else {
                proof {
                    assert(r@.map_values(|n: CommentNode| n.comment@) =~= filtered_comments(
                        self@.comments.take(i + 1),
                        post_id as int,
                        None,
                    ));
                }
            }
            i = i + 1;
        }
        proof {
            assert(self@.comments.take(self@.comments.len() as int) =~= self@.comments);
        }
        r
    }

    /// The post page: the post, its author, and the comment forest — the
    /// roots are exactly the post's top-level comments in insertion order,
    /// and every node's replies are exactly the comments whose parent it
    /// is, again in insertion order.
    pub fn get_post_with_comments(&self, post_id: i32) -> (r: Result<PostPage, ForumError>)
        requires
            self.wf(),
        ensures
            r is Ok <==> 1 <= post_id <= self@.posts.len(),
            r matches Ok(page) ==> page.post@ == self@.posts[post_id - 1] && page.author@
                == self@.users[self@.posts[post_id - 1].author - 1] && forest_ok(
                self@,
                post_id as int,
                page.comments@,
            ),
            r matches Err(e) ==> e == ForumError::NotFound,
    {
        if post_id < 1 {
            return Err(ForumError::NotFound);
        }
        let idx = (post_id - 1) as usize;
        if idx >= self.posts.len() {
            return Err(ForumError::NotFound);
        }
        let p = &self.posts[idx];
        proof {
            assert(p@ == self@.posts[idx as int]);
        }
        let author = clone_user(&self.users[(p.author - 1) as usize]);
        let comments = self.build_forest(post_id);
        Ok(PostPage { post: clone_post(p), author, comments })
    }
}

// ---------------------------------------------------------------------------
// Laws of signup.
// ---------------------------------------------------------------------------

/// Law: a fresh signup is found again under its username, and its stored
/// password is exactly the supplied hash.
pub proof fn lemma_signup_effect_found(
    s: StoreView,
    name: Seq<char>,
    email: Seq<char>,
    hash: Seq<char>,
)
    requires
        store_wf(s),
        signup_ok(s, name),
    ensures
        ({
            let s2 = signup_effect(s, name, email, hash);
            &&& store_wf(s2)
            &&& has_username(s2, name)
            &&& user_by_name(s2, name) == s2.users.last()
            &&& user_by_name(s2, name).password == hash
            &&& user_by_name(s2, name).email == email
        }),
{
    let s2 = signup_effect(s, name, email, hash);
    assert(store_wf(s2)) by {
        lemma_signup_preserves_wf(s, name, email, hash);
    }
    let n = s.users.len() as int;
    assert(s2.users[n].username == name);
    lemma_username_unique(s2, n);
}

/// Law: a fresh signup's stored password is never the plaintext password,
/// whenever plaintext and hash differ in length (the stored hash is always
/// 64 characters, so only a 64-character password could even coincide).
pub proof fn lemma_signup_then_find(
    s: StoreView,
    name: Seq<char>,
    email: Seq<char>,
    hash: Seq<char>,
    plaintext: Seq<char>,
)
    requires
        store_wf(s),
        signup_ok(s, name),
        hash.len() != plaintext.len(),
    ensures
        ({
            let s2 = signup_effect(s, name, email, hash);
            &&& store_wf(s2)
            &&& has_username(s2, name)
            &&& user_by_name(s2, name).password == hash
            &&& user_by_name(s2, name).password != plaintext
        }),
{
    lemma_signup_effect_found(s, name, email, hash);
}

/// Effect of a successful signup on the invariant.
proof fn lemma_signup_preserves_wf(s: StoreView, name: Seq<char>, email: Seq<char>, hash: Seq<char>)
    requires
        store_wf(s),
        signup_ok(s, name),
    ensures
        store_wf(signup_effect(s, name, email, hash)),
{
    let s2 = signup_effect(s, name, email, hash);
    assert forall|i: int, j: int| 0 <= i < j < s2.users.len() implies s2.users[i].username
        != s2.users[j].username by {
        if j < s.users.len() {
        } else {
            assert(s2.users[j].username == name);
            assert(!has_username(s, name));
            assert(s.users[i].username != name);
        }
    }
}

/// Filtering an id-ascending comment sequence keeps ids ascending, and no
/// kept id exceeds the last id of the source.
proof fn lemma_filtered_keeps_order(cs: Seq<CommentView>, post_id: int, parent: Option<int>)
    requires
        forall|i: int, j: int|
            #![trigger cs[i], cs[j]]
            0 <= i < j < cs.len() ==> cs[i].id < cs[j].id,
    ensures
        ({
            let f = filtered_comments(cs, post_id, parent);
            &&& forall|i: int, j: int|
                #![trigger f[i], f[j]]
                0 <= i < j < f.len() ==> f[i].id < f[j].id
            &&& cs.len() > 0 ==> forall|k: int| 0 <= k < f.len() ==> (#[trigger] f[k]).id
                <= cs.last().id
        }),
    decreases cs.len(),
{
    reveal(Seq::filter);
    if cs.len() > 0 {
        let pre = cs.drop_last();
        assert(forall|i: int, j: int|
            #![trigger pre[i], pre[j]]
            0 <= i < j < pre.len() ==> pre[i].id < pre[j].id);
        lemma_filtered_keeps_order(pre, post_id, parent);
        let fp = filtered_comments(pre, post_id, parent);
        let f = filtered_comments(cs, post_id, parent);
        if pre.len() > 0 {
            assert(pre.last().id < cs.last().id);
        } else {
            assert(fp.len() == 0);
        }
        assert(forall|k: int| 0 <= k < fp.len() ==> (#[trigger] fp[k]).id < cs.last().id);
    }
}

/// Law: every sibling group of the comment forest lists its comments in
/// creation order — in a well-formed store ids ascend with insertion, and
/// filtering preserves that order.
pub proof fn lemma_sibling_groups_in_creation_order(s: StoreView, post_id: int, parent: Option<
    int,
>)
    requires
        store_wf(s),
    ensures
        forall|i: int, j: int|
            #![trigger comments_with_parent(s, post_id, parent)[i], comments_with_parent(s, post_id, parent)[j]]
            0 <= i < j < comments_with_parent(s, post_id, parent).len() ==> comments_with_parent(
                s,
                post_id,
                parent,
            )[i].id < comments_with_parent(s, post_id, parent)[j].id,
{
    lemma_filtered_keeps_order(s.comments, post_id, parent);
}

/// Law: a comment whose parent is a comment on a different post is
/// refused, and refused with `InvalidParent`.
pub proof fn lemma_cross_post_parent_refused(s: StoreView, post_id: int, user_id: int, parent: int)
    requires
        store_wf(s),
        1 <= post_id <= s.posts.len(),
        1 <= user_id <= s.users.len(),
        1 <= parent <= s.comments.len(),
        s.comments[parent - 1].post_id != post_id,
    ensures
        !comment_allowed(s, post_id, user_id, Some(parent)),
        comment_error(s, post_id, user_id, Some(parent)) == ForumError::InvalidParent,
{
}

/// Law: signing up twice with the same username fails the second time —
/// after one successful signup the username is taken, so a second signup
/// with it is refused as `DuplicateUsername`.
pub proof fn lemma_duplicate_signup_refused(
    s: StoreView,
    name: Seq<char>,
    email: Seq<char>,
    hash: Seq<char>,
)
    requires
        store_wf(s),
        signup_ok(s, name),
    ensures
        !signup_ok(signup_effect(s, name, email, hash), name),
        has_username(signup_effect(s, name, email, hash), name),
{
    let s2 = signup_effect(s, name, email, hash);
    let n = s.users.len() as int;
    assert(s2.users[n].username == name);
}

} // verus!
