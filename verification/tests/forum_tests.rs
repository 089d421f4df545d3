use oasis_forum::errors::ForumError;
use oasis_forum::forum::{comment, process_login, process_signup, process_submission};
use oasis_forum::password;
use oasis_forum::session::{resolve, SecretKey, SessionState};
use oasis_forum::store::Store;

fn hash_key() -> SecretKey {
    SecretKey::new(b"the-server-hashing-secret-0123!!".to_vec()).unwrap()
}

fn signing_key() -> SecretKey {
    SecretKey::new(b"a-signing-key-of-32-bytes-long!!".to_vec()).unwrap()
}

fn signup(store: &mut Store, username: &str, email: &str, pw: &str, key: &SecretKey) -> i32 {
    process_signup(store, username.to_string(), email.to_string(), pw.to_string(), key).unwrap()
}

#[test]
fn signup_then_find_stores_a_hash_that_verifies() {
    let key = hash_key();
    let mut store = Store::new();
    let id = signup(&mut store, "alice", "a@x.com", "pw123456", &key);
    assert_eq!(id, 1);

    let user = store.find_by_username(&"alice".to_string()).unwrap();
    assert_eq!(user.username, "alice");
    assert_eq!(user.email, "a@x.com");
    assert_ne!(user.password, "pw123456");
    assert_eq!(user.password.len(), 64);
    assert!(user.password.chars().all(|c| c.is_ascii_hexdigit()));

    let stored = user.password.clone();
    assert!(password::verify(&"pw123456".to_string(), &stored, &key).unwrap());
    assert!(!password::verify(&"pw123457".to_string(), &stored, &key).unwrap());
    assert!(!password::verify(&"".to_string(), &stored, &key).unwrap());
}

#[test]
fn hashing_is_keyed_by_the_secret() {
    let key = hash_key();
    let other = signing_key();
    let stored = password::hash(&"pw123456".to_string(), &key).unwrap();
    assert!(password::verify(&"pw123456".to_string(), &stored, &key).unwrap());
    assert!(!password::verify(&"pw123456".to_string(), &stored, &other).unwrap());
}

#[test]
fn duplicate_signup_fails_and_leaves_no_partial_row() {
    let key = hash_key();
    let mut store = Store::new();
    signup(&mut store, "alice", "a@x.com", "pw123456", &key);
    let second = process_signup(
        &mut store,
        "alice".to_string(),
        "other@x.com".to_string(),
        "different-pw".to_string(),
        &key,
    );
    assert_eq!(second.unwrap_err(), ForumError::DuplicateUsername);

    // The original row is intact and no second row was added.
    let user = store.find_by_username(&"alice".to_string()).unwrap();
    assert_eq!(user.id, 1);
    assert_eq!(user.email, "a@x.com");
    let next = signup(&mut store, "bob", "b@x.com", "pw123456", &key);
    assert_eq!(next, 2);
}

#[test]
fn find_by_username_reports_unknown_users() {
    let store = Store::new();
    assert_eq!(
        store.find_by_username(&"nobody".to_string()).unwrap_err(),
        ForumError::NotFound
    );
}

#[test]
fn login_issues_a_cookie_that_resolves_to_the_user() {
    let key = hash_key();
    let signing = signing_key();
    let mut store = Store::new();
    let id = signup(&mut store, "alice", "a@x.com", "pw123456", &key);

    let cookie = process_login(
        &store,
        &"alice".to_string(),
        &"pw123456".to_string(),
        &key,
        &signing,
    )
    .unwrap();
    assert_eq!(resolve(Some(&cookie), &signing), SessionState::Authenticated(id));
}

#[test]
fn login_refuses_wrong_password_and_unknown_user_alike() {
    let key = hash_key();
    let signing = signing_key();
    let mut store = Store::new();
    signup(&mut store, "alice", "a@x.com", "pw123456", &key);

    let wrong_pw = process_login(
        &store,
        &"alice".to_string(),
        &"wrong-password".to_string(),
        &key,
        &signing,
    );
    assert_eq!(wrong_pw.unwrap_err(), ForumError::Unauthorized);

    let unknown = process_login(
        &store,
        &"mallory".to_string(),
        &"pw123456".to_string(),
        &key,
        &signing,
    );
    assert_eq!(unknown.unwrap_err(), ForumError::Unauthorized);
}

#[test]
fn anonymous_submission_is_refused_and_writes_nothing() {
    let mut store = Store::new();
    let state = SessionState::Anonymous;
    let r = process_submission(
        &mut store,
        &state,
        "Hello".to_string(),
        "http://x".to_string(),
    );
    assert_eq!(r.unwrap_err(), ForumError::Unauthorized);
    assert_eq!(store.list_posts().len(), 0);
}

#[test]
fn anonymous_comment_is_refused_and_writes_nothing() {
    let key = hash_key();
    let mut store = Store::new();
    let uid = signup(&mut store, "alice", "a@x.com", "pw123456", &key);
    let author = SessionState::Authenticated(uid);
    let post_id =
        process_submission(&mut store, &author, "Hello".to_string(), "http://x".to_string())
            .unwrap();

    let state = SessionState::Anonymous;
    let r = comment(&mut store, &state, post_id, "nice".to_string(), None);
    assert_eq!(r.unwrap_err(), ForumError::Unauthorized);
    let page = store.get_post_with_comments(post_id).unwrap();
    assert_eq!(page.comments.len(), 0);
}

#[test]
fn stale_session_is_refused_as_unauthorized() {
    let mut store = Store::new();
    let state = SessionState::Authenticated(77);
    let r = process_submission(
        &mut store,
        &state,
        "Hello".to_string(),
        "http://x".to_string(),
    );
    assert_eq!(r.unwrap_err(), ForumError::Unauthorized);
}

#[test]
fn comment_on_missing_post_is_not_found() {
    let key = hash_key();
    let mut store = Store::new();
    let uid = signup(&mut store, "alice", "a@x.com", "pw123456", &key);
    let state = SessionState::Authenticated(uid);
    let r = comment(&mut store, &state, 5, "hello?".to_string(), None);
    assert_eq!(r.unwrap_err(), ForumError::NotFound);
}

#[test]
fn parent_comment_on_another_post_is_invalid() {
    let key = hash_key();
    let mut store = Store::new();
    let uid = signup(&mut store, "alice", "a@x.com", "pw123456", &key);
    let state = SessionState::Authenticated(uid);
    let first =
        process_submission(&mut store, &state, "First".to_string(), "http://a".to_string())
            .unwrap();
    let second =
        process_submission(&mut store, &state, "Second".to_string(), "http://b".to_string())
            .unwrap();
    let on_first = comment(&mut store, &state, first, "root".to_string(), None).unwrap();

    // A reply on the second post naming a comment of the first post.
    let r = comment(&mut store, &state, second, "reply".to_string(), Some(on_first));
    assert_eq!(r.unwrap_err(), ForumError::InvalidParent);

    // A parent that does not exist at all is refused the same way.
    let r2 = comment(&mut store, &state, second, "reply".to_string(), Some(99));
    assert_eq!(r2.unwrap_err(), ForumError::InvalidParent);
}

#[test]
fn comment_forest_nests_replies_in_insertion_order() {
    let key = hash_key();
    let mut store = Store::new();
    let uid = signup(&mut store, "alice", "a@x.com", "pw123456", &key);
    let state = SessionState::Authenticated(uid);
    let post_id =
        process_submission(&mut store, &state, "Hello".to_string(), "http://x".to_string())
            .unwrap();

    let a = comment(&mut store, &state, post_id, "A".to_string(), None).unwrap();
    let b = comment(&mut store, &state, post_id, "B".to_string(), Some(a)).unwrap();
    let c = comment(&mut store, &state, post_id, "C".to_string(), None).unwrap();

    let page = store.get_post_with_comments(post_id).unwrap();
    assert_eq!(page.post.title, "Hello");
    assert_eq!(page.author.username, "alice");

    // Top level holds A then C; B sits under A.
    assert_eq!(page.comments.len(), 2);
    assert_eq!(page.comments[0].comment.id, a);
    assert_eq!(page.comments[0].comment.comment, "A");
    assert_eq!(page.comments[1].comment.id, c);
    assert_eq!(page.comments[1].comment.comment, "C");
    assert_eq!(page.comments[0].replies.len(), 1);
    assert_eq!(page.comments[0].replies[0].comment.id, b);
    assert_eq!(page.comments[0].replies[0].comment.comment, "B");
    assert_eq!(page.comments[0].replies[0].comment.parent_comment_id, Some(a));
    assert_eq!(page.comments[0].replies[0].replies.len(), 0);
    assert_eq!(page.comments[1].replies.len(), 0);
}

#[test]
fn deep_reply_chains_nest() {
    let key = hash_key();
    let mut store = Store::new();
    let uid = signup(&mut store, "alice", "a@x.com", "pw123456", &key);
    let state = SessionState::Authenticated(uid);
    let post_id =
        process_submission(&mut store, &state, "Deep".to_string(), "http://x".to_string())
            .unwrap();

    let mut parent = None;
    for depth in 0..5 {
        let id = comment(&mut store, &state, post_id, format!("level {}", depth), parent).unwrap();
        parent = Some(id);
    }
    let page = store.get_post_with_comments(post_id).unwrap();
    assert_eq!(page.comments.len(), 1);
    let mut node = &page.comments[0];
    for depth in 0..5 {
        assert_eq!(node.comment.comment, format!("level {}", depth));
        if depth < 4 {
            assert_eq!(node.replies.len(), 1);
            node = &node.replies[0];
        } else {
            assert_eq!(node.replies.len(), 0);
        }
    }
}

#[test]
fn missing_post_page_is_not_found() {
    let store = Store::new();
    assert_eq!(store.get_post_with_comments(1).unwrap_err(), ForumError::NotFound);
    assert_eq!(store.get_post_with_comments(0).unwrap_err(), ForumError::NotFound);
    assert_eq!(store.get_post_with_comments(-3).unwrap_err(), ForumError::NotFound);
}

#[test]
fn end_to_end_signup_login_post_comment() {
    let key = hash_key();
    let signing = signing_key();
    let mut store = Store::new();

    signup(&mut store, "alice", "a@x.com", "pw123456", &key);

    let cookie = process_login(
        &store,
        &"alice".to_string(),
        &"pw123456".to_string(),
        &key,
        &signing,
    )
    .unwrap();
    let state = resolve(Some(&cookie), &signing);
    assert!(state.is_authenticated());

    let post_id =
        process_submission(&mut store, &state, "Hello".to_string(), "http://x".to_string())
            .unwrap();
    let listing = store.list_posts();
    assert_eq!(listing.len(), 1);
    assert_eq!(listing[0].0.id, post_id);
    assert_eq!(listing[0].0.title, "Hello");
    assert_eq!(listing[0].0.link.as_deref(), Some("http://x"));
    assert_eq!(listing[0].1.username, "alice");

    let comment_id = comment(&mut store, &state, post_id, "nice".to_string(), None).unwrap();
    let page = store.get_post_with_comments(post_id).unwrap();
    assert_eq!(page.comments.len(), 1);
    assert_eq!(page.comments[0].comment.id, comment_id);
    assert_eq!(page.comments[0].comment.comment, "nice");
    assert_eq!(page.comments[0].comment.parent_comment_id, None);
    assert_eq!(page.comments[0].author.username, "alice");
}

#[test]
fn list_posts_pairs_each_post_with_its_author() {
    let key = hash_key();
    let mut store = Store::new();
    let alice = signup(&mut store, "alice", "a@x.com", "pw123456", &key);
    let bob = signup(&mut store, "bob", "b@x.com", "hunter222", &key);
    let s_alice = SessionState::Authenticated(alice);
    let s_bob = SessionState::Authenticated(bob);
    process_submission(&mut store, &s_alice, "One".to_string(), "http://1".to_string()).unwrap();
    process_submission(&mut store, &s_bob, "Two".to_string(), "http://2".to_string()).unwrap();
    process_submission(&mut store, &s_alice, "Three".to_string(), "http://3".to_string()).unwrap();

    let listing = store.list_posts();
    let titles: Vec<&str> = listing.iter().map(|(p, _)| p.title.as_str()).collect();
    let authors: Vec<&str> = listing.iter().map(|(_, u)| u.username.as_str()).collect();
    assert_eq!(titles, vec!["One", "Two", "Three"]);
    assert_eq!(authors, vec!["alice", "bob", "alice"]);
}
