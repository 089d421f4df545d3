use oasis_forum::auth::require_login;
use oasis_forum::errors::ForumError;
use oasis_forum::models::{NewComment, NewPost, NewUser};
use oasis_forum::session::{SecretKey, SessionState};
use oasis_forum::store::Store;

fn hash_key() -> SecretKey {
    SecretKey::new(b"the-server-hashing-secret-0123!!".to_vec()).unwrap()
}

#[test]
fn new_comment_carries_its_fields() {
    let nc = NewComment::new("hello".to_string(), 3, 7, Some(2));
    assert_eq!(nc.comment, "hello");
    assert_eq!(nc.post_id, 3);
    assert_eq!(nc.user_id, 7);
    assert_eq!(nc.parent_comment_id, Some(2));

    let top = NewComment::new("top".to_string(), 1, 1, None);
    assert_eq!(top.parent_comment_id, None);
}

#[test]
fn new_post_carries_its_fields() {
    let np = NewPost::from_post_form("Title".to_string(), "http://x".to_string(), 9);
    assert_eq!(np.title, "Title");
    assert_eq!(np.link, "http://x");
    assert_eq!(np.author, 9);
}

#[test]
fn new_user_hashes_the_password() {
    let key = hash_key();
    let nu = NewUser::new(
        "alice".to_string(),
        "a@x.com".to_string(),
        "pw123456".to_string(),
        &key,
    )
    .unwrap();
    assert_eq!(nu.username, "alice");
    assert_eq!(nu.email, "a@x.com");
    assert_ne!(nu.password, "pw123456");
    assert_eq!(nu.password.len(), 64);
    assert!(nu.password.chars().all(|c| c.is_ascii_hexdigit()));

    // Hashing is deterministic under one secret: the same pair reproduces
    // the same stored hash.
    let again = NewUser::new(
        "alice2".to_string(),
        "a2@x.com".to_string(),
        "pw123456".to_string(),
        &key,
    )
    .unwrap();
    assert_eq!(nu.password, again.password);
}

#[test]
fn the_guard_admits_only_live_sessions() {
    let key = hash_key();
    let mut store = Store::new();
    let nu = NewUser::new(
        "alice".to_string(),
        "a@x.com".to_string(),
        "pw123456".to_string(),
        &key,
    )
    .unwrap();
    let uid = store.create(nu).unwrap();

    let ok = require_login(&SessionState::Authenticated(uid), &store).unwrap();
    assert_eq!(ok.id, uid);
    assert_eq!(ok.username, "alice");

    let anon = require_login(&SessionState::Anonymous, &store);
    assert_eq!(anon.unwrap_err(), ForumError::Unauthorized);

    // A session naming a user that never existed is stale, not a lookup
    // failure.
    let stale = require_login(&SessionState::Authenticated(40), &store);
    assert_eq!(stale.unwrap_err(), ForumError::Unauthorized);
}

#[test]
fn user_rows_are_numbered_serially() {
    let key = hash_key();
    let mut store = Store::new();
    for (i, name) in ["a", "b", "c"].iter().enumerate() {
        let nu = NewUser::new(
            name.to_string(),
            format!("{}@x.com", name),
            "pw123456".to_string(),
            &key,
        )
        .unwrap();
        let id = store.create(nu).unwrap();
        assert_eq!(id as usize, i + 1);
    }
    let b = store.find_by_username(&"b".to_string()).unwrap();
    assert_eq!(b.id, 2);
    assert_eq!(store.user_by_id(2).unwrap().username, "b");
    assert_eq!(store.user_by_id(4).unwrap_err(), ForumError::NotFound);
}
