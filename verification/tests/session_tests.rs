use oasis_forum::session::{begin, end, resolve, SecretKey, SessionState};

fn signing_key() -> SecretKey {
    SecretKey::new(b"a-signing-key-of-32-bytes-long!!".to_vec()).unwrap()
}

fn other_key() -> SecretKey {
    SecretKey::new(b"another-signing-key-07-xyz-12345".to_vec()).unwrap()
}

#[test]
fn secret_key_rejects_missing_or_degenerate_secrets() {
    assert!(SecretKey::new(Vec::new()).is_err());
    assert!(SecretKey::new(b"short".to_vec()).is_err());
    assert!(SecretKey::new(vec![0u8; 32]).is_err());
    assert!(SecretKey::new(vec![0u8; 100_000]).is_err());
    assert!(SecretKey::new(b"a-signing-key-of-32-bytes-long!!".to_vec()).is_ok());
}

#[test]
fn begin_then_resolve_authenticates_the_same_user() {
    let key = signing_key();
    let cookie = begin(42, &key);
    assert_eq!(resolve(Some(&cookie), &key), SessionState::Authenticated(42));
}

#[test]
fn flipping_any_byte_resolves_anonymous() {
    let key = signing_key();
    let cookie = begin(42, &key);
    for i in 0..cookie.len() {
        let mut tampered = cookie.clone();
        tampered[i] ^= 0x01;
        assert_eq!(resolve(Some(&tampered), &key), SessionState::Anonymous);
    }
}

#[test]
fn cookie_under_other_secret_resolves_anonymous() {
    let issue = signing_key();
    let check = other_key();
    let cookie = begin(42, &issue);
    assert_eq!(resolve(Some(&cookie), &check), SessionState::Anonymous);
}

#[test]
fn splicing_an_id_into_anothers_cookie_fails() {
    let key = signing_key();
    let c1 = begin(1, &key);
    let c2 = begin(2, &key);
    // The tag binds the id: one user's id bytes with another user's tag
    // must not authenticate.
    let mut forged: Vec<u8> = c2[..4].to_vec();
    forged.extend_from_slice(&c1[4..]);
    assert_eq!(resolve(Some(&forged), &key), SessionState::Anonymous);
    assert_ne!(c1[4..], c2[4..]);
}

#[test]
fn malformed_cookies_resolve_anonymous() {
    let key = signing_key();
    assert_eq!(resolve(None, &key), SessionState::Anonymous);
    assert_eq!(resolve(Some(&Vec::new()), &key), SessionState::Anonymous);
    assert_eq!(resolve(Some(&vec![1u8, 2, 3]), &key), SessionState::Anonymous);
    assert_eq!(resolve(Some(&vec![0u8; 12]), &key), SessionState::Anonymous);
    assert_eq!(resolve(Some(&vec![7u8; 64]), &key), SessionState::Anonymous);
}

#[test]
fn end_then_resolve_yields_anonymous() {
    let key = signing_key();
    let cookie = begin(9, &key);
    let mut jar = Some(cookie);
    end(&mut jar);
    assert!(jar.is_none());
    assert_eq!(resolve(jar.as_ref(), &key), SessionState::Anonymous);
}

#[test]
fn is_authenticated_reports_the_state() {
    assert!(SessionState::Authenticated(1).is_authenticated());
    assert!(!SessionState::Anonymous.is_authenticated());
}
