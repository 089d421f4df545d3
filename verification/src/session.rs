use vstd::prelude::*;

use vstd::bytes::{
    lemma_auto_spec_u32_to_from_le_bytes, spec_u32_from_le_bytes, spec_u32_to_le_bytes,
    u32_from_le_bytes, u32_to_le_bytes,
};
use vstd::slice::slice_subrange;

use crate::errors::ForumError;

verus! {

// ---------------------------------------------------------------------------
// The server secret.
// ---------------------------------------------------------------------------

/// A process-wide secret, fixed at startup. One instance keys the password
/// hasher, another signs session cookies.
pub struct SecretKey {
    bytes: Vec<u8>,
}

/// What startup validation accepts as a server secret: present, at least 16
/// bytes, of sane size, and not a run of zero bytes. A constant all-zero key
/// would let any holder forge any session.
pub open spec fn key_ok(b: Seq<u8>) -> bool {
    &&& 16 <= b.len() <= 1024
    &&& exists|i: int| 0 <= i < b.len() && b[i] != 0
}

impl View for SecretKey {
    type V = Seq<u8>;

    closed spec fn view(&self) -> Seq<u8> {
        self.bytes@
    }
}

impl SecretKey {
    pub open spec fn wf(&self) -> bool {
        key_ok(self@)
    }

    /// Startup validation of the server secret. A missing or degenerate
    /// secret is a broken deployment, surfaced as `HashingFailure` so the
    /// process can refuse to start.
    pub fn new(bytes: Vec<u8>) -> (r: Result<SecretKey, ForumError>)
        ensures
            r is Ok <==> key_ok(bytes@),
            r matches Ok(k) ==> k@ == bytes@ && k.wf(),
            r matches Err(e) ==> e == ForumError::HashingFailure,
    {
        if bytes.len() < 16 || bytes.len() > 1024 {
            return Err(ForumError::HashingFailure);
        }
        let mut i: usize = 0;
        while i < bytes.len()
            invariant
                0 <= i <= bytes@.len(),
                16 <= bytes@.len() <= 1024,
                forall|j: int| 0 <= j < i ==> bytes@[j] == 0,
            decreases bytes@.len() - i,
        {
            if bytes[i] != 0 {
                return Ok(SecretKey { bytes });
            }
            i = i + 1;
        }
        Err(ForumError::HashingFailure)
    }

    /// The raw secret bytes, for handing to the password hasher.
    pub fn as_bytes(&self) -> (b: &Vec<u8>)
        ensures
            b@ == self@,
    {
        &self.bytes
    }
}

// ---------------------------------------------------------------------------
// The signing scheme.
//
// A cookie is `le_bytes(user_id) ++ tag`, where the tag is a wide keyed
// digest of the whole signing secret and the id bytes. Without the secret
// the tag of any id is unpredictable, so holding one valid cookie does not
// let its holder mint a cookie for another id; and the tag makes the cookie
// tamper-evident, which the lemmas below prove.
// ---------------------------------------------------------------------------

/// The tag a cookie for `id` carries under a given signing secret: the
/// Blake2b-512 digest of the secret followed by the id bytes. What these
/// 64 bytes are on given inputs only the hasher knows; contracts use the
/// name alone.
pub uninterp spec fn cookie_tag_of(id: u32, key: Seq<u8>) -> Seq<u8>;

/// Relies on blake2::Blake2b512 (through the digest traits), fed the whole
/// signing secret and then the four little-endian id bytes: the 64-byte
/// digest is a function of the id and the secret alone, and the
/// computation cannot fail.
#[verifier::external_body]
fn cookie_tag(id: u32, key: &Vec<u8>) -> (t: Vec<u8>)
    ensures
        t@ == cookie_tag_of(id, key@),
        t@.len() == 64,
{
    let mut h = <blake2::Blake2b512 as blake2::Digest>::new();
    blake2::Digest::update(&mut h, key.as_slice());
    blake2::Digest::update(&mut h, &id.to_le_bytes());
    blake2::Digest::finalize(h).to_vec()
}

/// Compares two byte strings in time that depends on their lengths alone,
/// never on the position of the first mismatch — a tag check must not leak
/// how much of a guessed tag was right.
fn ct_bytes_eq(a: &[u8], b: &[u8]) -> (r: bool)
    ensures
        r == (a@ == b@),
{
    if a.len() != b.len() {
        return false;
    }
    let mut diff: u8 = 0;
    let mut i: usize = 0;
    while i < a.len()
        invariant
            a@.len() == b@.len(),
            0 <= i <= a@.len(),
            (diff == 0) == (forall|j: int| 0 <= j < i ==> a@[j] == b@[j]),
        decreases a@.len() - i,
    {
        let x = a[i];
        let y = b[i];
        proof {
            assert(((x ^ y) == 0) == (x == y)) by (bit_vector);
            let acc = diff;
            let d = x ^ y;
            assert(((acc | d) == 0) == (acc == 0 && d == 0)) by (bit_vector);
        }
        diff = diff | (x ^ y);
        i = i + 1;
    }
    if diff == 0 {
        proof {
            assert(a@ =~= b@);
        }
        true
    } else {
        proof {
            let j = choose|j: int| 0 <= j < a@.len() && a@[j] != b@[j];
            assert(a@[j] != b@[j]);
        }
        false
    }
}

// ---------------------------------------------------------------------------
// Session state and the three session operations.
// ---------------------------------------------------------------------------

/// What a request's session resolves to: either nobody, or the id of a
/// previously logged-in user.
#[derive(Clone, Copy, Debug, PartialEq, Eq, Structural)]
pub enum SessionState {
    Anonymous,
    Authenticated(i32),
}

impl SessionState {
    /// Whether the session belongs to a logged-in user — what the login
    /// and submission pages consult before rendering privileged content.
    pub fn is_authenticated(&self) -> (b: bool)
        ensures
            b == (self is Authenticated),
    {
        match self {
            SessionState::Authenticated(_) => true,
            SessionState::Anonymous => false,
        }
    }
}

/// The cookie value `begin` issues for `id` under a given signing secret.
pub open spec fn cookie_of(id: u32, key: Seq<u8>) -> Seq<u8> {
    spec_u32_to_le_bytes(id) + cookie_tag_of(id, key)
}

/// What a cookie value resolves to under a given signing secret: the
/// authenticated user id exactly when the cookie carries a positive id
/// followed by that id's tag under the secret; anything else is
/// `Anonymous`.
pub open spec fn resolve_cookie_spec(c: Seq<u8>, key: Seq<u8>) -> SessionState {
    if c.len() >= 4 {
        let id = spec_u32_from_le_bytes(c.subrange(0, 4));
        if 1 <= id <= 0x7fff_ffff && c.len() == 4 + cookie_tag_of(id, key).len() && c.subrange(
            4,
            c.len() as int,
        ) == cookie_tag_of(id, key) {
            SessionState::Authenticated(id as i32)
        } else {
            SessionState::Anonymous
        }
    } else {
        SessionState::Anonymous
    }
}

/// What a request resolves to: a request without a cookie is anonymous.
pub open spec fn resolve_spec(c: Option<Seq<u8>>, key: Seq<u8>) -> SessionState {
    match c {
        Some(c) => resolve_cookie_spec(c, key),
        None => SessionState::Anonymous,
    }
}

/// Issues the session cookie for a freshly authenticated user.
pub fn begin(user_id: i32, key: &SecretKey) -> (c: Vec<u8>)
    requires
        1 <= user_id,
    ensures
        c@ == cookie_of(user_id as u32, key@),
{
    let id: u32 = user_id as u32;
    let mut c = u32_to_le_bytes(id);
    let mut t = cookie_tag(id, &key.bytes);
    c.append(&mut t);
    c
}

/// Verifies a request's cookie. A missing, malformed or mistagged cookie is
/// an anonymous request — never an error: an invalid session is equivalent
/// to no session. The verdict is a pure function of the cookie bytes and
/// the signing secret.
pub fn resolve(cookie: Option<&Vec<u8>>, key: &SecretKey) -> (s: SessionState)
    ensures
        s == resolve_spec(
            match cookie {
                Some(c) => Some(c@),
                None => None,
            },
            key@,
        ),
{
    let c = match cookie {
        Some(c) => c,
        None => { return SessionState::Anonymous },
    };
    if c.len() < 4 {
        return SessionState::Anonymous;
    }
    let id = u32_from_le_bytes(slice_subrange(c.as_slice(), 0, 4));
    if id < 1 || id > 0x7fff_ffff {
        return SessionState::Anonymous;
    }
    let expected = cookie_tag(id, &key.bytes);
    if c.len() != 4 + expected.len() {
        return SessionState::Anonymous;
    }
    let stored = slice_subrange(c.as_slice(), 4, c.len());
    if ct_bytes_eq(stored, expected.as_slice()) {
        SessionState::Authenticated(id as i32)
    } else {
        SessionState::Anonymous
    }
}

/// Logs the session out by clearing the cookie from the response's cookie
/// jar. A subsequent request therefore carries no cookie.
pub fn end(jar: &mut Option<Vec<u8>>)
    ensures
        (*final(jar)) is None,
{
    *jar = None;
}

// ---------------------------------------------------------------------------
// Laws of the session scheme.
// ---------------------------------------------------------------------------

/// Law: a cookie issued by `begin` for a user resolves back to that user
/// under the same signing secret.
pub proof fn lemma_begin_resolves_authenticated(id: u32, key: Seq<u8>)
    requires
        1 <= id <= 0x7fff_ffff,
    ensures
        resolve_cookie_spec(cookie_of(id, key), key) == SessionState::Authenticated(id as i32),
{
    lemma_auto_spec_u32_to_from_le_bytes();
    let c = cookie_of(id, key);
    assert(c.subrange(0, 4) =~= spec_u32_to_le_bytes(id));
    assert(c.subrange(4, c.len() as int) =~= cookie_tag_of(id, key));
}

/// Law: flipping any byte of the tag field of an issued cookie makes it
/// resolve to `Anonymous`.
pub proof fn lemma_flipped_tag_byte_resolves_anonymous(id: u32, key: Seq<u8>, i: int, b: u8)
    requires
        1 <= id <= 0x7fff_ffff,
        4 <= i < cookie_of(id, key).len(),
        b != cookie_of(id, key)[i],
    ensures
        resolve_cookie_spec(cookie_of(id, key).update(i, b), key) == SessionState::Anonymous,
{
    lemma_auto_spec_u32_to_from_le_bytes();
    let c = cookie_of(id, key);
    let c2 = c.update(i, b);
    assert(c2.subrange(0, 4) =~= c.subrange(0, 4));
    assert(c.subrange(0, 4) =~= spec_u32_to_le_bytes(id));
    // The id is unchanged, and the stored tag now disagrees with the tag
    // the id demands at position i - 4.
    assert(c2.subrange(4, c2.len() as int)[i - 4] != cookie_tag_of(id, key)[i - 4]);
}

/// Law: flipping a byte of the id field of an issued cookie makes it
/// resolve to `Anonymous`, whenever the forged id's tag differs from the
/// issued one — that two ids share a tag is the collision a digest
/// contract cannot exclude.
pub proof fn lemma_flipped_id_byte_resolves_anonymous(id: u32, key: Seq<u8>, i: int, b: u8)
    requires
        1 <= id <= 0x7fff_ffff,
        0 <= i < 4,
        b != cookie_of(id, key)[i],
        ({
            let id2 = spec_u32_from_le_bytes(cookie_of(id, key).update(i, b).subrange(0, 4));
            cookie_tag_of(id2, key) != cookie_tag_of(id, key)
        }),
    ensures
        resolve_cookie_spec(cookie_of(id, key).update(i, b), key) == SessionState::Anonymous,
{
    lemma_auto_spec_u32_to_from_le_bytes();
    let c = cookie_of(id, key);
    let c2 = c.update(i, b);
    let id2 = spec_u32_from_le_bytes(c2.subrange(0, 4));
    assert(c2.subrange(4, c2.len() as int) =~= cookie_tag_of(id, key));
    if 1 <= id2 <= 0x7fff_ffff {
        let t1 = cookie_tag_of(id, key);
        let t2 = cookie_tag_of(id2, key);
        if t2.len() == t1.len() {
            assert(c2.subrange(4, c2.len() as int) != t2);
        } else {
            assert(c2.len() != 4 + t2.len());
        }
    }
}

/// Law: a cookie issued under one signing secret resolves to `Anonymous`
/// under another, whenever the two secrets give the id different tags —
/// that two distinct secrets tag an id alike is the collision a digest
/// contract cannot exclude.
pub proof fn lemma_foreign_key_resolves_anonymous(id: u32, issue_key: Seq<u8>, check_key: Seq<u8>)
    requires
        1 <= id <= 0x7fff_ffff,
        cookie_tag_of(id, issue_key) != cookie_tag_of(id, check_key),
    ensures
        resolve_cookie_spec(cookie_of(id, issue_key), check_key) == SessionState::Anonymous,
{
    lemma_auto_spec_u32_to_from_le_bytes();
    let c = cookie_of(id, issue_key);
    assert(c.subrange(0, 4) =~= spec_u32_to_le_bytes(id));
    assert(c.subrange(4, c.len() as int) =~= cookie_tag_of(id, issue_key));
    let t1 = cookie_tag_of(id, issue_key);
    let t2 = cookie_tag_of(id, check_key);
    if t2.len() == t1.len() {
        assert(c.subrange(4, c.len() as int) != t2);
    } else {
        assert(c.len() != 4 + t2.len());
    }
}

/// Law: after `end` clears the cookie jar, the subsequent request resolves
/// to `Anonymous`, whatever the signing secret.
pub proof fn lemma_ended_session_resolves_anonymous(jar: Option<Seq<u8>>, key: Seq<u8>)
    requires
        jar is None,
    ensures
        resolve_spec(jar, key) == SessionState::Anonymous,
{
}

} // verus!
