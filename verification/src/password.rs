use vstd::prelude::*;

use vstd::string::{StrSliceExecFns, StringExecFns};

use crate::errors::ForumError;
use crate::session::SecretKey;

verus! {

// ---------------------------------------------------------------------------
// The one-way transform.
//
// Hashing is keyed by the server secret and uses a fixed salt, so the digest
// is a function of the password and the secret alone: the same pair always
// reproduces the same stored hash, and verification can recompute and
// compare.
// ---------------------------------------------------------------------------

/// The Argon2id digest of a password under the server secret. What this
/// sequence of 32 bytes is on given inputs only the hasher knows; contracts
/// use the name alone.
pub uninterp spec fn argon2_digest_of(password: Seq<char>, secret: Seq<u8>) -> Seq<u8>;

/// Relies on argon2::Argon2::hash_password_into — Argon2id with default
/// parameters and a fixed 16-byte salt, keyed by `secret` through
/// new_with_secret — so the digest is a function of the password and the
/// secret alone. `None` when the hasher refuses an input or cannot obtain
/// its working memory.
#[verifier::external_body]
fn argon2_digest(password: &String, secret: &Vec<u8>) -> (r: Option<Vec<u8>>)
    ensures
        r matches Some(d) ==> d@ == argon2_digest_of(password@, secret@) && d@.len() == 32,
{
    let a = match argon2::Argon2::new_with_secret(
        secret.as_slice(),
        argon2::Algorithm::Argon2id,
        argon2::Version::V0x13,
        argon2::Params::default(),
    ) {
        Ok(a) => a,
        Err(_) => return None,
    };
    let mut out = [0u8; 32];
    match a.hash_password_into(password.as_bytes(), "the-oasis-salt-0".as_bytes(), &mut out) {
        Ok(()) => Some(out.to_vec()),
        Err(_) => None,
    }
}

// ---------------------------------------------------------------------------
// Hex encoding of the digest: the stored form of a password.
// ---------------------------------------------------------------------------

/// The lowercase hex digit for a value below sixteen.
pub open spec fn hex_digit(n: int) -> char {
    if n == 0 {
        '0'
    } else if n == 1 {
        '1'
    } else if n == 2 {
        '2'
    } else if n == 3 {
        '3'
    } else if n == 4 {
        '4'
    } else if n == 5 {
        '5'
    } else if n == 6 {
        '6'
    } else if n == 7 {
        '7'
    } else if n == 8 {
        '8'
    } else if n == 9 {
        '9'
    } else if n == 10 {
        'a'
    } else if n == 11 {
        'b'
    } else if n == 12 {
        'c'
    } else if n == 13 {
        'd'
    } else if n == 14 {
        'e'
    } else {
        'f'
    }
}

/// The lowercase hex encoding of a byte sequence: two digits per byte.
pub open spec fn hex_of(b: Seq<u8>) -> Seq<char> {
    Seq::new(
        b.len() * 2,
        |i: int|
            if i % 2 == 0 {
                hex_digit(b[i / 2] as int / 16)
            } else {
                hex_digit(b[i / 2] as int % 16)
            },
    )
}

/// The stored form of a password under the server secret: the hex encoding
/// of its Argon2id digest. The `password` field of a stored `User` holds
/// exactly this.
pub open spec fn stored_hash_of(password: Seq<char>, secret: Seq<u8>) -> Seq<char> {
    hex_of(argon2_digest_of(password, secret))
}

fn hex_char(n: u8) -> (s: &'static str)
    requires
        n < 16,
    ensures
        s@.len() == 1,
        s@[0] == hex_digit(n as int),
{
    proof {
        reveal_strlit("0");
        reveal_strlit("1");
        reveal_strlit("2");
        reveal_strlit("3");
        reveal_strlit("4");
        reveal_strlit("5");
        reveal_strlit("6");
        reveal_strlit("7");
        reveal_strlit("8");
        reveal_strlit("9");
        reveal_strlit("a");
        reveal_strlit("b");
        reveal_strlit("c");
        reveal_strlit("d");
        reveal_strlit("e");
        reveal_strlit("f");
    }
    if n == 0 {
        "0"
    } else if n == 1 {
        "1"
    } else if n == 2 {
        "2"
    } else if n == 3 {
        "3"
    } else if n == 4 {
        "4"
    } else if n == 5 {
        "5"
    } else if n == 6 {
        "6"
    } else if n == 7 {
        "7"
    } else if n == 8 {
        "8"
    } else if n == 9 {
        "9"
    } else if n == 10 {
        "a"
    } else if n == 11 {
        "b"
    } else if n == 12 {
        "c"
    } else if n == 13 {
        "d"
    } else if n == 14 {
        "e"
    } else {
        "f"
    }
}

fn to_hex(bytes: &Vec<u8>) -> (s: String)
    ensures
        s@ == hex_of(bytes@),
{
    let mut s = String::new();
    let mut i: usize = 0;
    while i < bytes.len()
        invariant
            0 <= i <= bytes@.len(),
            s@ == hex_of(bytes@.take(i as int)),
        decreases bytes@.len() - i,
    {
        let b = bytes[i];
        s.append(hex_char(b / 16));
        s.append(hex_char(b % 16));
        proof {
            assert(s@ =~= hex_of(bytes@.take(i + 1)));
        }
        i = i + 1;
    }
    proof {
        assert(bytes@.take(bytes@.len() as int) =~= bytes@);
    }
    s
}

// ---------------------------------------------------------------------------
// Hashing and verification.
// ---------------------------------------------------------------------------

/// Hashes a plaintext password under the server secret into its stored
/// form. Fails only when the hasher cannot do its work — a deployment
/// problem, not a user-facing condition.
pub fn hash(password: &String, key: &SecretKey) -> (r: Result<String, ForumError>)
    requires
        key.wf(),
    ensures
        r matches Ok(h) ==> h@ == stored_hash_of(password@, key@) && h@.len() == 64,
        r matches Err(e) ==> e == ForumError::HashingFailure,
{
    match argon2_digest(password, key.as_bytes()) {
        Some(d) => Ok(to_hex(&d)),
        None => Err(ForumError::HashingFailure),
    }
}

/// Compares two strings in time that depends on their lengths alone, never
/// on the position of the first mismatch.
fn const_time_eq(a: &str, b: &str) -> (r: bool)
    ensures
        r == (a@ == b@),
{
    let alen = a.unicode_len();
    let blen = b.unicode_len();
    if alen != blen {
        return false;
    }
    let mut diff: u32 = 0;
    let mut i: usize = 0;
    while i < alen
        invariant
            alen == a@.len(),
            blen == b@.len(),
            alen == blen,
            0 <= i <= alen,
            (diff == 0) == (forall|j: int| 0 <= j < i ==> a@[j] == b@[j]),
        decreases alen - i,
    {
        let ca = a.get_char(i);
        let cb = b.get_char(i);
        let d: u32 = (ca as u32) ^ (cb as u32);
        proof {
            let x = ca as u32;
            let y = cb as u32;
            assert((x ^ y == 0) == (x == y)) by (bit_vector);
            let acc = diff;
            assert((acc | d == 0) == (acc == 0 && d == 0)) by (bit_vector);
        }
        diff = diff | d;
        i = i + 1;
    }
    if diff == 0 {
        proof {
            assert(a@ =~= b@);
        }
        true
    } else {
        proof {
            let j = choose|j: int| 0 <= j < alen && a@[j] != b@[j];
            assert(a@[j] != b@[j]);
        }
        false
    }
}

/// Law: two passwords have the same stored form exactly when their digests
/// collide. Since `verify` accepts exactly the attempts whose stored form
/// equals the stored hash, a wrong password is refused unless its digest
/// collides with the right one's.
pub proof fn lemma_stored_hash_collision(p: Seq<char>, q: Seq<char>, secret: Seq<u8>)
    ensures
        (stored_hash_of(p, secret) == stored_hash_of(q, secret)) <==> (argon2_digest_of(p, secret)
            == argon2_digest_of(q, secret)),
{
    let d1 = argon2_digest_of(p, secret);
    let d2 = argon2_digest_of(q, secret);
    if hex_of(d1) == hex_of(d2) {
        assert(hex_of(d1).len() == d1.len() * 2);
        assert(hex_of(d2).len() == d2.len() * 2);
        assert(d1.len() == d2.len());
        assert forall|i: int| 0 <= i < d1.len() implies d1[i] == d2[i] by {
            assert(hex_of(d1)[2 * i] == hex_of(d2)[2 * i]);
            assert(hex_of(d1)[2 * i + 1] == hex_of(d2)[2 * i + 1]);
            assert(hex_digit(d1[i] as int / 16) == hex_digit(d2[i] as int / 16));
            assert(hex_digit(d1[i] as int % 16) == hex_digit(d2[i] as int % 16));
        }
        assert(d1 =~= d2);
    }
}

/// Checks a login attempt against a stored hash: hashes the attempt under
/// the server secret — never a plaintext comparison — and compares the two
/// hashes in constant time. True exactly when the stored hash is the stored
/// form of the attempted password.
pub fn verify(password: &String, stored: &String, key: &SecretKey) -> (r: Result<
    bool,
    ForumError,
>)
    requires
        key.wf(),
    ensures
        r matches Ok(b) ==> (b <==> stored@ == stored_hash_of(password@, key@)),
        r matches Err(e) ==> e == ForumError::HashingFailure,
{
    let h = hash(password, key)?;
    Ok(const_time_eq(h.as_str(), stored.as_str()))
}

} // verus!
