//! Credential hashing.
//!
//! A lookup key is derived from a login and a password: the digest of
//! `login || password || SALT` is rendered as 64 lowercase hexadecimal
//! characters and appended to the login after a `:` separator. The salt is a
//! fixed, non-secret, module-global constant; it is deliberately not
//! per-user, so that keys stay interoperable with previously stored hashes.
//! The derivation is pure: no I/O, no side effects, same output for the same
//! credentials on every call.

use vstd::prelude::*;
use vstd::string::StringExecFns;

verus! {

/// The fixed global salt appended to `login || password` before hashing.
pub open spec fn auth_salt() -> Seq<char> {
    "__H3l!X__"@
}

/// The exact text fed to the digest function.
pub open spec fn key_payload(login: Seq<char>, password: Seq<char>) -> Seq<char> {
    login + password + auth_salt()
}

/// What SHA-256, rendered as lowercase hexadecimal text, returns on the given
/// characters. The digest is a function of its input alone; its value is not
/// spelled out here, only named.
pub uninterp spec fn sha256_hex_of(s: Seq<char>) -> Seq<char>;

/// The hex rendering of a 256-bit digest is always 64 characters; this
/// normalization makes that shape available definitionally. On anything the
/// digest call actually returns it is the identity (see `sha256_hex`).
pub open spec fn clamp_digest(d: Seq<char>) -> Seq<char> {
    Seq::new(64, |i: int| if i < d.len() { d[i] } else { '0' })
}

/// The digest part of a derived key.
pub open spec fn digest_of(s: Seq<char>) -> Seq<char> {
    clamp_digest(sha256_hex_of(s))
}

/// The derived lookup key: the login verbatim, a `:` separator, then the
/// digest of `login || password || SALT`.
pub open spec fn key_of(login: Seq<char>, password: Seq<char>) -> Seq<char> {
    login + seq![':'] + digest_of(key_payload(login, password))
}

/// Relies on rust-crypto's `Sha256` with `Digest::input_str` and
/// `Digest::result_str`: the SHA-256 digest of the input characters, a pure
/// function of them, rendered as 64 hexadecimal characters (256 bits, two
/// characters per byte).
#[verifier::external_body]
fn sha256_hex(s: &str) -> (r: String)
    ensures
        r@ == sha256_hex_of(s@),
        r@.len() == 64,
{
    let mut hasher = crypto::sha2::Sha256::new();
    crypto::digest::Digest::input_str(&mut hasher, s);
    crypto::digest::Digest::result_str(&mut hasher)
}

/// Derive the lookup key for a pair of credentials.
///
/// Deterministic and pure; the login is a verbatim prefix of the result.
pub fn generate_user_auth_key(login: &String, password: &String) -> (key: String)
    ensures
        key@ == key_of(login@, password@),
{
    let mut to_hash: String = String::new();
    to_hash.append(login.as_str());
    to_hash.append(password.as_str());
    to_hash.append("__H3l!X__");
    proof {
        assert(to_hash@ =~= key_payload(login@, password@));
    }

    let digest = sha256_hex(to_hash.as_str());

    let mut key: String = String::new();
    key.append(login.as_str());
    key.append(":");
    key.append(digest.as_str());
    proof {
        reveal_strlit(":");
        assert(":"@ =~= seq![':']);
        assert(digest@ =~= digest_of(key_payload(login@, password@)));
        assert(key@ =~= key_of(login@, password@));
    }
    key
}

/// Key derivation is deterministic: identical credentials always derive the
/// identical key.
pub proof fn lemma_derive_key_deterministic(
    login1: Seq<char>,
    password1: Seq<char>,
    login2: Seq<char>,
    password2: Seq<char>,
)
    requires
        login1 == login2,
        password1 == password2,
    ensures
        key_of(login1, password1) == key_of(login2, password2),
{
}

/// Keys of different logins never coincide, whatever the passwords: the login
/// stands verbatim at the start of the key and the digest part has a fixed
/// length, so equal keys would force equal logins.
pub proof fn lemma_key_injective_in_login(
    login1: Seq<char>,
    password1: Seq<char>,
    login2: Seq<char>,
    password2: Seq<char>,
)
    requires
        login1 != login2,
    ensures
        key_of(login1, password1) != key_of(login2, password2),
{
    let k1 = key_of(login1, password1);
    let k2 = key_of(login2, password2);
    if k1 == k2 {
        assert(k1.len() == login1.len() + 65);
        assert(k2.len() == login2.len() + 65);
        assert forall|i: int| 0 <= i < login1.len() implies login1[i] == login2[i] by {
            assert(k1[i] == login1[i]);
            assert(k2[i] == login2[i]);
        }
        assert(login1 =~= login2);
    }
}

} // verus!
