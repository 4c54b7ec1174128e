//! The credential codec: salted password hashing and verification. A stored
//! credential is the upper-case hex SHA-256 digest of `password ++ salt`,
//! then a `:` delimiter, then the salt itself.

use vstd::prelude::*;
use vstd::utf8::encode_utf8;
use rand::Rng;
use crate::digest::{sha256_digest, sha256_of, to_upper_hex, upper_hex_of,
    lemma_upper_hex_alphanumeric, lemma_upper_hex_injective};
use crate::is_alphanumeric_char;
use crate::strings::{push_char, split_on_char, split_string, strings_equal_constant_time,
    views_of_strings, lemma_split_no_sep, lemma_split_with_sep};
use vstd::string::StringExecFns;

verus! {

/// A well-formed salt: `n` characters, all ASCII letters or digits.
pub open spec fn is_salt(s: Seq<char>, n: nat) -> bool {
    s.len() == n && forall|i: int| 0 <= i < s.len() ==> is_alphanumeric_char(#[trigger] s[i])
}

/// Relies on `rand`'s `Alphanumeric` distribution: every sampled character is
/// an ASCII letter or digit, and exactly `salt_len` of them are taken.
#[verifier::external_body]
pub fn genarate_salt(salt_len: usize) -> (r: String)
    ensures
        is_salt(r@, salt_len as nat),
{
    rand::thread_rng().sample_iter(&rand::distributions::Alphanumeric).take(salt_len).map(
        char::from,
    ).collect()
}

/// The digest half of a stored credential for a password and salt.
pub open spec fn credential_digest(password: Seq<char>, salt: Seq<char>) -> Seq<char> {
    upper_hex_of(sha256_of(encode_utf8(password + salt)))
}

/// The stored form of a credential: hex digest, delimiter, salt.
pub open spec fn stored_credential(password: Seq<char>, salt: Seq<char>) -> Seq<char> {
    credential_digest(password, salt) + seq![':'] + salt
}

/// Whether `password` matches a stored credential: the text before the first
/// `:` equals the recomputed digest over the text between the first and the
/// second `:` (the salt). Malformed text without a delimiter matches nothing.
pub open spec fn credential_matches(password: Seq<char>, stored: Seq<char>) -> bool {
    let parts = split_on_char(stored, ':');
    parts.len() >= 2 && parts[0] == credential_digest(password, parts[1])
}

/// The salt component of a stored credential: the text between the first and
/// the second delimiter; empty on malformed input.
pub open spec fn salt_of_credential(stored: Seq<char>) -> Seq<char> {
    let parts = split_on_char(stored, ':');
    if parts.len() >= 2 {
        parts[1]
    } else {
        Seq::<char>::empty()
    }
}

/// Hashes a password under a fresh 64-character alphanumeric salt.
pub fn hash_password(password: &str) -> (r: String)
    ensures
        exists|salt: Seq<char>|
            is_salt(salt, 64) && r@ == #[trigger] stored_credential(password@, salt),
{
    let salt = genarate_salt(64);
    let mut input = password.to_owned();
    input.append(salt.as_str());
    let digest = sha256_digest(input.as_str().as_bytes());
    let mut out = to_upper_hex(digest.as_slice());
    push_char(&mut out, ':');
    out.append(salt.as_str());
    proof {
        assert(out@ =~= stored_credential(password@, salt@));
    }
    out
}

/// Checks a password against a stored credential; false on malformed input.
pub fn verify_password(password: &str, passcode_hash: &str) -> (r: bool)
    ensures
        r == credential_matches(password@, passcode_hash@),
{
    let parts = split_string(passcode_hash, ':');
    if parts.len() < 2 {
        return false;
    }
    let salt = &parts[1];
    let mut input = password.to_owned();
    input.append(salt.as_str());
    let digest = sha256_digest(input.as_str().as_bytes());
    let hex = to_upper_hex(digest.as_slice());
    proof {
        assert(views_of_strings(parts@)[0] == parts@[0]@);
        assert(views_of_strings(parts@)[1] == parts@[1]@);
    }
    strings_equal_constant_time(hex.as_str(), parts[0].as_str())
}

/// A stored credential splits exactly into its digest and its salt, so a
/// candidate password matches it precisely when the candidate's digest under
/// the stored salt equals the registered password's digest. In particular the
/// registered password always matches.
pub proof fn lemma_credential_round_trip(candidate: Seq<char>, password: Seq<char>, salt: Seq<char>)
    requires
        forall|i: int| 0 <= i < salt.len() ==> is_alphanumeric_char(#[trigger] salt[i]),
    ensures
        credential_matches(candidate, stored_credential(password, salt)) == (sha256_of(
            encode_utf8(candidate + salt),
        ) == sha256_of(encode_utf8(password + salt))),
        credential_matches(password, stored_credential(password, salt)),
{
    let hex = credential_digest(password, salt);
    lemma_upper_hex_alphanumeric(sha256_of(encode_utf8(password + salt)));
    assert(forall|i: int| 0 <= i < hex.len() ==> #[trigger] hex[i] != ':');
    assert(forall|i: int| 0 <= i < salt.len() ==> #[trigger] salt[i] != ':');
    lemma_split_no_sep(salt, ':');
    lemma_split_with_sep(hex, salt, ':');
    let parts = split_on_char(stored_credential(password, salt), ':');
    assert(parts == seq![hex] + seq![salt]);
    assert(parts.len() == 2);
    assert(parts[0] == hex && parts[1] == salt);
    if credential_digest(candidate, salt) == credential_digest(password, salt) {
        lemma_upper_hex_injective(
            sha256_of(encode_utf8(candidate + salt)),
            sha256_of(encode_utf8(password + salt)),
        );
    }
}

} // verus!
