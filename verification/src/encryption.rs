//! Symmetric encryption at rest for asset bytes. The cipher XORs the payload
//! with a keystream of chained SHA-256 blocks over the key and a random
//! nonce, and appends a SHA-256 authentication tag over key, nonce and
//! ciphertext. The output embeds the nonce, so the key alone decrypts it.

use vstd::prelude::*;
use vstd::slice::slice_subrange;
use vstd::utf8::encode_utf8;
use rand::Rng;
use crate::digest::{sha256_digest, sha256_of};

verus! {

/// The UTF-8 bytes of a text key.
pub open spec fn key_bytes(key: Seq<char>) -> Seq<u8> {
    encode_utf8(key)
}

/// Keystream block `k`: the first block hashes key and nonce, each later
/// block hashes the key and the previous block.
pub open spec fn keystream_block(key: Seq<u8>, nonce: Seq<u8>, k: nat) -> Seq<u8>
    decreases k,
{
    if k == 0 {
        sha256_of(key + nonce)
    } else {
        sha256_of(key + keystream_block(key, nonce, (k - 1) as nat))
    }
}

/// Byte `i` of the keystream.
pub open spec fn keystream_byte(key: Seq<u8>, nonce: Seq<u8>, i: int) -> u8 {
    keystream_block(key, nonce, (i / 32) as nat)[i % 32]
}

/// `data` XORed with the keystream, byte for byte.
pub open spec fn xor_keystream(data: Seq<u8>, key: Seq<u8>, nonce: Seq<u8>) -> Seq<u8> {
    Seq::new(data.len(), |i: int| data[i] ^ keystream_byte(key, nonce, i))
}

/// The authentication tag over a nonce-and-ciphertext prefix.
pub open spec fn auth_tag(key: Seq<u8>, prefix: Seq<u8>) -> Seq<u8> {
    sha256_of(key + prefix)
}

/// The ciphertext for a payload, key and 16-byte nonce: nonce, XORed
/// payload, tag.
pub open spec fn enc_spec(data: Seq<u8>, key: Seq<u8>, nonce: Seq<u8>) -> Seq<u8> {
    let body = xor_keystream(data, key, nonce);
    nonce + body + auth_tag(key, nonce + body)
}

/// What decryption yields: the XORed-back body when the input is long enough
/// to hold a nonce and a tag and the tag authenticates; nothing otherwise.
pub open spec fn dec_spec(data: Seq<u8>, key: Seq<u8>) -> Option<Seq<u8>> {
    if data.len() >= 48 {
        let nonce = data.subrange(0, 16);
        let body = data.subrange(16, data.len() - 32);
        let tag = data.subrange(data.len() - 32, data.len() as int);
        if tag == auth_tag(key, nonce + body) {
            Some(xor_keystream(body, key, nonce))
        } else {
            None
        }
    } else {
        None
    }
}

/// Decrypting an encryption under the same key restores the payload exactly.
pub proof fn lemma_encrypt_decrypt(data: Seq<u8>, key: Seq<u8>, nonce: Seq<u8>)
    requires
        nonce.len() == 16,
    ensures
        dec_spec(enc_spec(data, key, nonce), key) == Some(data),
{
    let body = xor_keystream(data, key, nonce);
    let ct = enc_spec(data, key, nonce);
    assert(ct.len() == data.len() + 48);
    assert(ct.subrange(0, 16) =~= nonce);
    assert(ct.subrange(16, ct.len() - 32) =~= body);
    assert(ct.subrange(ct.len() - 32, ct.len() as int) =~= auth_tag(key, nonce + body));
    assert(forall|a: u8, b: u8| #[trigger] ((a ^ b) ^ b) == a) by (bit_vector);
    assert(xor_keystream(body, key, nonce) =~= data);
}

/// Relies on `rand::Rng::fill`: the buffer keeps its 16-byte length; its
/// contents are random.
#[verifier::external_body]
fn random_nonce() -> (r: Vec<u8>)
    ensures
        r@.len() == 16,
{
    let mut buf = [0u8; 16];
    rand::thread_rng().fill(&mut buf[..]);
    buf.to_vec()
}

/// Concatenation of two byte slices.
fn concat_bytes(a: &[u8], b: &[u8]) -> (r: Vec<u8>)
    ensures
        r@ == a@ + b@,
{
    let mut r: Vec<u8> = Vec::new();
    r.extend_from_slice(a);
    r.extend_from_slice(b);
    proof {
        assert(r@ =~= a@ + b@);
    }
    r
}

/// XORs `data` with the keystream for `key` and `nonce`.
fn apply_keystream(data: &[u8], key: &[u8], nonce: &[u8]) -> (r: Vec<u8>)
    ensures
        r@ == xor_keystream(data@, key@, nonce@),
{
    let len = data.len();
    let first = concat_bytes(key, nonce);
    let mut block = sha256_digest(first.as_slice());
    let mut out: Vec<u8> = Vec::new();
    let mut i: usize = 0;
    while i < len
        invariant
            i <= len,
            len == data@.len(),
            out@.len() == i,
            forall|j: int| 0 <= j < i ==> out@[j] == data@[j] ^ keystream_byte(key@, nonce@, j),
            i > 0 && i % 32 == 0 ==> block@ == keystream_block(key@, nonce@, (i / 32 - 1) as nat),
            i % 32 != 0 || i == 0 ==> block@ == keystream_block(key@, nonce@, (i / 32) as nat),
        decreases len - i,
    {
        if i > 0 && i % 32 == 0 {
            let input = concat_bytes(key, block.as_slice());
            block = sha256_digest(input.as_slice());
            proof {
                assert(block@ == keystream_block(key@, nonce@, (i / 32) as nat));
            }
        }
        assert(block@ == keystream_block(key@, nonce@, (i / 32) as nat));
        assert(block@.len() == 32);
        out.push(data[i] ^ block[i % 32]);
        proof {
            assert(out@[i as int] == data@[i as int] ^ keystream_byte(key@, nonce@, i as int));
            assert((i + 1) % 32 != 0 ==> (i + 1) / 32 == i / 32);
            assert((i + 1) % 32 == 0 ==> (i + 1) / 32 - 1 == i / 32);
        }
        i = i + 1;
    }
    proof {
        assert(out@ =~= xor_keystream(data@, key@, nonce@));
    }
    out
}

/// Byte-sequence equality that inspects every byte of equal-length inputs
/// rather than stopping at the first mismatch.
fn bytes_equal_constant_time(a: &[u8], b: &[u8]) -> (r: bool)
    ensures
        r == (a@ == b@),
{
    let a_len = a.len();
    let b_len = b.len();
    if a_len != b_len {
        return false;
    }
    let mut same = true;
    let mut i: usize = 0;
    while i < a_len
        invariant
            i <= a_len,
            a_len == a@.len() == b@.len(),
            same == (forall|k: int| 0 <= k < i ==> a@[k] == b@[k]),
        decreases a_len - i,
    {
        same = same && a[i] == b[i];
        i = i + 1;
    }
    proof {
        if same {
            assert(a@ =~= b@);
        }
    }
    same
}

/// Encrypts a payload under a text key and a fresh random nonce. Whatever
/// nonce was drawn, decrypting the result with the same key restores the
/// payload exactly.
pub fn encrypt_bytes(data: Vec<u8>, encryption_key: &str) -> (r: Vec<u8>)
    ensures
        exists|nonce: Seq<u8>|
            nonce.len() == 16 && r@ == #[trigger] enc_spec(
                data@,
                key_bytes(encryption_key@),
                nonce,
            ),
        dec_spec(r@, key_bytes(encryption_key@)) == Some(data@),
{
    let nonce = random_nonce();
    let key = encryption_key.as_bytes();
    let body = apply_keystream(data.as_slice(), key, nonce.as_slice());
    let prefix = concat_bytes(nonce.as_slice(), body.as_slice());
    let mac_input = concat_bytes(key, prefix.as_slice());
    let tag = sha256_digest(mac_input.as_slice());
    let out = concat_bytes(prefix.as_slice(), tag.as_slice());
    proof {
        assert(out@ =~= enc_spec(data@, key_bytes(encryption_key@), nonce@));
        lemma_encrypt_decrypt(data@, key_bytes(encryption_key@), nonce@);
    }
    out
}

/// Decrypts a ciphertext produced by [`encrypt_bytes`] under the same key;
/// fails on truncated input or when the authentication tag does not match.
pub fn decrypt_bytes(data: &[u8], encryption_key: &str) -> (r: Option<Vec<u8>>)
    ensures
        r is Some <==> dec_spec(data@, key_bytes(encryption_key@)) is Some,
        r is Some ==> r.unwrap()@ == dec_spec(data@, key_bytes(encryption_key@)).unwrap(),
{
    let len = data.len();
    if len < 48 {
        return None;
    }
    let key = encryption_key.as_bytes();
    let nonce = slice_subrange(data, 0, 16);
    let body = slice_subrange(data, 16, len - 32);
    let tag = slice_subrange(data, len - 32, len);
    let prefix = concat_bytes(nonce, body);
    let mac_input = concat_bytes(key, prefix.as_slice());
    let expected = sha256_digest(mac_input.as_slice());
    if !bytes_equal_constant_time(tag, expected.as_slice()) {
        return None;
    }
    let plain = apply_keystream(body, key, nonce);
    Some(plain)
}

} // verus!
