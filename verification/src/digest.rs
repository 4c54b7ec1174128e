//! SHA-256 digests (through the `sha2` crate) and an upper-case hex encoding
//! of byte sequences, used by the credential codec and the cipher.

use vstd::prelude::*;
use crate::strings::push_char;
use sha2::Digest;

verus! {

/// One byte of the SHA-256 digest of a byte sequence; what it is on given
/// bytes is known only to the `sha2` crate.
pub uninterp spec fn sha256_byte(data: Seq<u8>, i: int) -> u8;

/// The SHA-256 digest of a byte sequence: 32 bytes, a function of the input
/// bytes alone.
pub open spec fn sha256_of(data: Seq<u8>) -> Seq<u8> {
    Seq::new(32, |i: int| sha256_byte(data, i))
}

/// Relies on `sha2::Sha256::digest`: the digest is a function of the input
/// bytes alone and is always 32 bytes long.
#[verifier::external_body]
pub fn sha256_digest(data: &[u8]) -> (r: Vec<u8>)
    ensures
        r@ == sha256_of(data@),
        forall|i: int| 0 <= i < 32 ==> r@[i] == sha256_byte(data@, i),
{
    sha2::Sha256::digest(data).to_vec()
}

/// The upper-case hex digit for a nibble value.
pub open spec fn hex_digit(n: u8) -> char {
    if n == 0 {
        '0'
    } else if n == 1 {
        '1'
    } else if n == 2 {
        '2'
    } else if n == 3 {
        '3'
    } else if n == 4 {
        '4'
    } else if n == 5 {
        '5'
    } else if n == 6 {
        '6'
    } else if n == 7 {
        '7'
    } else if n == 8 {
        '8'
    } else if n == 9 {
        '9'
    } else if n == 10 {
        'A'
    } else if n == 11 {
        'B'
    } else if n == 12 {
        'C'
    } else if n == 13 {
        'D'
    } else if n == 14 {
        'E'
    } else {
        'F'
    }
}

/// Upper-case hex encoding: two digits for every byte, in order.
pub open spec fn upper_hex_of(data: Seq<u8>) -> Seq<char>
    decreases data.len(),
{
    if data.len() == 0 {
        Seq::<char>::empty()
    } else {
        seq![hex_digit(data[0] / 16), hex_digit(data[0] % 16)] + upper_hex_of(data.drop_first())
    }
}

/// Every character of a hex encoding is a digit or an upper-case letter; in
/// particular none is a colon, so hex text never collides with a delimiter.
pub proof fn lemma_upper_hex_alphanumeric(data: Seq<u8>)
    ensures
        upper_hex_of(data).len() == 2 * data.len(),
        forall|i: int|
            0 <= i < upper_hex_of(data).len() ==> crate::is_alphanumeric_char(
                #[trigger] upper_hex_of(data)[i],
            ),
    decreases data.len(),
{
    if data.len() == 0 {
    } else {
        lemma_upper_hex_alphanumeric(data.drop_first());
    }
}

/// Hex encoding is injective: equal encodings come from equal bytes.
pub proof fn lemma_upper_hex_injective(a: Seq<u8>, b: Seq<u8>)
    requires
        upper_hex_of(a) == upper_hex_of(b),
    ensures
        a == b,
    decreases a.len(),
{
    lemma_upper_hex_alphanumeric(a);
    lemma_upper_hex_alphanumeric(b);
    if a.len() == 0 {
        assert(a =~= b);
    } else {
        assert(forall|x: u8, y: u8|
            x < 16 && y < 16 && hex_digit(x) == hex_digit(y) ==> x == y);
        let ha = upper_hex_of(a);
        let hb = upper_hex_of(b);
        assert(ha[0] == hex_digit(a[0] / 16) && ha[1] == hex_digit(a[0] % 16));
        assert(hb[0] == hex_digit(b[0] / 16) && hb[1] == hex_digit(b[0] % 16));
        assert(a[0] / 16 == b[0] / 16 && a[0] % 16 == b[0] % 16);
        assert(a[0] == b[0]);
        assert((seq![hex_digit(a[0] / 16), hex_digit(a[0] % 16)] + upper_hex_of(
            a.drop_first(),
        )).skip(2) =~= upper_hex_of(a.drop_first()));
        assert((seq![hex_digit(b[0] / 16), hex_digit(b[0] % 16)] + upper_hex_of(
            b.drop_first(),
        )).skip(2) =~= upper_hex_of(b.drop_first()));
        assert(upper_hex_of(a.drop_first()) == upper_hex_of(b.drop_first()));
        lemma_upper_hex_injective(a.drop_first(), b.drop_first());
        assert(a.len() == b.len());
        assert forall|i: int| 0 <= i < a.len() implies a[i] == b[i] by {
            if i > 0 {
                assert(a.drop_first()[i - 1] == a[i]);
                assert(b.drop_first()[i - 1] == b[i]);
            }
        }
        assert(a =~= b);
    }
}

fn hex_digit_char(n: u8) -> (c: char)
    requires
        n < 16,
    ensures
        c == hex_digit(n),
{
    if n == 0 {
        '0'
    } else if n == 1 {
        '1'
    } else if n == 2 {
        '2'
    } else if n == 3 {
        '3'
    } else if n == 4 {
        '4'
    } else if n == 5 {
        '5'
    } else if n == 6 {
        '6'
    } else if n == 7 {
        '7'
    } else if n == 8 {
        '8'
    } else if n == 9 {
        '9'
    } else if n == 10 {
        'A'
    } else if n == 11 {
        'B'
    } else if n == 12 {
        'C'
    } else if n == 13 {
        'D'
    } else if n == 14 {
        'E'
    } else {
        'F'
    }
}

/// Encodes bytes as upper-case hex text.
pub fn to_upper_hex(data: &[u8]) -> (r: String)
    ensures
        r@ == upper_hex_of(data@),
{
    let len = data.len();
    let mut r = String::new();
    let mut i: usize = 0;
    proof {
        assert(data@.skip(0) =~= data@);
    }
    while i < len
        invariant
            i <= len,
            len == data@.len(),
            upper_hex_of(data@) =~= r@ + upper_hex_of(data@.skip(i as int)),
        decreases len - i,
    {
        let b = data[i];
        push_char(&mut r, hex_digit_char(b / 16));
        push_char(&mut r, hex_digit_char(b % 16));
        proof {
            assert(data@.skip(i as int).drop_first() =~= data@.skip(i + 1));
            assert(data@.skip(i as int)[0] == data@[i as int]);
        }
        i = i + 1;
    }
    r
}

} // verus!
