//! Character-level string utilities: splitting on a separator character and
//! constant-time comparison, with exact sequence-level specifications.

use vstd::prelude::*;
use vstd::string::StrSliceExecFns;

verus! {

/// The views of a sequence of strings.
pub open spec fn views_of_strings(v: Seq<String>) -> Seq<Seq<char>> {
    v.map_values(|s: String| s@)
}

/// Splitting a character sequence on a separator, keeping empty segments:
/// the result always holds one segment more than the input has separators.
pub open spec fn split_on_char(s: Seq<char>, sep: char) -> Seq<Seq<char>>
    decreases s.len(),
{
    if s.len() == 0 {
        seq![Seq::<char>::empty()]
    } else if s[0] == sep {
        seq![Seq::<char>::empty()] + split_on_char(s.drop_first(), sep)
    } else {
        let rest = split_on_char(s.drop_first(), sep);
        seq![seq![s[0]] + rest[0]] + rest.skip(1)
    }
}

pub proof fn lemma_split_on_char_len(s: Seq<char>, sep: char)
    ensures
        split_on_char(s, sep).len() >= 1,
    decreases s.len(),
{
    if s.len() == 0 {
    } else if s[0] == sep {
        lemma_split_on_char_len(s.drop_first(), sep);
    } else {
        lemma_split_on_char_len(s.drop_first(), sep);
    }
}

/// A sequence without the separator splits into itself alone.
pub proof fn lemma_split_no_sep(s: Seq<char>, sep: char)
    requires
        forall|i: int| 0 <= i < s.len() ==> s[i] != sep,
    ensures
        split_on_char(s, sep) == seq![s],
    decreases s.len(),
{
    if s.len() == 0 {
        assert(split_on_char(s, sep) =~~= seq![s]);
    } else {
        lemma_split_no_sep(s.drop_first(), sep);
        let rest = split_on_char(s.drop_first(), sep);
        assert(rest == seq![s.drop_first()]);
        assert(seq![s[0]] + rest[0] =~= s);
        assert(rest.skip(1) =~~= Seq::<Seq<char>>::empty());
        assert(split_on_char(s, sep) =~~= seq![s]);
    }
}

/// Splitting `a ++ [sep] ++ b` where `a` is separator-free peels off `a`.
pub proof fn lemma_split_with_sep(a: Seq<char>, b: Seq<char>, sep: char)
    requires
        forall|i: int| 0 <= i < a.len() ==> a[i] != sep,
    ensures
        split_on_char(a + seq![sep] + b, sep) == seq![a] + split_on_char(b, sep),
    decreases a.len(),
{
    let s = a + seq![sep] + b;
    if a.len() == 0 {
        assert(s.len() > 0 && s[0] == sep);
        assert(s.drop_first() =~= b);
        assert(split_on_char(s, sep) =~~= seq![a] + split_on_char(b, sep));
    } else {
        assert(s[0] == a[0]);
        assert(s.drop_first() =~= a.drop_first() + seq![sep] + b);
        lemma_split_with_sep(a.drop_first(), b, sep);
        let rest = split_on_char(s.drop_first(), sep);
        assert(rest == seq![a.drop_first()] + split_on_char(b, sep));
        lemma_split_on_char_len(b, sep);
        assert(rest[0] == a.drop_first());
        assert(seq![s[0]] + rest[0] =~= a);
        assert(rest.skip(1) =~~= split_on_char(b, sep));
        assert(split_on_char(s, sep) =~~= seq![a] + split_on_char(b, sep));
    }
}

/// Splits a string on a separator character, keeping empty segments,
/// exactly as [`split_on_char`] describes.
pub fn split_string(s: &str, sep: char) -> (parts: Vec<String>)
    ensures
        views_of_strings(parts@) == split_on_char(s@, sep),
        parts@.len() >= 1,
{
    let len = s.unicode_len();
    let mut parts: Vec<String> = Vec::new();
    let mut start: usize = 0;
    let mut i: usize = 0;
    proof {
        assert(s@.skip(0) =~= s@);
        assert(views_of_strings(parts@) =~~= Seq::<Seq<char>>::empty());
    }
    while i < len
        invariant
            start <= i <= len,
            len == s@.len(),
            split_on_char(s@, sep) =~~= views_of_strings(parts@) + split_on_char(
                s@.skip(start as int),
                sep,
            ),
            forall|k: int| start <= k < i ==> s@[k] != sep,
        decreases len - i,
    {
        if s.get_char(i) == sep {
            let seg = s.substring_char(start, i).to_owned();
            proof {
                assert(s@.skip(start as int) =~= seg@ + seq![sep] + s@.skip(i + 1));
                lemma_split_with_sep(seg@, s@.skip(i + 1), sep);
                assert(views_of_strings(parts@.push(seg)) =~= views_of_strings(parts@) + seq![
                    seg@,
                ]);
            }
            parts.push(seg);
            start = i + 1;
        }
        i = i + 1;
    }
    let last = s.substring_char(start, len).to_owned();
    proof {
        assert(s@.skip(start as int) =~= last@);
        lemma_split_no_sep(last@, sep);
        assert(views_of_strings(parts@.push(last)) =~= views_of_strings(parts@) + seq![last@]);
        assert(views_of_strings(parts@.push(last)) =~~= split_on_char(s@, sep));
    }
    parts.push(last);
    parts
}

/// String equality that inspects every character of equal-length inputs
/// rather than stopping at the first mismatch.
pub fn strings_equal_constant_time(a: &str, b: &str) -> (r: bool)
    ensures
        r == (a@ == b@),
{
    let a_len = a.unicode_len();
    let b_len = b.unicode_len();
    if a_len != b_len {
        return false;
    }
    let mut same = true;
    let mut i: usize = 0;
    while i < a_len
        invariant
            i <= a_len,
            a_len == a@.len() == b@.len(),
            same == (forall|k: int| 0 <= k < i ==> a@[k] == b@[k]),
        decreases a_len - i,
    {
        let ca = a.get_char(i);
        let cb = b.get_char(i);
        same = same && ca == cb;
        i = i + 1;
    }
    proof {
        if same {
            assert(a@ =~= b@);
        }
    }
    same
}

/// A copy of a vector of strings with the same views.
pub fn clone_string_vec(v: &Vec<String>) -> (r: Vec<String>)
    ensures
        views_of_strings(r@) == views_of_strings(v@),
{
    let len = v.len();
    let mut r: Vec<String> = Vec::new();
    let mut i: usize = 0;
    while i < len
        invariant
            i <= len,
            len == v@.len(),
            r@.len() == i,
            forall|k: int| 0 <= k < i ==> r@[k]@ == v@[k]@,
        decreases len - i,
    {
        r.push(v[i].clone());
        i = i + 1;
    }
    proof {
        assert(views_of_strings(r@) =~= views_of_strings(v@));
    }
    r
}

/// Equality of two string slices.
pub fn str_eq(a: &str, b: &str) -> (r: bool)
    ensures
        r == (a@ == b@),
{
    let owned_a = a.to_owned();
    let owned_b = b.to_owned();
    let r = owned_a == owned_b;
    proof {
        if a@ == b@ {
            assert(owned_a@ == owned_b@);
        }
    }
    r
}

/// Appends one character to a string. Relies on std's `String::push`.
#[verifier::external_body]
pub fn push_char(s: &mut String, c: char)
    ensures
        final(s)@ == old(s)@.push(c),
{
    s.push(c);
}

} // verus!
