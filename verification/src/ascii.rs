//! ASCII bytes: the alphabet that language tags are written in.
//!
//! Subtags are modelled as sequences of bytes (`Seq<u8>`). This module holds
//! the byte classes and case mappings that the tag grammar is stated in, the
//! correspondence between ASCII bytes and characters, and the lexicographic
//! order that keeps extension keywords sorted.

use vstd::prelude::*;
use vstd::utf8::*;
use vstd::string::*;

verus! {

/// `b` is an ASCII letter.
pub open spec fn is_alpha(b: u8) -> bool {
    (0x41 <= b && b <= 0x5a) || (0x61 <= b && b <= 0x7a)
}

/// `b` is an ASCII decimal digit.
pub open spec fn is_digit(b: u8) -> bool {
    0x30 <= b && b <= 0x39
}

/// The ASCII lower-case form of `b`; bytes other than `A`..`Z` are unchanged.
pub open spec fn lower(b: u8) -> u8 {
    if 0x41 <= b && b <= 0x5a {
        (b + 0x20) as u8
    } else {
        b
    }
}

/// The ASCII upper-case form of `b`; bytes other than `a`..`z` are unchanged.
pub open spec fn upper(b: u8) -> u8 {
    if 0x61 <= b && b <= 0x7a {
        (b - 0x20) as u8
    } else {
        b
    }
}

/// Every byte of `s` is below `0x80`.
pub open spec fn all_ascii(s: Seq<u8>) -> bool {
    forall|i: int| 0 <= i < s.len() ==> s[i] < 0x80
}

/// Every byte of `s` is an ASCII letter.
pub open spec fn all_alpha(s: Seq<u8>) -> bool {
    forall|i: int| 0 <= i < s.len() ==> is_alpha(#[trigger] s[i])
}

/// Every byte of `s` is an ASCII digit.
pub open spec fn all_digit(s: Seq<u8>) -> bool {
    forall|i: int| 0 <= i < s.len() ==> is_digit(#[trigger] s[i])
}

/// `s` with every byte in lower case.
pub open spec fn lowercase(s: Seq<u8>) -> Seq<u8> {
    Seq::new(s.len(), |i: int| lower(s[i]))
}

/// `s` with every byte in upper case.
pub open spec fn uppercase(s: Seq<u8>) -> Seq<u8> {
    Seq::new(s.len(), |i: int| upper(s[i]))
}

/// `s` with its first byte in upper case and the others in lower case.
pub open spec fn titlecase(s: Seq<u8>) -> Seq<u8> {
    Seq::new(
        s.len(),
        |i: int|
            if i == 0 {
                upper(s[i])
            } else {
                lower(s[i])
            },
    )
}

/// The characters that the ASCII bytes `b` stand for.
pub open spec fn to_chars(b: Seq<u8>) -> Seq<char> {
    Seq::new(b.len(), |i: int| b[i] as char)
}

/// The bytes of the ASCII characters `c`.
pub open spec fn to_bytes(c: Seq<char>) -> Seq<u8> {
    Seq::new(c.len(), |i: int| c[i] as u8)
}

/// ASCII bytes and ASCII characters stand for each other, one for one.
pub proof fn lemma_bytes_chars(b: Seq<u8>)
    requires
        all_ascii(b),
    ensures
        is_ascii_chars(to_chars(b)),
        to_bytes(to_chars(b)) == b,
        encode_utf8(to_chars(b)) == b,
        valid_utf8(b),
        decode_utf8(b) == to_chars(b),
{
    let c = to_chars(b);
    assert forall|i: int| 0 <= i < c.len() implies 0 <= (#[trigger] c[i]) as nat && (c[i] as nat) < 128 by {
        assert(c[i] == b[i] as char);
    }
    assert(to_bytes(c) =~= b);
    is_ascii_chars_encode_utf8(c);
    assert(encode_utf8(c) =~= b);
    encode_utf8_valid_utf8(c);
    encode_utf8_decode_utf8(c);
}

/// On ASCII characters, `to_chars` undoes `to_bytes`.
pub proof fn lemma_chars_bytes(c: Seq<char>)
    requires
        is_ascii_chars(c),
    ensures
        all_ascii(to_bytes(c)),
        to_chars(to_bytes(c)) == c,
        encode_utf8(c) == to_bytes(c),
{
    is_ascii_chars_nat_bound(c);
    is_ascii_chars_encode_utf8(c);
    assert(encode_utf8(c) =~= to_bytes(c));
    assert(to_chars(to_bytes(c)) =~= c);
}


/// Whether `b` is an ASCII letter.
pub fn byte_is_alpha(b: u8) -> (r: bool)
    ensures
        r == is_alpha(b),
{
    (0x41 <= b && b <= 0x5a) || (0x61 <= b && b <= 0x7a)
}

/// Whether `b` is an ASCII digit.
pub fn byte_is_digit(b: u8) -> (r: bool)
    ensures
        r == is_digit(b),
{
    0x30 <= b && b <= 0x39
}

/// The lower-case form of `b`.
pub fn byte_lower(b: u8) -> (r: u8)
    ensures
        r == lower(b),
{
    if 0x41 <= b && b <= 0x5a {
        b + 0x20
    } else {
        b
    }
}

/// Whether every byte of `s` is an ASCII letter.
pub fn bytes_all_alpha(s: &[u8]) -> (r: bool)
    ensures
        r == all_alpha(s@),
{
    let mut i: usize = 0;
    while i < s.len()
        invariant
            i <= s.len(),
            forall|j: int| 0 <= j < i ==> is_alpha(#[trigger] s@[j]),
        decreases s.len() - i,
    {
        if !byte_is_alpha(s[i]) {
            return false;
        }
        i += 1;
    }
    true
}

/// Whether every byte of `s` is an ASCII digit.
pub fn bytes_all_digit(s: &[u8]) -> (r: bool)
    ensures
        r == all_digit(s@),
{
    let mut i: usize = 0;
    while i < s.len()
        invariant
            i <= s.len(),
            forall|j: int| 0 <= j < i ==> is_digit(#[trigger] s@[j]),
        decreases s.len() - i,
    {
        if !byte_is_digit(s[i]) {
            return false;
        }
        i += 1;
    }
    true
}

/// Whether `a` and `b` hold the same bytes.
pub fn bytes_eq(a: &[u8], b: &[u8]) -> (r: bool)
    ensures
        r == (a@ == b@),
{
    if a.len() != b.len() {
        return false;
    }
    let mut i: usize = 0;
    while i < a.len()
        invariant
            i <= a.len(),
            a.len() == b.len(),
            forall|j: int| 0 <= j < i ==> a@[j] == b@[j],
        decreases a.len() - i,
    {
        if a[i] != b[i] {
            return false;
        }
        i += 1;
    }
    assert(a@ =~= b@);
    true
}

/// `String::from_utf8`: the text that `bytes` encode in UTF-8, or nothing
/// where they are not a valid encoding.
#[verifier::external_body]
fn string_from_utf8(bytes: Vec<u8>) -> (r: Option<String>)
    ensures
        r is Some <==> valid_utf8(bytes@),
        r matches Some(s) ==> s@ == decode_utf8(bytes@),
{
    String::from_utf8(bytes).ok()
}

/// The string whose characters are the ASCII bytes `bytes`.
pub fn string_of_ascii(bytes: Vec<u8>) -> (s: String)
    requires
        all_ascii(bytes@),
    ensures
        s@ == to_chars(bytes@),
        is_ascii_chars(s@),
{
    proof {
        lemma_bytes_chars(bytes@);
    }
    match string_from_utf8(bytes) {
        Some(s) => s,
        None => String::new(),
    }
}

/// The bytes of `s`, where `s` is ASCII.
pub fn ascii_bytes_of(s: &str) -> (b: &[u8])
    requires
        is_ascii_chars(s@),
    ensures
        b@ == to_bytes(s@),
        all_ascii(b@),
{
    proof {
        lemma_chars_bytes(s@);
    }
    s.as_bytes()
}

/// `a` comes before `b` in the lexicographic order of bytes.
pub open spec fn lex_lt(a: Seq<u8>, b: Seq<u8>) -> bool
    decreases a.len(),
{
    if b.len() == 0 {
        false
    } else if a.len() == 0 {
        true
    } else if a[0] != b[0] {
        a[0] < b[0]
    } else {
        lex_lt(a.skip(1), b.skip(1))
    }
}

/// Nothing comes before itself.
pub proof fn lemma_lex_irreflexive(a: Seq<u8>)
    ensures
        !lex_lt(a, a),
    decreases a.len(),
{
    if a.len() > 0 {
        lemma_lex_irreflexive(a.skip(1));
    }
}

/// What comes before something that comes before a third comes before the
/// third.
pub proof fn lemma_lex_transitive(a: Seq<u8>, b: Seq<u8>, c: Seq<u8>)
    requires
        lex_lt(a, b),
        lex_lt(b, c),
    ensures
        lex_lt(a, c),
    decreases a.len(),
{
    if a.len() > 0 && b.len() > 0 && c.len() > 0 {
        if a[0] == b[0] && b[0] == c[0] {
            lemma_lex_transitive(a.skip(1), b.skip(1), c.skip(1));
        }
    }
}

/// Of two different texts, one comes before the other.
pub proof fn lemma_lex_total(a: Seq<u8>, b: Seq<u8>)
    ensures
        lex_lt(a, b) || a == b || lex_lt(b, a),
    decreases a.len(),
{
    if a.len() > 0 && b.len() > 0 {
        if a[0] == b[0] {
            lemma_lex_total(a.skip(1), b.skip(1));
            if a.skip(1) == b.skip(1) {
                assert(a =~= seq![a[0]] + a.skip(1));
                assert(b =~= seq![b[0]] + b.skip(1));
            }
        }
    } else if a.len() == 0 && b.len() == 0 {
        assert(a =~= b);
    }
}

/// Whether `a` comes before `b` in the lexicographic order of bytes.
pub fn bytes_lt(a: &[u8], b: &[u8]) -> (r: bool)
    ensures
        r == lex_lt(a@, b@),
{
    let mut i: usize = 0;
    proof {
        assert(a@.skip(0) =~= a@);
        assert(b@.skip(0) =~= b@);
    }
    while i < a.len() && i < b.len()
        invariant
            i <= a.len(),
            i <= b.len(),
            lex_lt(a@, b@) == lex_lt(a@.skip(i as int), b@.skip(i as int)),
        decreases a.len() - i,
    {
        proof {
            assert(a@.skip(i as int).skip(1) =~= a@.skip(i + 1));
            assert(b@.skip(i as int).skip(1) =~= b@.skip(i + 1));
            assert(a@.skip(i as int)[0] == a@[i as int]);
            assert(b@.skip(i as int)[0] == b@[i as int]);
        }
        if a[i] != b[i] {
            return a[i] < b[i];
        }
        i += 1;
    }
    i < b.len()
}

/// Whether the texts `a` and `b` are the same.
pub fn str_is(a: &str, b: &str) -> (r: bool)
    ensures
        r == (a@ == b@),
{
    proof {
        encode_utf8_decode_utf8(a@);
        encode_utf8_decode_utf8(b@);
    }
    bytes_eq(a.as_bytes(), b.as_bytes())
}

/// Appends the bytes `t` to `out`.
pub fn append_bytes(out: &mut Vec<u8>, t: &[u8])
    ensures
        final(out)@ == old(out)@ + t@,
{
    let mut i: usize = 0;
    while i < t.len()
        invariant
            i <= t.len(),
            out@ == old(out)@ + t@.subrange(0, i as int),
        decreases t.len() - i,
    {
        out.push(t[i]);
        assert(out@ =~= old(out)@ + t@.subrange(0, i + 1));
        i += 1;
    }
    assert(t@.subrange(0, t.len() as int) =~= t@);
}

} // verus!
