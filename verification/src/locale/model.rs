//! The mathematical model of a locale identifier.
//!
//! A subtag is a sequence of ASCII bytes. The model of an identifier holds
//! its subtags in canonical case; the contracts of the parser, the
//! serializer, the expander and the negotiation are stated over it.

use vstd::prelude::*;
use crate::ascii::{all_alpha, all_ascii, all_digit, is_alpha, is_digit, lex_lt, lowercase};

verus! {

/// The byte `-`.
pub const HYPHEN: u8 = 0x2d;

/// The byte `_`.
pub const UNDERSCORE: u8 = 0x5f;

/// The singleton that opens the private-use subtags, `x`.
pub const PRIVATE_USE: u8 = 0x78;

/// The singleton of the Unicode extension, `u`.
pub const UNICODE: u8 = 0x75;

/// `b` separates two subtags.
pub open spec fn is_separator(b: u8) -> bool {
    b == HYPHEN || b == UNDERSCORE
}

/// No byte of `s` separates subtags.
pub open spec fn no_separator(s: Seq<u8>) -> bool {
    forall|i: int| 0 <= i < s.len() ==> !is_separator(#[trigger] s[i])
}

/// `b` is a lower-case ASCII letter.
pub open spec fn is_lower_alpha(b: u8) -> bool {
    0x61 <= b && b <= 0x7a
}

/// `b` is an upper-case ASCII letter.
pub open spec fn is_upper_alpha(b: u8) -> bool {
    0x41 <= b && b <= 0x5a
}

/// The subtag `und`, which stands for an undetermined language.
pub open spec fn und() -> Seq<u8> {
    seq![0x75u8, 0x6eu8, 0x64u8]
}

/// A canonical language subtag: two or three lower-case letters other than
/// `und`.
pub open spec fn is_language(s: Seq<u8>) -> bool {
    &&& 2 <= s.len() <= 3
    &&& forall|i: int| 0 <= i < s.len() ==> is_lower_alpha(#[trigger] s[i])
    &&& s != und()
}

/// A canonical script subtag: four letters, the first in upper case and the
/// others in lower case.
pub open spec fn is_script(s: Seq<u8>) -> bool {
    &&& s.len() == 4
    &&& is_upper_alpha(s[0])
    &&& forall|i: int| 1 <= i < s.len() ==> is_lower_alpha(#[trigger] s[i])
}

/// A canonical region subtag: two upper-case letters or three digits.
pub open spec fn is_region(s: Seq<u8>) -> bool {
    ||| s.len() == 2 && forall|i: int| 0 <= i < s.len() ==> is_upper_alpha(#[trigger] s[i])
    ||| s.len() == 3 && all_digit(s)
}

/// A subtag as the input may hold it: one to eight ASCII bytes, none of
/// them a separator.
pub open spec fn is_subtag(s: Seq<u8>) -> bool {
    &&& 1 <= s.len() <= 8
    &&& all_ascii(s)
    &&& no_separator(s)
}

/// The shape of a script subtag in any case: four letters.
pub open spec fn script_shape(s: Seq<u8>) -> bool {
    s.len() == 4 && all_alpha(s)
}

/// The shape of a region subtag in any case: two letters or three digits.
pub open spec fn region_shape(s: Seq<u8>) -> bool {
    (s.len() == 2 && all_alpha(s)) || (s.len() == 3 && all_digit(s))
}

/// The shape of an extended language subtag: three letters.
pub open spec fn extlang_shape(s: Seq<u8>) -> bool {
    s.len() == 3 && all_alpha(s)
}

/// The shape of a variant subtag: at least four bytes of which the first is
/// a letter, or at least five of which the first is a digit.
pub open spec fn variant_shape(s: Seq<u8>) -> bool {
    (s.len() >= 4 && is_alpha(s[0])) || (s.len() >= 5 && is_digit(s[0]))
}

/// A variant subtag as an identifier holds it.
pub open spec fn is_variant(s: Seq<u8>) -> bool {
    is_subtag(s) && variant_shape(s)
}

/// The key of an extension keyword: a subtag in lower case that is no
/// singleton.
pub open spec fn is_ext_key(s: Seq<u8>) -> bool {
    is_subtag(s) && s.len() != 1 && lowercase(s) == s
}

/// The value of an extension keyword: a subtag that is no singleton.
pub open spec fn is_ext_value(s: Seq<u8>) -> bool {
    is_subtag(s) && s.len() != 1
}

/// The singleton of an extension: a lower-case letter other than `x`.
pub open spec fn is_ext_letter(b: u8) -> bool {
    is_lower_alpha(b) && b != PRIVATE_USE
}

/// The keywords `e` are in strictly ascending order of their keys.
pub open spec fn entries_sorted(e: Seq<(Seq<u8>, Seq<u8>)>) -> bool {
    forall|i: int, j: int| 0 <= i < j < e.len() ==> lex_lt(#[trigger] e[i].0, #[trigger] e[j].0)
}

/// One extension of an identifier: its singleton and its keywords.
pub struct ExtensionView {
    /// The singleton, in lower case.
    pub letter: u8,
    /// The keywords, as pairs of key and value, in ascending order of keys.
    pub entries: Seq<(Seq<u8>, Seq<u8>)>,
}

impl ExtensionView {
    /// The singleton is an extension's, and the keywords are well-formed,
    /// sorted and have distinct keys.
    pub open spec fn wf(self) -> bool {
        &&& is_ext_letter(self.letter)
        &&& entries_sorted(self.entries)
        &&& forall|i: int|
            0 <= i < self.entries.len() ==> is_ext_key((#[trigger] self.entries[i]).0)
                && is_ext_value(self.entries[i].1)
    }
}

/// The extensions `e` are in strictly ascending order of their singletons.
pub open spec fn extensions_sorted(e: Seq<ExtensionView>) -> bool {
    forall|i: int, j: int| 0 <= i < j < e.len() ==> (#[trigger] e[i]).letter < (#[trigger] e[j]).letter
}

/// The canonical structured form of a language tag.
pub struct LocaleView {
    /// The primary language, absent where it is undetermined.
    pub language: Option<Seq<u8>>,
    /// The script.
    pub script: Option<Seq<u8>>,
    /// The region.
    pub region: Option<Seq<u8>>,
    /// The variants, in the order in which they were given.
    pub variants: Seq<Seq<u8>>,
    /// The extensions, in ascending order of their singletons.
    pub extensions: Seq<ExtensionView>,
    /// The private-use subtags, in the order in which they were given.
    pub privateuse: Seq<Seq<u8>>,
}

impl LocaleView {
    /// The identifier with every field absent.
    pub open spec fn empty() -> LocaleView {
        LocaleView {
            language: None,
            script: None,
            region: None,
            variants: Seq::empty(),
            extensions: Seq::empty(),
            privateuse: Seq::empty(),
        }
    }

    /// Every field holds subtags of its kind in canonical case, and the
    /// extensions are sorted and have distinct singletons.
    pub open spec fn shaped(self) -> bool {
        &&& self.language matches Some(l) ==> is_language(l)
        &&& self.script matches Some(s) ==> is_script(s)
        &&& self.region matches Some(r) ==> is_region(r)
        &&& forall|i: int| 0 <= i < self.variants.len() ==> is_variant(#[trigger] self.variants[i])
        &&& extensions_sorted(self.extensions)
        &&& forall|i: int| 0 <= i < self.extensions.len() ==> (#[trigger] self.extensions[i]).wf()
        &&& forall|i: int| 0 <= i < self.privateuse.len() ==> is_subtag(#[trigger] self.privateuse[i])
    }

    /// The identifier is well-formed: its fields are shaped as `shaped`
    /// says, and no extension is without keywords.
    pub open spec fn wf(self) -> bool {
        &&& self.shaped()
        &&& forall|i: int|
            0 <= i < self.extensions.len() ==> (#[trigger] self.extensions[i]).entries.len() > 0
    }
}

/// Whether two subtags that may be absent match: an absent one matches
/// anything where its side is read as a range, and otherwise the two must
/// be the same.
pub open spec fn field_matches(
    a: Option<Seq<u8>>,
    b: Option<Seq<u8>>,
    range_a: bool,
    range_b: bool,
) -> bool {
    (range_a && a is None) || (range_b && b is None) || a == b
}

/// Whether two lists of variants match: an empty one matches anything where
/// its side is read as a range, and otherwise the two lists must be the
/// same.
pub open spec fn variants_match(
    a: Seq<Seq<u8>>,
    b: Seq<Seq<u8>>,
    range_a: bool,
    range_b: bool,
) -> bool {
    (range_a && a.len() == 0) || (range_b && b.len() == 0) || a == b
}

impl LocaleView {
    /// Whether the language, the script, the region and the variants of
    /// `self` match those of `other`, field by field. `range_self` and
    /// `range_other` say on which side an absent field matches anything.
    pub open spec fn fields_match(self, other: LocaleView, range_self: bool, range_other: bool) -> bool {
        &&& field_matches(self.language, other.language, range_self, range_other)
        &&& field_matches(self.script, other.script, range_self, range_other)
        &&& field_matches(self.region, other.region, range_self, range_other)
        &&& variants_match(self.variants, other.variants, range_self, range_other)
    }

    /// Whether `self` matches `other`: neither has private-use subtags, and
    /// their fields match.
    pub open spec fn matches(self, other: LocaleView, range_self: bool, range_other: bool) -> bool {
        &&& self.privateuse.len() == 0
        &&& other.privateuse.len() == 0
        &&& self.fields_match(other, range_self, range_other)
    }
}

} // verus!
