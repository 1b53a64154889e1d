//! The grammar of language tags, and the parser that reads them.
//!
//! A tag is a sequence of subtags, separated by `-` or `_`. The parser reads
//! the subtags from left to right in a single pass. What it does with one
//! subtag depends only on the state that the subtags before it have left:
//! `step` says what, and `parse_from` threads the state through the tag.

use vstd::prelude::*;
use vstd::slice::{slice_subrange, slice_to_vec};
use vstd::string::StringSliceAdditionalSpecFns;
use vstd::utf8::is_ascii_chars;
use crate::ascii::{
    all_alpha, all_ascii, all_digit, ascii_bytes_of, byte_is_alpha, byte_is_digit, byte_lower,
    bytes_all_alpha, bytes_all_digit, bytes_eq, bytes_lt, is_alpha, is_digit, lemma_lex_total,
    lemma_lex_transitive, lex_lt, lower, lowercase, str_is, titlecase, to_bytes, upper, uppercase,
};
use crate::locale::{entries_view, extensions_view, subtag_view, texts, Extension, Locale};
use crate::locale::model::{
    entries_sorted, extensions_sorted, extlang_shape, is_ext_key, is_ext_letter, is_ext_value,
    is_language, is_lower_alpha, is_region, is_script, is_separator, is_subtag, is_upper_alpha,
    is_variant, no_separator, region_shape, script_shape, und, variant_shape, ExtensionView,
    LocaleView, HYPHEN, PRIVATE_USE, UNDERSCORE,
};
use crate::locale::tinystr::{lemma_pack_bytes, pack, text_error, TinyStr4};

verus! {

/// Why a language tag was not accepted.
///
/// Neither the parser nor the setters of a locale return `ForbiddenChar` or
/// `TooManyExtlangs`: these are for callers that hold a tag to stricter
/// rules.
#[derive(Clone, Copy, Debug, Eq, PartialEq, Structural)]
pub enum Error {
    /// The same extension subtag is only allowed once in a tag before the private use part.
    DuplicateExtension,
    /// If an extension subtag is present, it must not be empty.
    EmptyExtension,
    /// If the `x` subtag is present, it must not be empty.
    EmptyPrivateUse,
    /// The langtag contains a char that is not A-Z, a-z, 0-9 or the dash.
    ForbiddenChar,
    /// A subtag fails to parse, it does not match any other subtags.
    InvalidSubtag,
    /// The given language subtag is invalid.
    InvalidLanguage,
    /// A subtag may be eight characters in length at maximum.
    SubtagTooLong,
    /// At maximum three extlangs are allowed, but zero to one extlangs are preferred.
    TooManyExtlangs,
}

/// The language that the subtag `s` names, in canonical case.
pub open spec fn language_of(s: Seq<u8>) -> Result<Seq<u8>, Error> {
    if 2 <= s.len() <= 3 && all_alpha(s) {
        Ok(lowercase(s))
    } else {
        Err(Error::InvalidLanguage)
    }
}

/// The script that the subtag `s` names, in canonical case.
pub open spec fn script_of(s: Seq<u8>) -> Result<Seq<u8>, Error> {
    if script_shape(s) {
        Ok(titlecase(s))
    } else {
        Err(Error::InvalidSubtag)
    }
}

/// The region that the subtag `s` names, in canonical case.
pub open spec fn region_of(s: Seq<u8>) -> Result<Seq<u8>, Error> {
    if region_shape(s) {
        Ok(uppercase(s))
    } else {
        Err(Error::InvalidSubtag)
    }
}

/// The first index at or after `from` at which the extensions `e` hold a
/// singleton that is not below `c`; the length of `e` where there is none.
pub open spec fn extension_point(e: Seq<ExtensionView>, c: u8, from: int) -> int
    decreases e.len() - from,
{
    if from < 0 || from >= e.len() {
        e.len() as int
    } else if e[from].letter < c {
        extension_point(e, c, from + 1)
    } else {
        from
    }
}

/// Whether the extensions `e` hold one with the singleton `c`.
pub open spec fn has_extension(e: Seq<ExtensionView>, c: u8) -> bool {
    exists|i: int| 0 <= i < e.len() && (#[trigger] e[i]).letter == c
}

/// The extensions `e` with an empty one for the singleton `c` put in its
/// place in the order.
pub open spec fn open_extension(e: Seq<ExtensionView>, c: u8) -> Seq<ExtensionView> {
    e.insert(extension_point(e, c, 0), ExtensionView { letter: c, entries: Seq::empty() })
}

/// The first index at or after `from` at which the keywords `e` hold a key
/// that is not before `k`; the length of `e` where there is none.
pub open spec fn entry_point(e: Seq<(Seq<u8>, Seq<u8>)>, k: Seq<u8>, from: int) -> int
    decreases e.len() - from,
{
    if from < 0 || from >= e.len() {
        e.len() as int
    } else if lex_lt(e[from].0, k) {
        entry_point(e, k, from + 1)
    } else {
        from
    }
}

/// The keywords `e` with the value `v` set for the key `k`: in place of the
/// value that `k` had, or as a new keyword in its place in the order.
pub open spec fn insert_entry(e: Seq<(Seq<u8>, Seq<u8>)>, k: Seq<u8>, v: Seq<u8>) -> Seq<
    (Seq<u8>, Seq<u8>),
> {
    let i = entry_point(e, k, 0);
    if i < e.len() && e[i].0 == k {
        e.update(i, (k, v))
    } else {
        e.insert(i, (k, v))
    }
}

/// The extensions `e` with the keyword `k`, `v` set in each extension of the
/// singleton `c`.
pub open spec fn put_keyword(e: Seq<ExtensionView>, c: u8, k: Seq<u8>, v: Seq<u8>) -> Seq<
    ExtensionView,
> {
    Seq::new(
        e.len(),
        |i: int|
            if e[i].letter == c {
                ExtensionView { letter: c, entries: insert_entry(e[i].entries, k, v) }
            } else {
                e[i]
            },
    )
}

/// What the parser knows after some subtags of a tag.
pub struct ParseState {
    /// The identifier read so far.
    pub locale: LocaleView,
    /// How far the subtags before the first singleton have come: 0 before
    /// the language, 1 after it, 3 after the script, 4 after the region or
    /// a variant.
    pub position: int,
    /// The singleton that the parser is under, if it has met one.
    pub extension: Option<u8>,
    /// The key of a keyword whose value is still to come.
    pub pending: Option<Seq<u8>>,
}

/// The state before the first subtag.
pub open spec fn initial() -> ParseState {
    ParseState { locale: LocaleView::empty(), position: 0, extension: None, pending: None }
}

/// Whether the extensions `e` hold one with the singleton `c` that has no
/// keywords.
pub open spec fn has_empty_extension(e: Seq<ExtensionView>, c: u8) -> bool {
    exists|i: int| 0 <= i < e.len() && (#[trigger] e[i]).letter == c && e[i].entries.len() == 0
}

/// Whether the parser is under the singleton of an extension that has no
/// keyword yet.
pub open spec fn unfinished(st: ParseState) -> bool {
    st.extension matches Some(c) && c != PRIVATE_USE && has_empty_extension(st.locale.extensions, c)
}

/// The identifier that the parser has read when the tag ends in the state
/// `st`. An extension must not end without a keyword, nor the private-use
/// subtags without a subtag.
pub open spec fn finish(st: ParseState) -> Result<LocaleView, Error> {
    if unfinished(st) {
        Err(Error::EmptyExtension)
    } else if st.extension == Some(PRIVATE_USE) && st.locale.privateuse.len() == 0 {
        Err(Error::EmptyPrivateUse)
    } else {
        Ok(st.locale)
    }
}

/// The state after the singleton `t`, read in the state `st`.
pub open spec fn step_singleton(st: ParseState, t: Seq<u8>) -> Result<ParseState, Error> {
    let c = lower(t[0]);
    if !is_alpha(t[0]) {
        Err(Error::InvalidSubtag)
    } else if unfinished(st) {
        Err(Error::EmptyExtension)
    } else if c == PRIVATE_USE {
        Ok(ParseState { extension: Some(c), pending: None, ..st })
    } else if has_extension(st.locale.extensions, c) {
        Err(Error::DuplicateExtension)
    } else {
        Ok(
            ParseState {
                locale: LocaleView {
                    extensions: open_extension(st.locale.extensions, c),
                    ..st.locale
                },
                extension: Some(c),
                pending: None,
                ..st
            },
        )
    }
}

/// The state after the subtag `t`, which is no singleton, read in the state
/// `st` before any singleton.
pub open spec fn step_main(st: ParseState, t: Seq<u8>) -> Result<ParseState, Error> {
    if st.position == 0 {
        match language_of(t) {
            Ok(l) => Ok(
                ParseState {
                    locale: LocaleView {
                        language: if l == und() {
                            None
                        } else {
                            Some(l)
                        },
                        ..st.locale
                    },
                    position: 1,
                    ..st
                },
            ),
            Err(e) => Err(e),
        }
    } else if st.position == 1 && extlang_shape(t) {
        Ok(st)
    } else if st.position <= 2 && script_shape(t) {
        Ok(
            ParseState {
                locale: LocaleView { script: Some(titlecase(t)), ..st.locale },
                position: 3,
                ..st
            },
        )
    } else if st.position <= 3 && region_shape(t) {
        Ok(
            ParseState {
                locale: LocaleView { region: Some(uppercase(t)), ..st.locale },
                position: 4,
                ..st
            },
        )
    } else if st.position <= 4 && variant_shape(t) {
        Ok(
            ParseState {
                locale: LocaleView { variants: st.locale.variants.push(t), ..st.locale },
                position: 4,
                ..st
            },
        )
    } else {
        Err(Error::InvalidSubtag)
    }
}

/// The state after the subtag `t`, read in the state `st`.
pub open spec fn step(st: ParseState, t: Seq<u8>) -> Result<ParseState, Error> {
    if t.len() > 8 {
        Err(Error::SubtagTooLong)
    } else {
        match st.extension {
            Some(c) => {
                if t.len() == 0 {
                    Err(Error::InvalidSubtag)
                } else if c == PRIVATE_USE {
                    Ok(
                        ParseState {
                            locale: LocaleView {
                                privateuse: st.locale.privateuse.push(t),
                                ..st.locale
                            },
                            ..st
                        },
                    )
                } else if t.len() == 1 {
                    step_singleton(st, t)
                } else {
                    match st.pending {
                        Some(k) => Ok(
                            ParseState {
                                locale: LocaleView {
                                    extensions: put_keyword(st.locale.extensions, c, k, t),
                                    ..st.locale
                                },
                                pending: None,
                                ..st
                            },
                        ),
                        None => Ok(ParseState { pending: Some(lowercase(t)), ..st }),
                    }
                }
            },
            None => {
                if t.len() == 1 {
                    step_singleton(st, t)
                } else {
                    step_main(st, t)
                }
            },
        }
    }
}

/// The number of bytes of `s` from `from` on that stand before the next
/// separator.
pub open spec fn run(s: Seq<u8>, from: int) -> nat
    decreases s.len() - from,
{
    if from < 0 || from >= s.len() || is_separator(s[from]) {
        0
    } else {
        1 + run(s, from + 1)
    }
}

/// The state after the subtags of `s` from `from` on, read in the state
/// `st`, or the error of the first subtag that is not accepted.
pub open spec fn parse_from(st: ParseState, s: Seq<u8>, from: int) -> Result<ParseState, Error>
    decreases s.len() - from,
{
    let end = from + run(s, from);
    match step(st, s.subrange(from, end)) {
        Err(e) => Err(e),
        Ok(next) => if from < 0 || end >= s.len() {
            Ok(next)
        } else {
            parse_from(next, s, end + 1)
        },
    }
}

/// The identifier that the ASCII bytes `s` spell, or why they spell none.
pub open spec fn parse_bytes(s: Seq<u8>) -> Result<LocaleView, Error> {
    if s.len() == 0 {
        Ok(LocaleView::empty())
    } else {
        match parse_from(initial(), s, 0) {
            Ok(st) => finish(st),
            Err(e) => Err(e),
        }
    }
}

/// The identifier that the text `t` spells, or why it spells none.
pub open spec fn parse(t: Seq<char>) -> Result<LocaleView, Error> {
    if !is_ascii_chars(t) {
        Err(Error::InvalidLanguage)
    } else {
        parse_bytes(to_bytes(t))
    }
}

impl ParseState {
    /// The identifier read so far is shaped well, the parser is under a
    /// singleton only if the identifier holds its extension, and no other
    /// extension is without keywords.
    pub open spec fn wf(self) -> bool {
        &&& self.locale.shaped()
        &&& 0 <= self.position <= 4
        &&& self.extension matches Some(c) ==> c == PRIVATE_USE || (is_ext_letter(c)
            && has_extension(self.locale.extensions, c))
        &&& self.pending matches Some(k) ==> is_ext_key(k)
        &&& forall|i: int|
            0 <= i < self.locale.extensions.len() ==> (#[trigger] self.locale.extensions[i]).entries.len()
                > 0 || self.extension == Some(self.locale.extensions[i].letter)
    }
}

/// Where `extension_point` stops: after the singletons below `c`, and
/// before one that is not.
pub proof fn lemma_extension_point(e: Seq<ExtensionView>, c: u8, from: int)
    requires
        0 <= from <= e.len(),
    ensures
        from <= extension_point(e, c, from) <= e.len(),
        forall|j: int| from <= j < extension_point(e, c, from) ==> (#[trigger] e[j]).letter < c,
        extension_point(e, c, from) < e.len() ==> e[extension_point(e, c, from)].letter >= c,
    decreases e.len() - from,
{
    if from < e.len() && e[from].letter < c {
        lemma_extension_point(e, c, from + 1);
    }
}

/// Opening an extension keeps the extensions sorted and well-formed, and
/// adds its singleton to theirs.
pub proof fn lemma_open_extension(e: Seq<ExtensionView>, c: u8)
    requires
        extensions_sorted(e),
        forall|i: int| 0 <= i < e.len() ==> (#[trigger] e[i]).wf(),
        !has_extension(e, c),
        is_ext_letter(c),
    ensures
        extensions_sorted(open_extension(e, c)),
        forall|i: int|
            0 <= i < open_extension(e, c).len() ==> (#[trigger] open_extension(e, c)[i]).wf(),
        forall|d: u8| has_extension(open_extension(e, c), d) <==> (d == c || has_extension(e, d)),
        forall|i: int|
            0 <= i < open_extension(e, c).len() ==> (#[trigger] open_extension(e, c)[i]).letter == c
                || e.contains(open_extension(e, c)[i]),
{
    let p = extension_point(e, c, 0);
    let n = ExtensionView { letter: c, entries: Seq::empty() };
    let r = open_extension(e, c);
    lemma_extension_point(e, c, 0);
    assert(n.wf());
    assert forall|i: int, j: int| 0 <= i < j < r.len() implies (#[trigger] r[i]).letter < (
    #[trigger] r[j]).letter by {
        if j == p {
            assert(r[i] == e[i]);
        } else if i == p {
            assert(r[j] == e[j - 1]);
            assert(e[p].letter >= c);
            assert(e[p].letter != c);
            if j - 1 > p {
                assert(e[p].letter < e[j - 1].letter);
            }
        } else {
            let i0 = if i < p { i } else { i - 1 };
            let j0 = if j < p { j } else { j - 1 };
            assert(r[i] == e[i0] && r[j] == e[j0]);
        }
    }
    assert forall|i: int| 0 <= i < r.len() implies (#[trigger] r[i]).wf() by {
        if i < p {
            assert(r[i] == e[i]);
        } else if i > p {
            assert(r[i] == e[i - 1]);
        }
    }
    assert forall|i: int| 0 <= i < r.len() implies (#[trigger] r[i]).letter == c || e.contains(
        r[i],
    ) by {
        if i < p {
            assert(r[i] == e[i]);
        } else if i > p {
            assert(r[i] == e[i - 1]);
        }
    }
    assert forall|d: u8| has_extension(r, d) <==> (d == c || has_extension(e, d)) by {
        if has_extension(r, d) {
            let i = choose|i: int| 0 <= i < r.len() && (#[trigger] r[i]).letter == d;
            if i < p {
                assert(e[i].letter == d);
            } else if i > p {
                assert(e[i - 1].letter == d);
            }
        }
        if d == c {
            assert(r[p].letter == c);
        }
        if has_extension(e, d) {
            let i = choose|i: int| 0 <= i < e.len() && (#[trigger] e[i]).letter == d;
            if i < p {
                assert(r[i].letter == d);
            } else {
                assert(r[i + 1].letter == d);
            }
        }
    }
}

/// Where `entry_point` stops: after the keys before `k`, and before one
/// that is not.
pub proof fn lemma_entry_point(e: Seq<(Seq<u8>, Seq<u8>)>, k: Seq<u8>, from: int)
    requires
        0 <= from <= e.len(),
    ensures
        from <= entry_point(e, k, from) <= e.len(),
        forall|j: int| from <= j < entry_point(e, k, from) ==> lex_lt((#[trigger] e[j]).0, k),
        entry_point(e, k, from) < e.len() ==> !lex_lt(e[entry_point(e, k, from)].0, k),
    decreases e.len() - from,
{
    if from < e.len() && lex_lt(e[from].0, k) {
        lemma_entry_point(e, k, from + 1);
    }
}

/// The keywords `e` are well-formed.
pub open spec fn entries_valid(e: Seq<(Seq<u8>, Seq<u8>)>) -> bool {
    forall|i: int| 0 <= i < e.len() ==> is_ext_key((#[trigger] e[i]).0) && is_ext_value(e[i].1)
}

/// Setting a keyword keeps the keywords sorted and well-formed.
pub proof fn lemma_insert_entry(e: Seq<(Seq<u8>, Seq<u8>)>, k: Seq<u8>, v: Seq<u8>)
    requires
        entries_sorted(e),
        entries_valid(e),
        is_ext_key(k),
        is_ext_value(v),
    ensures
        entries_sorted(insert_entry(e, k, v)),
        entries_valid(insert_entry(e, k, v)),
        insert_entry(e, k, v).len() > 0,
{
    let p = entry_point(e, k, 0);
    let r = insert_entry(e, k, v);
    lemma_entry_point(e, k, 0);
    if p < e.len() && e[p].0 == k {
        assert forall|i: int, j: int| 0 <= i < j < r.len() implies lex_lt(
            #[trigger] r[i].0,
            #[trigger] r[j].0,
        ) by {
            assert(r[i].0 == e[i].0 && r[j].0 == e[j].0);
        }
        assert forall|i: int| 0 <= i < r.len() implies is_ext_key((#[trigger] r[i]).0)
            && is_ext_value(r[i].1) by {
            if i != p {
                assert(r[i] == e[i]);
            }
        }
    } else {
        assert forall|i: int, j: int| 0 <= i < j < r.len() implies lex_lt(
            #[trigger] r[i].0,
            #[trigger] r[j].0,
        ) by {
            if j == p {
                assert(r[i] == e[i]);
            } else if i == p {
                assert(r[j] == e[j - 1]);
                lemma_lex_total(e[p].0, k);
                if j - 1 > p {
                    assert(lex_lt(e[p].0, e[j - 1].0));
                    lemma_lex_transitive(k, e[p].0, e[j - 1].0);
                }
            } else {
                let i0 = if i < p { i } else { i - 1 };
                let j0 = if j < p { j } else { j - 1 };
                assert(r[i] == e[i0] && r[j] == e[j0]);
            }
        }
        assert forall|i: int| 0 <= i < r.len() implies is_ext_key((#[trigger] r[i]).0)
            && is_ext_value(r[i].1) by {
            if i < p {
                assert(r[i] == e[i]);
            } else if i > p {
                assert(r[i] == e[i - 1]);
            }
        }
    }
}

/// Setting a keyword of an extension keeps the extensions sorted and
/// well-formed, and leaves their singletons as they are.
pub proof fn lemma_put_keyword(e: Seq<ExtensionView>, c: u8, k: Seq<u8>, v: Seq<u8>)
    requires
        extensions_sorted(e),
        forall|i: int| 0 <= i < e.len() ==> (#[trigger] e[i]).wf(),
        is_ext_key(k),
        is_ext_value(v),
    ensures
        extensions_sorted(put_keyword(e, c, k, v)),
        forall|i: int|
            0 <= i < put_keyword(e, c, k, v).len() ==> (#[trigger] put_keyword(e, c, k, v)[i]).wf(),
        forall|d: u8| has_extension(put_keyword(e, c, k, v), d) <==> has_extension(e, d),
        put_keyword(e, c, k, v).len() == e.len(),
        forall|i: int|
            0 <= i < e.len() ==> (#[trigger] put_keyword(e, c, k, v)[i]).letter == e[i].letter && (if e[i].letter
                == c {
                put_keyword(e, c, k, v)[i].entries.len() > 0
            } else {
                put_keyword(e, c, k, v)[i] == e[i]
            }),
{
    let r = put_keyword(e, c, k, v);
    assert forall|i: int| 0 <= i < r.len() implies (#[trigger] r[i]).wf() && r[i].letter
        == e[i].letter && (if e[i].letter == c {
        r[i].entries.len() > 0
    } else {
        r[i] == e[i]
    }) by {
        assert(e[i].wf());
        if e[i].letter == c {
            lemma_insert_entry(e[i].entries, k, v);
        }
    }
    assert forall|i: int, j: int| 0 <= i < j < r.len() implies (#[trigger] r[i]).letter < (
    #[trigger] r[j]).letter by {
        assert(e[i].letter < e[j].letter);
    }
    assert forall|d: u8| has_extension(r, d) <==> has_extension(e, d) by {
        if has_extension(r, d) {
            let i = choose|i: int| 0 <= i < r.len() && (#[trigger] r[i]).letter == d;
            assert(e[i].letter == d);
        }
        if has_extension(e, d) {
            let i = choose|i: int| 0 <= i < e.len() && (#[trigger] e[i]).letter == d;
            assert(r[i].letter == d);
        }
    }
}

/// What the case mappings make of subtags of each shape.
pub proof fn lemma_canonical_case(t: Seq<u8>)
    requires
        all_ascii(t),
        no_separator(t),
        t.len() <= 8,
    ensures
        language_of(t) matches Ok(l) ==> (l != und() ==> is_language(l)),
        script_shape(t) ==> is_script(titlecase(t)),
        region_shape(t) ==> is_region(uppercase(t)),
        t.len() > 0 ==> is_subtag(lowercase(t)) && is_subtag(t),
        lowercase(lowercase(t)) == lowercase(t),
{
    if 2 <= t.len() <= 3 && all_alpha(t) {
        let l = lowercase(t);
        assert forall|i: int| 0 <= i < l.len() implies is_lower_alpha(#[trigger] l[i]) by {
            assert(is_alpha(t[i]));
        }
    }
    if script_shape(t) {
        let s = titlecase(t);
        assert(is_alpha(t[0]));
        assert forall|i: int| 1 <= i < s.len() implies is_lower_alpha(#[trigger] s[i]) by {
            assert(is_alpha(t[i]));
        }
    }
    if region_shape(t) {
        let r = uppercase(t);
        if t.len() == 2 {
            assert forall|i: int| 0 <= i < r.len() implies is_upper_alpha(#[trigger] r[i]) by {
                assert(is_alpha(t[i]));
            }
        } else {
            assert forall|i: int| 0 <= i < r.len() implies is_digit(#[trigger] r[i]) by {
                assert(is_digit(t[i]));
            }
        }
    }
    let l = lowercase(t);
    assert forall|i: int| 0 <= i < l.len() implies !is_separator(#[trigger] l[i]) by {
        assert(!is_separator(t[i]));
    }
    assert(lowercase(l) =~= l);
}

/// In a sorted list of extensions, the one with a given singleton has
/// keywords unless the list holds an empty one with that singleton.
proof fn lemma_unique_extension(e: Seq<ExtensionView>, c: u8, i: int)
    requires
        extensions_sorted(e),
        0 <= i < e.len(),
        e[i].letter == c,
        !has_empty_extension(e, c),
    ensures
        e[i].entries.len() > 0,
{
}

/// A step from a well-formed state leads to a well-formed state.
pub proof fn lemma_step_wf(st: ParseState, t: Seq<u8>)
    requires
        st.wf(),
        all_ascii(t),
        no_separator(t),
    ensures
        step(st, t) matches Ok(next) ==> next.wf(),
{
    if t.len() <= 8 {
        lemma_canonical_case(t);
        let exts = st.locale.extensions;
        let single = t.len() == 1 && (st.extension matches Some(c) ==> c != PRIVATE_USE);
        if single {
            let c = lower(t[0]);
            if is_alpha(t[0]) && !unfinished(st) {
                assert forall|i: int| 0 <= i < exts.len() implies (#[trigger] exts[i]).entries.len()
                    > 0 by {
                    if st.extension == Some(exts[i].letter) {
                        lemma_unique_extension(exts, exts[i].letter, i);
                    }
                }
                if c != PRIVATE_USE && !has_extension(exts, c) {
                    lemma_open_extension(exts, c);
                    let opened = open_extension(exts, c);
                    assert forall|i: int| 0 <= i < opened.len() implies (
                    #[trigger] opened[i]).entries.len() > 0 || opened[i].letter == c by {
                        if opened[i].letter != c {
                            assert(exts.contains(opened[i]));
                        }
                    }
                }
            }
        } else if t.len() > 0 || st.extension is None {
            match st.extension {
                Some(c) => {
                    if c == PRIVATE_USE {
                        let p = st.locale.privateuse.push(t);
                        assert forall|i: int| 0 <= i < p.len() implies is_subtag(#[trigger] p[i]) by {
                            if i < st.locale.privateuse.len() {
                                assert(p[i] == st.locale.privateuse[i]);
                            }
                        }
                    } else if st.pending is Some {
                        lemma_put_keyword(exts, c, st.pending->Some_0, t);
                        let put = put_keyword(exts, c, st.pending->Some_0, t);
                        assert forall|i: int| 0 <= i < put.len() implies (
                        #[trigger] put[i]).entries.len() > 0 || Some(put[i].letter)
                            == st.extension by {
                            assert(put[i].letter == exts[i].letter);
                            assert(exts[i].entries.len() > 0 || Some(exts[i].letter)
                                == st.extension);
                        }
                    }
                },
                None => {
                    if st.position >= 1 && !(st.position == 1 && extlang_shape(t)) && !(st.position
                        <= 2 && script_shape(t)) && !(st.position <= 3 && region_shape(t))
                        && variant_shape(t) {
                        let p = st.locale.variants.push(t);
                        assert forall|i: int| 0 <= i < p.len() implies is_variant(#[trigger] p[i]) by {
                            if i < st.locale.variants.len() {
                                assert(p[i] == st.locale.variants[i]);
                            }
                        }
                    }
                },
            }
        }
    }
}

/// An identifier that is read at the end of a tag from a well-formed state
/// is well-formed.
pub proof fn lemma_finish_wf(st: ParseState)
    requires
        st.wf(),
    ensures
        finish(st) matches Ok(l) ==> l.wf(),
{
    if finish(st) is Ok {
        let exts = st.locale.extensions;
        assert forall|i: int| 0 <= i < exts.len() implies (#[trigger] exts[i]).entries.len() > 0 by {
            if st.extension == Some(exts[i].letter) {
                lemma_unique_extension(exts, exts[i].letter, i);
            }
        }
    }
}

/// A subtag that `TinyStr4` refuses for a byte it holds is not made of
/// letters or of digits.
proof fn lemma_refused_text(t: Seq<u8>)
    requires
        1 <= t.len() <= 4,
    ensures
        text_error(t, 4) is Some ==> !all_alpha(t) && !all_digit(t),
{
    if exists|i: int| 0 <= i < t.len() && t[i] >= 0x80 {
        let i = choose|i: int| 0 <= i < t.len() && t[i] >= 0x80;
        assert(!is_alpha(t[i]) && !is_digit(t[i]));
    } else if exists|i: int| 0 <= i < t.len() && t[i] == 0 {
        let i = choose|i: int| 0 <= i < t.len() && t[i] == 0;
        assert(!is_alpha(t[i]) && !is_digit(t[i]));
    }
}

/// The language subtag that the bytes `t` spell, in canonical case.
pub fn language_subtag(t: &[u8]) -> (r: Result<TinyStr4, Error>)
    ensures
        match language_of(t@) {
            Ok(l) => r is Ok && r->Ok_0@ == l,
            Err(e) => r == Err::<TinyStr4, Error>(e),
        },
{
    if t.len() < 2 || t.len() > 3 {
        return Err(Error::InvalidLanguage);
    }
    proof {
        lemma_refused_text(t@);
    }
    match TinyStr4::from_bytes(t) {
        Ok(s) => {
            if s.is_all_ascii_alpha() {
                Ok(s.to_ascii_lowercase())
            } else {
                Err(Error::InvalidLanguage)
            }
        },
        Err(_) => Err(Error::InvalidLanguage),
    }
}

/// The script subtag that the bytes `t` spell, in canonical case.
pub fn script_subtag(t: &[u8]) -> (r: Result<TinyStr4, Error>)
    ensures
        match script_of(t@) {
            Ok(l) => r is Ok && r->Ok_0@ == l,
            Err(e) => r == Err::<TinyStr4, Error>(e),
        },
{
    if t.len() != 4 {
        return Err(Error::InvalidSubtag);
    }
    proof {
        lemma_refused_text(t@);
    }
    match TinyStr4::from_bytes(t) {
        Ok(s) => {
            if s.is_all_ascii_alpha() {
                Ok(s.to_ascii_titlecase())
            } else {
                Err(Error::InvalidSubtag)
            }
        },
        Err(_) => Err(Error::InvalidSubtag),
    }
}

/// The region subtag that the bytes `t` spell, in canonical case.
pub fn region_subtag(t: &[u8]) -> (r: Result<TinyStr4, Error>)
    ensures
        match region_of(t@) {
            Ok(l) => r is Ok && r->Ok_0@ == l,
            Err(e) => r == Err::<TinyStr4, Error>(e),
        },
{
    if t.len() != 2 && t.len() != 3 {
        return Err(Error::InvalidSubtag);
    }
    proof {
        lemma_refused_text(t@);
    }
    match TinyStr4::from_bytes(t) {
        Ok(s) => {
            if t.len() == 2 && s.is_all_ascii_alpha() {
                Ok(s.to_ascii_uppercase())
            } else if t.len() == 3 && bytes_all_digit(t) {
                proof {
                    assert(uppercase(t@) =~= t@) by {
                        assert forall|i: int| 0 <= i < t@.len() implies upper(t@[i]) == t@[i] by {
                            assert(is_digit(t@[i]));
                        }
                    }
                }
                Ok(s)
            } else {
                Err(Error::InvalidSubtag)
            }
        },
        Err(_) => Err(Error::InvalidSubtag),
    }
}

/// The language subtag that `t` spells, in canonical case: `t` must be two
/// or three ASCII letters.
pub fn parse_language_subtag(t: &str) -> (r: Result<TinyStr4, Error>)
    ensures
        match language_of(t.spec_bytes()) {
            Ok(l) => r is Ok && r->Ok_0@ == l,
            Err(e) => r == Err::<TinyStr4, Error>(e),
        },
{
    language_subtag(t.as_bytes())
}

/// The script subtag that `t` spells, in canonical case: `t` must be four
/// ASCII letters.
pub fn parse_script_subtag(t: &str) -> (r: Result<TinyStr4, Error>)
    ensures
        match script_of(t.spec_bytes()) {
            Ok(l) => r is Ok && r->Ok_0@ == l,
            Err(e) => r == Err::<TinyStr4, Error>(e),
        },
{
    script_subtag(t.as_bytes())
}

/// The region subtag that `t` spells, in canonical case: `t` must be two
/// ASCII letters or three ASCII digits.
pub fn parse_region_subtag(t: &str) -> (r: Result<TinyStr4, Error>)
    ensures
        match region_of(t.spec_bytes()) {
            Ok(l) => r is Ok && r->Ok_0@ == l,
            Err(e) => r == Err::<TinyStr4, Error>(e),
        },
{
    region_subtag(t.as_bytes())
}

/// The keywords `entries` with the value `v` set for the key `k`.
pub(crate) fn set_keyword(entries: &mut Vec<(Vec<u8>, Vec<u8>)>, k: Vec<u8>, v: Vec<u8>)
    ensures
        entries_view(final(entries)@) == insert_entry(entries_view(old(entries)@), k@, v@),
{
    let ghost before = entries_view(entries@);
    let mut i: usize = 0;
    while i < entries.len()
        invariant
            i <= entries.len(),
            *entries == *old(entries),
            before == entries_view(entries@),
            entry_point(before, k@, 0) == entry_point(before, k@, i as int),
        ensures
            i <= entries.len(),
            *entries == *old(entries),
            i == entry_point(before, k@, 0),
        decreases entries.len() - i,
    {
        if !bytes_lt(entries[i].0.as_slice(), k.as_slice()) {
            break ;
        }
        i += 1;
    }
    if i < entries.len() && bytes_eq(entries[i].0.as_slice(), k.as_slice()) {
        let _ = entries.remove(i);
        entries.insert(i, (k, v));
        assert(entries_view(entries@) =~= before.update(i as int, (k@, v@)));
    } else {
        entries.insert(i, (k, v));
        assert(entries_view(entries@) =~= before.insert(i as int, (k@, v@)));
    }
}

/// Whether the extensions `e` hold one with the singleton `c`.
pub(crate) fn extensions_have(e: &Vec<Extension>, c: u8) -> (r: bool)
    ensures
        r == has_extension(extensions_view(e@), c),
{
    let mut i: usize = 0;
    while i < e.len()
        invariant
            i <= e.len(),
            forall|j: int| 0 <= j < i ==> e@[j].letter != c,
        decreases e.len() - i,
    {
        if e[i].letter == c {
            assert(extensions_view(e@)[i as int].letter == c);
            return true;
        }
        i += 1;
    }
    assert forall|j: int| 0 <= j < extensions_view(e@).len() implies (#[trigger] extensions_view(
        e@,
    )[j]).letter != c by {
        assert(e@[j].letter != c);
    }
    false
}

/// Whether the extensions `e` hold one with the singleton `c` that has no
/// keywords.
pub(crate) fn extensions_have_empty(e: &Vec<Extension>, c: u8) -> (r: bool)
    ensures
        r == has_empty_extension(extensions_view(e@), c),
{
    let mut i: usize = 0;
    while i < e.len()
        invariant
            i <= e.len(),
            forall|j: int| 0 <= j < i ==> !(e@[j].letter == c && e@[j].entries@.len() == 0),
        decreases e.len() - i,
    {
        if e[i].letter == c && e[i].entries.len() == 0 {
            assert(extensions_view(e@)[i as int].letter == c);
            assert(extensions_view(e@)[i as int].entries.len() == 0);
            return true;
        }
        i += 1;
    }
    assert forall|j: int| 0 <= j < extensions_view(e@).len() implies !((
    #[trigger] extensions_view(e@)[j]).letter == c && extensions_view(e@)[j].entries.len()
        == 0) by {
        assert(!(e@[j].letter == c && e@[j].entries@.len() == 0));
    }
    false
}

/// Puts an empty extension for the singleton `c` in its place among the
/// extensions `e`.
pub(crate) fn extensions_open(e: &mut Vec<Extension>, c: u8)
    ensures
        extensions_view(final(e)@) == open_extension(extensions_view(old(e)@), c),
{
    let ghost before = extensions_view(e@);
    let mut i: usize = 0;
    while i < e.len()
        invariant
            i <= e.len(),
            *e == *old(e),
            before == extensions_view(e@),
            extension_point(before, c, 0) == extension_point(before, c, i as int),
        ensures
            i <= e.len(),
            *e == *old(e),
            i == extension_point(before, c, 0),
        decreases e.len() - i,
    {
        if e[i].letter >= c {
            assert(before[i as int].letter >= c);
            break ;
        }
        assert(before[i as int].letter < c);
        i += 1;
    }
    e.insert(i, Extension { letter: c, entries: Vec::new() });
    proof {
        let n = ExtensionView { letter: c, entries: Seq::empty() };
        assert(entries_view(Seq::<(Vec<u8>, Vec<u8>)>::empty()) =~= Seq::empty());
        assert(extensions_view(e@) =~= before.insert(i as int, n));
    }
}

/// Sets the keyword `k`, `v` in the extension of the singleton `c` among
/// the extensions `e`.
pub(crate) fn extensions_put(e: &mut Vec<Extension>, c: u8, k: Vec<u8>, v: Vec<u8>)
    requires
        extensions_sorted(extensions_view(old(e)@)),
        has_extension(extensions_view(old(e)@), c),
    ensures
        extensions_view(final(e)@) == put_keyword(extensions_view(old(e)@), c, k@, v@),
{
    let ghost before = extensions_view(e@);
    let mut i: usize = 0;
    while i < e.len()
        invariant
            i <= e.len(),
            *e == *old(e),
            forall|j: int| 0 <= j < i ==> e@[j].letter != c,
        ensures
            i <= e.len(),
            *e == *old(e),
            forall|j: int| 0 <= j < i ==> e@[j].letter != c,
            i < e.len() ==> e@[i as int].letter == c,
        decreases e.len() - i,
    {
        if e[i].letter == c {
            break ;
        }
        i += 1;
    }
    proof {
        let w = choose|w: int| 0 <= w < before.len() && (#[trigger] before[w]).letter == c;
        assert(e@[w].letter == c);
    }
    let mut ext = e.remove(i);
    set_keyword(&mut ext.entries, k, v);
    e.insert(i, ext);
    proof {
        let after = extensions_view(e@);
        let want = put_keyword(before, c, k@, v@);
        assert forall|j: int| 0 <= j < before.len() implies after[j] == want[j] by {
            if j != i {
                assert(before[j].letter != before[i as int].letter);
            }
        }
        assert(after =~= want);
    }
}

/// What the parser holds between two subtags.
struct Parser {
    language: Option<TinyStr4>,
    script: Option<TinyStr4>,
    region: Option<TinyStr4>,
    variants: Vec<Vec<u8>>,
    extensions: Vec<Extension>,
    privateuse: Vec<Vec<u8>>,
    position: u8,
    extension: Option<u8>,
    pending: Option<Vec<u8>>,
}

impl View for Parser {
    type V = ParseState;

    closed spec fn view(&self) -> ParseState {
        ParseState {
            locale: LocaleView {
                language: subtag_view(self.language),
                script: subtag_view(self.script),
                region: subtag_view(self.region),
                variants: texts(self.variants@),
                extensions: extensions_view(self.extensions@),
                privateuse: texts(self.privateuse@),
            },
            position: self.position as int,
            extension: self.extension,
            pending: match self.pending {
                Some(k) => Some(k@),
                None => None,
            },
        }
    }
}

impl Parser {
    /// The parser before the first subtag.
    fn new() -> (p: Parser)
        ensures
            p@ == initial(),
            p@.wf(),
    {
        let p = Parser {
            language: None,
            script: None,
            region: None,
            variants: Vec::new(),
            extensions: Vec::new(),
            privateuse: Vec::new(),
            position: 0,
            extension: None,
            pending: None,
        };
        assert(p@.locale.variants =~= Seq::empty());
        assert(p@.locale.extensions =~= Seq::empty());
        assert(p@.locale.privateuse =~= Seq::empty());
        p
    }

    /// Whether the parser is under the singleton of an extension that has
    /// no keyword yet.
    fn unfinished(&self) -> (r: bool)
        ensures
            r == unfinished(self@),
    {
        match self.extension {
            Some(c) => c != PRIVATE_USE && extensions_have_empty(&self.extensions, c),
            None => false,
        }
    }

    /// The locale that the parser has read, at the end of the tag.
    fn finish(self) -> (r: Result<Locale, Error>)
        requires
            self@.wf(),
        ensures
            match finish(self@) {
                Ok(l) => r is Ok && r->Ok_0@ == l,
                Err(e) => r is Err && r->Err_0 == e,
            },
    {
        proof {
            lemma_finish_wf(self@);
        }
        if self.unfinished() {
            return Err(Error::EmptyExtension);
        }
        if self.privateuse.len() == 0 {
            if let Some(c) = self.extension {
                if c == PRIVATE_USE {
                    return Err(Error::EmptyPrivateUse);
                }
            }
        }
        Ok(self.into_locale())
    }

    /// The locale that holds what the parser has read.
    fn into_locale(self) -> (r: Locale)
        requires
            self@.locale.wf(),
        ensures
            r@ == self@.locale,
    {
        Locale::from_parts(
            self.language,
            self.script,
            self.region,
            self.variants,
            self.extensions,
            self.privateuse,
        )
    }

    /// Reads the singleton `b`.
    fn singleton(&mut self, b: u8) -> (r: Result<(), Error>)
        ensures
            match step_singleton(old(self)@, seq![b]) {
                Ok(st) => r is Ok && final(self)@ == st,
                Err(e) => r == Err::<(), Error>(e),
            },
    {
        if !byte_is_alpha(b) {
            return Err(Error::InvalidSubtag);
        }
        if self.unfinished() {
            return Err(Error::EmptyExtension);
        }
        let c = byte_lower(b);
        if c == PRIVATE_USE {
            self.extension = Some(c);
            self.pending = None;
            return Ok(());
        }
        if extensions_have(&self.extensions, c) {
            return Err(Error::DuplicateExtension);
        }
        extensions_open(&mut self.extensions, c);
        self.extension = Some(c);
        self.pending = None;
        Ok(())
    }

    /// Reads the subtag `t`.
    fn step(&mut self, t: &[u8]) -> (r: Result<(), Error>)
        requires
            old(self)@.wf(),
            all_ascii(t@),
            no_separator(t@),
        ensures
            match step(old(self)@, t@) {
                Ok(st) => r is Ok && final(self)@ == st && final(self)@.wf(),
                Err(e) => r == Err::<(), Error>(e),
            },
    {
        proof {
            lemma_step_wf(self@, t@);
        }
        if t.len() > 8 {
            return Err(Error::SubtagTooLong);
        }
        match self.extension {
            Some(c) => {
                if t.len() == 0 {
                    Err(Error::InvalidSubtag)
                } else if c == PRIVATE_USE {
                    self.privateuse.push(slice_to_vec(t));
                    assert(self@.locale.privateuse =~= old(self)@.locale.privateuse.push(t@));
                    Ok(())
                } else if t.len() == 1 {
                    assert(t@ =~= seq![t@[0]]);
                    self.singleton(t[0])
                } else {
                    let key: Option<Vec<u8>> = match &self.pending {
                        Some(k) => Some(slice_to_vec(k.as_slice())),
                        None => None,
                    };
                    match key {
                        Some(k) => {
                            self.pending = None;
                            extensions_put(&mut self.extensions, c, k, slice_to_vec(t));
                            Ok(())
                        },
                        None => {
                            self.pending = Some(lowercase_bytes(t));
                            Ok(())
                        },
                    }
                }
            },
            None => {
                if t.len() == 1 {
                    assert(t@ =~= seq![t@[0]]);
                    self.singleton(t[0])
                } else {
                    self.main(t)
                }
            },
        }
    }

    /// Reads the subtag `t`, which is no singleton, before any singleton.
    fn main(&mut self, t: &[u8]) -> (r: Result<(), Error>)
        requires
            old(self)@.position <= 4,
            1 <= t.len() <= 8 || t.len() == 0,
        ensures
            match step_main(old(self)@, t@) {
                Ok(st) => r is Ok && final(self)@ == st,
                Err(e) => r == Err::<(), Error>(e),
            },
    {
        if self.position == 0 {
            match language_subtag(t) {
                Ok(l) => {
                    proof {
                        use_type_invariant(&l);
                        lemma_und_word(l);
                    }
                    if l.word() == UND_WORD {
                        self.language = None;
                    } else {
                        self.language = Some(l);
                    }
                    self.position = 1;
                    Ok(())
                },
                Err(e) => Err(e),
            }
        } else if self.position == 1 && t.len() == 3 && bytes_all_alpha(t) {
            Ok(())
        } else if self.position <= 2 && t.len() == 4 && bytes_all_alpha(t) {
            match script_subtag(t) {
                Ok(s) => {
                    self.script = Some(s);
                    self.position = 3;
                    Ok(())
                },
                Err(e) => Err(e),
            }
        } else if self.position <= 3 && ((t.len() == 2 && bytes_all_alpha(t)) || (t.len() == 3
            && bytes_all_digit(t))) {
            match region_subtag(t) {
                Ok(s) => {
                    self.region = Some(s);
                    self.position = 4;
                    Ok(())
                },
                Err(e) => Err(e),
            }
        } else if (t.len() >= 4 && byte_is_alpha(t[0])) || (t.len() >= 5 && byte_is_digit(t[0])) {
            self.variants.push(slice_to_vec(t));
            self.position = 4;
            assert(self@.locale.variants =~= old(self)@.locale.variants.push(t@));
            Ok(())
        } else {
            Err(Error::InvalidSubtag)
        }
    }
}

/// The word that packs `und`.
pub const UND_WORD: u32 = 0x64_6e75;

/// A tiny string spells `und` exactly when its word is `UND_WORD`.
proof fn lemma_und_word(t: TinyStr4)
    requires
        t.wf(),
    ensures
        t@ == und() <==> t.spec_word() == UND_WORD,
{
    t.lemma_text();
    reveal_with_fuel(pack, 4);
    let u = und();
    assert(u.skip(1) =~= seq![0x6eu8, 0x64u8]);
    assert(u.skip(1).skip(1) =~= seq![0x64u8]);
    assert(u.skip(1).skip(1).skip(1) =~= Seq::<u8>::empty());
    assert(pack(u) == UND_WORD);
    if t.spec_word() == UND_WORD {
        lemma_pack_bytes(u);
    }
}

/// A copy of `t` with each letter in lower case.
pub fn lowercase_bytes(t: &[u8]) -> (r: Vec<u8>)
    ensures
        r@ == lowercase(t@),
{
    let mut r: Vec<u8> = Vec::new();
    let mut i: usize = 0;
    while i < t.len()
        invariant
            i <= t.len(),
            r@ == lowercase(t@.subrange(0, i as int)),
        decreases t.len() - i,
    {
        r.push(byte_lower(t[i]));
        assert(r@ =~= lowercase(t@.subrange(0, i + 1)));
        i += 1;
    }
    assert(t@.subrange(0, t.len() as int) =~= t@);
    r
}

/// The index at which the subtag that starts at `from` ends.
fn subtag_end(b: &[u8], from: usize) -> (end: usize)
    requires
        from <= b.len(),
    ensures
        end == from + run(b@, from as int),
        from <= end <= b.len(),
        no_separator(b@.subrange(from as int, end as int)),
{
    let mut end: usize = from;
    while end < b.len()
        invariant
            from <= end <= b.len(),
            from + run(b@, from as int) == end + run(b@, end as int),
            forall|j: int| from <= j < end ==> !is_separator(#[trigger] b@[j]),
        ensures
            from <= end <= b.len(),
            end == from + run(b@, from as int),
            forall|j: int| from <= j < end ==> !is_separator(#[trigger] b@[j]),
        decreases b.len() - end,
    {
        if b[end] == HYPHEN || b[end] == UNDERSCORE {
            break ;
        }
        end += 1;
    }
    end
}

/// Parses the language tag `t` into a locale, in canonical case.
///
/// The empty tag gives the locale with every field absent. A tag that is not
/// ASCII is refused with `InvalidLanguage`, and any other tag with the error
/// of its first subtag that the grammar does not accept. An extension that
/// ends without a keyword is refused with `EmptyExtension`, and an `x`
/// without a subtag behind it with `EmptyPrivateUse`. Behind the keywords
/// of an extension, a key without a value is dropped. No subtag is empty.
pub fn parse_language_tag(t: &str) -> (r: Result<Locale, Error>)
    ensures
        match parse(t@) {
            Ok(l) => r is Ok && r->Ok_0@ == l,
            Err(e) => r is Err && r->Err_0 == e,
        },
{
    if !t.is_ascii() {
        return Err(Error::InvalidLanguage);
    }
    let b = ascii_bytes_of(t);
    if b.len() == 0 {
        return Ok(Locale::empty());
    }
    let mut p = Parser::new();
    let mut from: usize = 0;
    loop
        invariant
            from <= b.len(),
            b.len() > 0,
            is_ascii_chars(t@),
            b@ == to_bytes(t@),
            all_ascii(b@),
            p@.wf(),
            parse_from(initial(), b@, 0) == parse_from(p@, b@, from as int),
        decreases b.len() - from,
    {
        let end = subtag_end(b, from);
        let sub = slice_subrange(b, from, end);
        match p.step(sub) {
            Ok(()) => {},
            Err(e) => {
                return Err(e);
            },
        }
        if end >= b.len() {
            return p.finish();
        }
        from = end + 1;
    }
}

/// The name of the extension that the singleton `key` opens.
pub fn ext_name_for_key<'a>(key: &'a str) -> (r: &'a str)
    ensures
        r@ == (if key@ == seq!['u'] {
            seq!['u', 'n', 'i', 'c', 'o', 'd', 'e']
        } else {
            key@
        }),
{
    proof {
        reveal_strlit("u");
        reveal_strlit("unicode");
        assert("u"@ =~= seq!['u']);
        assert("unicode"@ =~= seq!['u', 'n', 'i', 'c', 'o', 'd', 'e']);
    }
    if str_is(key, "u") {
        "unicode"
    } else {
        key
    }
}

/// The singleton that opens the extension of the name `key`.
pub fn ext_key_for_name<'a>(key: &'a str) -> (r: &'a str)
    ensures
        r@ == (if key@ == seq!['u', 'n', 'i', 'c', 'o', 'd', 'e'] {
            seq!['u']
        } else {
            key@
        }),
{
    proof {
        reveal_strlit("u");
        reveal_strlit("unicode");
        assert("u"@ =~= seq!['u']);
        assert("unicode"@ =~= seq!['u', 'n', 'i', 'c', 'o', 'd', 'e']);
    }
    if str_is(key, "unicode") {
        "u"
    } else {
        key
    }
}

impl Error {
    /// A sentence that says what the error means.
    pub fn description(&self) -> (r: &'static str)
        ensures
            r@ == self.spec_description()@,
    {
        match *self {
            Error::DuplicateExtension => "The same extension subtag is only allowed once in a tag",
            Error::EmptyExtension => "If an extension subtag is present, it must not be empty",
            Error::EmptyPrivateUse => "If the `x` subtag is present, it must not be empty",
            Error::ForbiddenChar => "The langtag contains a char not allowed",
            Error::InvalidSubtag => "A subtag fails to parse, it does not match any other subtags",
            Error::InvalidLanguage => "The given language subtag is invalid",
            Error::SubtagTooLong => "A subtag may be eight characters in length at maximum",
            Error::TooManyExtlangs => "At maximum three extlangs are allowed",
        }
    }

    /// The sentence that `description` returns.
    pub open spec fn spec_description(&self) -> &'static str {
        match *self {
            Error::DuplicateExtension => "The same extension subtag is only allowed once in a tag",
            Error::EmptyExtension => "If an extension subtag is present, it must not be empty",
            Error::EmptyPrivateUse => "If the `x` subtag is present, it must not be empty",
            Error::ForbiddenChar => "The langtag contains a char not allowed",
            Error::InvalidSubtag => "A subtag fails to parse, it does not match any other subtags",
            Error::InvalidLanguage => "The given language subtag is invalid",
            Error::SubtagTooLong => "A subtag may be eight characters in length at maximum",
            Error::TooManyExtlangs => "At maximum three extlangs are allowed",
        }
    }
}

} // verus!
