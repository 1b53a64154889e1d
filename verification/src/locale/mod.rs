//! A Locale object.
//!
//! Locale object stores information encoded in a language tag and provides
//! methods allowing for parsing, serializing and manipulating locale fields.
//!
//! All data is validated and canonicalized on input, which means that
//! the output is always canonicalized.

pub mod likely_subtags;
pub mod model;
pub mod options;
pub mod parser;
pub mod render;
pub mod round_trip;
pub mod tables;
pub mod tinystr;

use vstd::prelude::*;
use vstd::utf8::encode_utf8_decode_utf8;
use vstd::string::StringSliceAdditionalSpecFns;
use vstd::utf8::encode_utf8;
use vstd::slice::slice_to_vec;
use crate::ascii::{
    all_ascii, append_bytes, byte_is_alpha, byte_is_digit, byte_lower, bytes_eq, is_alpha,
    lemma_bytes_chars, lower, lowercase, str_is, string_of_ascii, to_chars,
};
use crate::locale::likely_subtags::{lemma_pack_und, lemma_word_text};
use crate::locale::model::{
    field_matches, is_ext_key, is_ext_value, is_language, is_region, is_script, is_separator,
    is_subtag, is_variant, und, ExtensionView, LocaleView, HYPHEN, PRIVATE_USE, UNDERSCORE, UNICODE,
};
use crate::locale::options::{
    apply_options, lemma_names, option_key, option_key_for_name, option_name, option_name_for_key,
    option_views, with_options, CA, HC, UNICODE_NAME,
};
use crate::locale::parser::{
    ext_key_for_name, ext_name_for_key, extensions_have, extensions_open, extensions_put,
    has_extension, language_of, lemma_canonical_case, lemma_open_extension, lemma_put_keyword,
    lowercase_bytes, open_extension, parse, parse_language_subtag, parse_language_tag,
    parse_region_subtag, parse_script_subtag, put_keyword, region_of, script_of, Error, UND_WORD,
};
use crate::locale::render::{
    extensions_subtags, head_subtags, join, keyword_subtags, render, subtags_of,
};
use crate::locale::tinystr::TinyStr4;

verus! {

/// The texts that the byte vectors `v` hold.
pub open spec fn texts(v: Seq<Vec<u8>>) -> Seq<Seq<u8>> {
    Seq::new(v.len(), |i: int| v[i]@)
}

/// The keywords that the pairs of byte vectors `e` hold.
pub open spec fn entries_view(e: Seq<(Vec<u8>, Vec<u8>)>) -> Seq<(Seq<u8>, Seq<u8>)> {
    Seq::new(e.len(), |i: int| (e[i].0@, e[i].1@))
}

/// The text of a subtag that may be absent.
pub open spec fn subtag_view(t: Option<TinyStr4>) -> Option<Seq<u8>> {
    match t {
        Some(t) => Some(t@),
        None => None,
    }
}

/// One extension of a locale: its singleton and its keywords.
#[derive(Debug)]
pub struct Extension {
    /// The singleton, in lower case.
    pub letter: u8,
    /// The keywords, as pairs of key and value.
    pub entries: Vec<(Vec<u8>, Vec<u8>)>,
}

impl View for Extension {
    type V = ExtensionView;

    open spec fn view(&self) -> ExtensionView {
        ExtensionView { letter: self.letter, entries: entries_view(self.entries@) }
    }
}

/// The extensions that `e` holds.
pub open spec fn extensions_view(e: Seq<Extension>) -> Seq<ExtensionView> {
    Seq::new(e.len(), |i: int| e[i]@)
}

/// A Locale object.
///
/// A locale holds the canonical form of a language tag: the language, the
/// script and the region as tiny strings, and the variants, the extensions
/// and the private-use subtags as bytes. Every locale is well-formed: what
/// `LocaleView::wf` says holds of its identifier.
#[derive(Debug)]
pub struct Locale {
    language: Option<TinyStr4>,
    script: Option<TinyStr4>,
    region: Option<TinyStr4>,
    variants: Vec<Vec<u8>>,
    extensions: Vec<Extension>,
    privateuse: Vec<Vec<u8>>,
}

impl View for Locale {
    type V = LocaleView;

    closed spec fn view(&self) -> LocaleView {
        LocaleView {
            language: subtag_view(self.language),
            script: subtag_view(self.script),
            region: subtag_view(self.region),
            variants: texts(self.variants@),
            extensions: extensions_view(self.extensions@),
            privateuse: texts(self.privateuse@),
        }
    }
}

impl Locale {
    /// The locale's identifier is well-formed.
    #[verifier::type_invariant]
    pub closed spec fn wf(&self) -> bool {
        self@.wf()
    }

    /// Every locale holds a well-formed identifier.
    pub fn well_formed(&self)
        ensures
            self@.wf(),
    {
        proof {
            use_type_invariant(self);
        }
    }

    /// The language, if the locale has one.
    pub fn language(&self) -> (r: Option<TinyStr4>)
        ensures
            subtag_view(r) == self@.language,
    {
        self.language
    }

    /// The script, if the locale has one.
    pub fn script(&self) -> (r: Option<TinyStr4>)
        ensures
            subtag_view(r) == self@.script,
    {
        self.script
    }

    /// The region, if the locale has one.
    pub fn region(&self) -> (r: Option<TinyStr4>)
        ensures
            subtag_view(r) == self@.region,
    {
        self.region
    }

    /// Replaces the language, the script and the region.
    pub(crate) fn set_subtags(
        &mut self,
        language: Option<TinyStr4>,
        script: Option<TinyStr4>,
        region: Option<TinyStr4>,
    )
        requires
            language matches Some(l) ==> is_language(l@),
            script matches Some(s) ==> is_script(s@),
            region matches Some(r) ==> is_region(r@),
        ensures
            final(self)@ == (LocaleView {
                language: subtag_view(language),
                script: subtag_view(script),
                region: subtag_view(region),
                ..old(self)@
            }),
    {
        proof {
            use_type_invariant(&*self);
        }
        self.language = language;
        self.script = script;
        self.region = region;
    }

    /// Removes the language, the script and the region.
    pub(crate) fn clear_subtags(&mut self)
        ensures
            final(self)@ == (LocaleView { language: None, script: None, region: None, ..old(self)@ }),
    {
        self.set_subtags(None, None, None);
    }

    /// Replaces the language, the script, the region and the variants by
    /// those of `other`.
    pub fn set_subtags_of(&mut self, other: &Locale)
        ensures
            final(self)@ == (LocaleView {
                language: other@.language,
                script: other@.script,
                region: other@.region,
                variants: other@.variants,
                ..old(self)@
            }),
    {
        proof {
            use_type_invariant(&*self);
            use_type_invariant(other);
        }
        let variants = texts_clone(&other.variants);
        assert(other@.wf());
        assert(texts(variants@) == other@.variants);
        self.set_subtags(other.language, other.script, other.region);
        proof {
            use_type_invariant(&*self);
        }
        self.variants = variants;
    }

    /// Removes the region.
    pub fn clear_region(&mut self)
        ensures
            final(self)@ == (LocaleView { region: None, ..old(self)@ }),
    {
        proof {
            use_type_invariant(&*self);
        }
        self.region = None;
    }

    /// Removes the variants.
    pub fn clear_variants(&mut self)
        ensures
            final(self)@ == (LocaleView { variants: Seq::empty(), ..old(self)@ }),
    {
        proof {
            use_type_invariant(&*self);
        }
        self.variants = Vec::new();
        assert(self@.variants =~= Seq::empty());
    }

    /// Whether the locale has variants.
    pub fn has_variants(&self) -> (r: bool)
        ensures
            r == (self@.variants.len() > 0),
    {
        !self.variants.is_empty()
    }

    /// The locale with every field absent.
    pub fn empty() -> (r: Locale)
        ensures
            r@ == LocaleView::empty(),
    {
        let r = Locale {
            language: None,
            script: None,
            region: None,
            variants: Vec::new(),
            extensions: Vec::new(),
            privateuse: Vec::new(),
        };
        assert(r@.variants =~= Seq::empty());
        assert(r@.extensions =~= Seq::empty());
        assert(r@.privateuse =~= Seq::empty());
        r
    }

    /// The locale that holds the given parts.
    pub(crate) fn from_parts(
        language: Option<TinyStr4>,
        script: Option<TinyStr4>,
        region: Option<TinyStr4>,
        variants: Vec<Vec<u8>>,
        extensions: Vec<Extension>,
        privateuse: Vec<Vec<u8>>,
    ) -> (r: Locale)
        requires
            (LocaleView {
                language: subtag_view(language),
                script: subtag_view(script),
                region: subtag_view(region),
                variants: texts(variants@),
                extensions: extensions_view(extensions@),
                privateuse: texts(privateuse@),
            }).wf(),
        ensures
            r@ == (LocaleView {
                language: subtag_view(language),
                script: subtag_view(script),
                region: subtag_view(region),
                variants: texts(variants@),
                extensions: extensions_view(extensions@),
                privateuse: texts(privateuse@),
            }),
    {
        Locale { language, script, region, variants, extensions, privateuse }
    }
}

/// Writes the subtag `t` behind the subtags `done`, which `out` holds
/// joined; `first` says that there are none yet.
fn put_subtag(out: &mut Vec<u8>, t: &[u8], first: bool, Ghost(done): Ghost<Seq<Seq<u8>>>)
    requires
        old(out)@ == join(done),
        first == (done.len() == 0),
        all_ascii(old(out)@),
        all_ascii(t@),
    ensures
        final(out)@ == join(done.push(t@)),
        all_ascii(final(out)@),
{
    let ghost next = done.push(t@);
    proof {
        assert(next.drop_last() =~= done);
        assert(next.last() == t@);
    }
    if !first {
        out.push(HYPHEN);
    }
    append_bytes(out, t);
    proof {
        if done.len() == 0 {
            assert(out@ =~= t@);
        } else {
            assert(out@ =~= join(done) + seq![HYPHEN] + t@);
        }
    }
}

/// The bytes of `und`.
fn und_bytes() -> (r: Vec<u8>)
    ensures
        r@ == und(),
{
    let mut r: Vec<u8> = Vec::new();
    r.push(0x75);
    r.push(0x6e);
    r.push(0x64);
    assert(r@ =~= und());
    r
}

impl Locale {
    /// The canonical serialization of the locale as bytes.
    pub fn to_bytes(&self) -> (out: Vec<u8>)
        ensures
            out@ == render(self@),
            all_ascii(out@),
    {
        proof {
            use_type_invariant(self);
        }
        let ghost l = self@;
        let mut out: Vec<u8> = Vec::new();
        let ghost mut done: Seq<Seq<u8>> = Seq::empty();
        match &self.language {
            Some(t) => {
                proof {
                    use_type_invariant(t);
                    t.lemma_text();
                }
                let b = t.bytes();
                put_subtag(&mut out, b.as_slice(), true, Ghost(done));
                proof {
                    done = done.push(b@);
                }
            },
            None => {
                let b = und_bytes();
                put_subtag(&mut out, b.as_slice(), true, Ghost(done));
                proof {
                    done = done.push(b@);
                }
            },
        }
        match &self.script {
            Some(t) => {
                proof {
                    use_type_invariant(t);
                    t.lemma_text();
                }
                let b = t.bytes();
                put_subtag(&mut out, b.as_slice(), false, Ghost(done));
                proof {
                    done = done.push(b@);
                }
            },
            None => {},
        }
        match &self.region {
            Some(t) => {
                proof {
                    use_type_invariant(t);
                    t.lemma_text();
                }
                let b = t.bytes();
                put_subtag(&mut out, b.as_slice(), false, Ghost(done));
                proof {
                    done = done.push(b@);
                }
            },
            None => {},
        }
        assert(done =~= head_subtags(l));
        let mut i: usize = 0;
        while i < self.variants.len()
            invariant
                i <= self.variants.len(),
                l == self@,
                l.wf(),
                out@ == join(done),
                all_ascii(out@),
                done.len() > 0,
                done == head_subtags(l) + l.variants.take(i as int),
            decreases self.variants.len() - i,
        {
            assert(is_variant(l.variants[i as int]));
            put_subtag(&mut out, self.variants[i].as_slice(), false, Ghost(done));
            proof {
                done = done.push(self.variants@[i as int]@);
                assert(done =~= head_subtags(l) + l.variants.take(i + 1));
            }
            i += 1;
        }
        assert(l.variants.take(i as int) =~= l.variants);
        let ghost main = head_subtags(l) + l.variants;
        let mut i: usize = 0;
        assert(l.extensions.take(0) =~= Seq::empty());
        assert(done =~= main + extensions_subtags(l.extensions.take(0)));
        while i < self.extensions.len()
            invariant
                i <= self.extensions.len(),
                l == self@,
                l.wf(),
                out@ == join(done),
                all_ascii(out@),
                done.len() > 0,
                done == main + extensions_subtags(l.extensions.take(i as int)),
            decreases self.extensions.len() - i,
        {
            let ext = &self.extensions[i];
            let ghost e = l.extensions[i as int];
            let ghost before = main + extensions_subtags(l.extensions.take(i as int));
            assert(e.wf());
            assert(e == ext@);
            let mut letter: Vec<u8> = Vec::new();
            letter.push(ext.letter);
            assert(letter@ =~= seq![e.letter]);
            put_subtag(&mut out, letter.as_slice(), false, Ghost(done));
            proof {
                done = done.push(letter@);
                assert(e.entries.take(0) =~= Seq::empty());
                assert(done =~= before + seq![seq![e.letter]] + keyword_subtags(e.entries.take(0)));
            }
            let mut j: usize = 0;
            while j < ext.entries.len()
                invariant
                    j <= ext.entries.len(),
                    e == ext@,
                    e.wf(),
                    out@ == join(done),
                    all_ascii(out@),
                    done.len() > 0,
                    done == before + seq![seq![e.letter]] + keyword_subtags(
                        e.entries.take(j as int),
                    ),
                decreases ext.entries.len() - j,
            {
                let ghost kv = e.entries[j as int];
                assert(is_ext_key(kv.0) && is_ext_value(kv.1));
                put_subtag(&mut out, ext.entries[j].0.as_slice(), false, Ghost(done));
                proof {
                    done = done.push(kv.0);
                }
                put_subtag(&mut out, ext.entries[j].1.as_slice(), false, Ghost(done));
                proof {
                    done = done.push(kv.1);
                    let next = e.entries.take(j + 1);
                    assert(next.drop_last() =~= e.entries.take(j as int));
                    assert(next.last() == kv);
                    assert(done =~= before + seq![seq![e.letter]] + keyword_subtags(next));
                }
                j += 1;
            }
            proof {
                assert(e.entries.take(j as int) =~= e.entries);
                let next = l.extensions.take(i + 1);
                assert(next.drop_last() =~= l.extensions.take(i as int));
                assert(next.last() == e);
                assert(done =~= main + extensions_subtags(next));
            }
            i += 1;
        }
        assert(l.extensions.take(i as int) =~= l.extensions);
        let ghost upto = main + extensions_subtags(l.extensions);
        if self.privateuse.len() > 0 {
            let mut letter: Vec<u8> = Vec::new();
            letter.push(PRIVATE_USE);
            assert(letter@ =~= seq![PRIVATE_USE]);
            put_subtag(&mut out, letter.as_slice(), false, Ghost(done));
            proof {
                done = done.push(letter@);
            }
            let mut i: usize = 0;
            assert(done =~= upto + seq![seq![PRIVATE_USE]] + l.privateuse.take(0));
            while i < self.privateuse.len()
                invariant
                    i <= self.privateuse.len(),
                    l == self@,
                    l.wf(),
                    out@ == join(done),
                    all_ascii(out@),
                    done.len() > 0,
                    done == upto + seq![seq![PRIVATE_USE]] + l.privateuse.take(i as int),
                decreases self.privateuse.len() - i,
            {
                assert(is_subtag(l.privateuse[i as int]));
                put_subtag(&mut out, self.privateuse[i].as_slice(), false, Ghost(done));
                proof {
                    done = done.push(self.privateuse@[i as int]@);
                    assert(done =~= upto + seq![seq![PRIVATE_USE]] + l.privateuse.take(i + 1));
                }
                i += 1;
            }
            assert(l.privateuse.take(i as int) =~= l.privateuse);
            assert(done =~= subtags_of(l));
        } else {
            assert(done =~= subtags_of(l));
        }
        out
    }

    /// The canonical serialization of the locale: its subtags joined by `-`,
    /// with `und` in the place of an absent language.
    pub fn to_string(&self) -> (s: String)
        ensures
            s@ == to_chars(render(self@)),
    {
        string_of_ascii(self.to_bytes())
    }
}

/// Whether two subtags that may be absent match, each read as a range
/// where its flag says so.
pub fn subtag_matches(
    subtag1: &Option<TinyStr4>,
    subtag2: &Option<TinyStr4>,
    as_range1: bool,
    as_range2: bool,
) -> (r: bool)
    ensures
        r == field_matches(subtag_view(*subtag1), subtag_view(*subtag2), as_range1, as_range2),
{
    (as_range1 && subtag1.is_none()) || (as_range2 && subtag2.is_none()) || subtag_eq(
        subtag1,
        subtag2,
    )
}

/// Whether two subtags that may be absent are the same.
pub fn subtag_eq(a: &Option<TinyStr4>, b: &Option<TinyStr4>) -> (r: bool)
    ensures
        r == (subtag_view(*a) == subtag_view(*b)),
{
    match (a, b) {
        (Some(x), Some(y)) => {
            proof {
                use_type_invariant(x);
                use_type_invariant(y);
                x.lemma_text();
                y.lemma_text();
            }
            x.word() == y.word()
        },
        (None, None) => true,
        _ => false,
    }
}

/// Whether two lists of subtags are the same.
pub fn texts_eq(a: &Vec<Vec<u8>>, b: &Vec<Vec<u8>>) -> (r: bool)
    ensures
        r == (texts(a@) == texts(b@)),
{
    if a.len() != b.len() {
        assert(texts(a@).len() != texts(b@).len());
        return false;
    }
    let mut i: usize = 0;
    while i < a.len()
        invariant
            i <= a.len(),
            a.len() == b.len(),
            forall|j: int| 0 <= j < i ==> a@[j]@ == b@[j]@,
        decreases a.len() - i,
    {
        if !bytes_eq(a[i].as_slice(), b[i].as_slice()) {
            assert(texts(a@)[i as int] != texts(b@)[i as int]);
            return false;
        }
        i += 1;
    }
    assert(texts(a@) =~= texts(b@));
    true
}

/// Whether two lists of keywords are the same.
fn entries_eq(a: &Vec<(Vec<u8>, Vec<u8>)>, b: &Vec<(Vec<u8>, Vec<u8>)>) -> (r: bool)
    ensures
        r == (entries_view(a@) == entries_view(b@)),
{
    if a.len() != b.len() {
        assert(entries_view(a@).len() != entries_view(b@).len());
        return false;
    }
    let mut i: usize = 0;
    while i < a.len()
        invariant
            i <= a.len(),
            a.len() == b.len(),
            forall|j: int| 0 <= j < i ==> a@[j].0@ == b@[j].0@ && a@[j].1@ == b@[j].1@,
        decreases a.len() - i,
    {
        if !bytes_eq(a[i].0.as_slice(), b[i].0.as_slice()) || !bytes_eq(
            a[i].1.as_slice(),
            b[i].1.as_slice(),
        ) {
            assert(entries_view(a@)[i as int] != entries_view(b@)[i as int]);
            return false;
        }
        i += 1;
    }
    assert(entries_view(a@) =~= entries_view(b@));
    true
}

/// Whether two lists of extensions are the same.
fn extensions_eq(a: &Vec<Extension>, b: &Vec<Extension>) -> (r: bool)
    ensures
        r == (extensions_view(a@) == extensions_view(b@)),
{
    if a.len() != b.len() {
        assert(extensions_view(a@).len() != extensions_view(b@).len());
        return false;
    }
    let mut i: usize = 0;
    while i < a.len()
        invariant
            i <= a.len(),
            a.len() == b.len(),
            forall|j: int| 0 <= j < i ==> a@[j]@ == b@[j]@,
        decreases a.len() - i,
    {
        if a[i].letter != b[i].letter || !entries_eq(&a[i].entries, &b[i].entries) {
            assert(extensions_view(a@)[i as int] != extensions_view(b@)[i as int]);
            return false;
        }
        i += 1;
    }
    assert(extensions_view(a@) =~= extensions_view(b@));
    true
}

/// A copy of a list of subtags.
fn texts_clone(a: &Vec<Vec<u8>>) -> (r: Vec<Vec<u8>>)
    ensures
        texts(r@) == texts(a@),
{
    let mut r: Vec<Vec<u8>> = Vec::new();
    let mut i: usize = 0;
    while i < a.len()
        invariant
            i <= a.len(),
            r.len() == i,
            forall|j: int| 0 <= j < i ==> r@[j]@ == a@[j]@,
        decreases a.len() - i,
    {
        r.push(slice_to_vec(a[i].as_slice()));
        i += 1;
    }
    assert(texts(r@) =~= texts(a@));
    r
}

/// A copy of a list of extensions.
fn extensions_clone(a: &Vec<Extension>) -> (r: Vec<Extension>)
    ensures
        extensions_view(r@) == extensions_view(a@),
{
    let mut r: Vec<Extension> = Vec::new();
    let mut i: usize = 0;
    while i < a.len()
        invariant
            i <= a.len(),
            r.len() == i,
            forall|j: int| 0 <= j < i ==> r@[j]@ == a@[j]@,
        decreases a.len() - i,
    {
        let src = &a[i].entries;
        let mut entries: Vec<(Vec<u8>, Vec<u8>)> = Vec::new();
        let mut j: usize = 0;
        while j < src.len()
            invariant
                j <= src.len(),
                entries.len() == j,
                forall|k: int|
                    0 <= k < j ==> entries@[k].0@ == src@[k].0@ && entries@[k].1@ == src@[k].1@,
            decreases src.len() - j,
        {
            entries.push((slice_to_vec(src[j].0.as_slice()), slice_to_vec(src[j].1.as_slice())));
            j += 1;
        }
        assert(entries_view(entries@) =~= entries_view(src@));
        r.push(Extension { letter: a[i].letter, entries });
        i += 1;
    }
    assert(extensions_view(r@) =~= extensions_view(a@));
    r
}

impl Locale {
    /// Whether this locale and `other` hold the same identifier.
    pub fn same_as(&self, other: &Locale) -> (r: bool)
        ensures
            r == (self@ == other@),
    {
        subtag_eq(&self.language, &other.language) && subtag_eq(&self.script, &other.script)
            && subtag_eq(&self.region, &other.region) && texts_eq(&self.variants, &other.variants)
            && extensions_eq(&self.extensions, &other.extensions) && texts_eq(
            &self.privateuse,
            &other.privateuse,
        )
    }

    /// A copy of this locale.
    pub fn duplicate(&self) -> (r: Locale)
        ensures
            r@ == self@,
    {
        proof {
            use_type_invariant(self);
        }
        Locale {
            language: self.language,
            script: self.script,
            region: self.region,
            variants: texts_clone(&self.variants),
            extensions: extensions_clone(&self.extensions),
            privateuse: texts_clone(&self.privateuse),
        }
    }

    /// Whether this locale matches `other`.
    ///
    /// A locale with private-use subtags matches nothing. Otherwise the
    /// languages, the scripts, the regions and the lists of variants are
    /// held against each other. With `available_range` an absent field of
    /// this locale matches anything, and with `requested_range` an absent
    /// field of `other` does.
    pub fn matches(&self, other: &Locale, available_range: bool, requested_range: bool) -> (r:
        bool)
        ensures
            r == self@.matches(other@, available_range, requested_range),
    {
        if !self.privateuse.is_empty() || other.has_privateuse() {
            return false;
        }
        self.fields_match(other, available_range, requested_range)
    }

    /// Whether the language, the script, the region and the variants of this
    /// locale match those of `other`, whatever else the two hold.
    pub fn fields_match(&self, other: &Locale, range_self: bool, range_other: bool) -> (r: bool)
        ensures
            r == self@.fields_match(other@, range_self, range_other),
    {
        subtag_matches(&self.language, &other.language, range_self, range_other)
            && subtag_matches(&self.script, &other.script, range_self, range_other)
            && subtag_matches(&self.region, &other.region, range_self, range_other) && ((range_self
            && self.variants.is_empty()) || (range_other && other.variants.is_empty()) || texts_eq(
            &self.variants,
            &other.variants,
        ))
    }

    /// Whether the locale has private-use subtags.
    pub fn has_privateuse(&self) -> (r: bool)
        ensures
            r == (self@.privateuse.len() > 0),
    {
        !self.privateuse.is_empty()
    }
}

/// The text of a subtag that may be absent, empty where it is.
pub open spec fn text_or_empty(t: Option<Seq<u8>>) -> Seq<u8> {
    match t {
        Some(b) => b,
        None => Seq::empty(),
    }
}

/// The first index at or after `from` at which the subtags `v` hold `t`;
/// the length of `v` where there is none.
pub open spec fn index_of(v: Seq<Seq<u8>>, t: Seq<u8>, from: int) -> int
    decreases v.len() - from,
{
    if from < 0 || from >= v.len() {
        v.len() as int
    } else if v[from] == t {
        from
    } else {
        index_of(v, t, from + 1)
    }
}

/// The subtags `v` without the first that is `t`.
pub open spec fn without_first(v: Seq<Seq<u8>>, t: Seq<u8>) -> Seq<Seq<u8>> {
    let i = index_of(v, t, 0);
    if i < v.len() {
        v.remove(i)
    } else {
        v
    }
}

/// The singleton that the name `name` of an extension stands for:
/// `unicode` stands for `u`, and a single letter for itself in lower case.
/// There is none for `x`, which opens the private-use subtags, nor for any
/// other name.
pub open spec fn letter_of(name: Seq<u8>) -> Option<u8> {
    if name == seq![0x75u8, 0x6eu8, 0x69u8, 0x63u8, 0x6fu8, 0x64u8, 0x65u8] {
        Some(UNICODE)
    } else if name.len() == 1 && is_alpha(name[0]) && lower(name[0]) != PRIVATE_USE {
        Some(lower(name[0]))
    } else {
        None
    }
}

/// The name of the extension with the singleton `c`.
pub open spec fn name_of(c: u8) -> Seq<u8> {
    if c == UNICODE {
        seq![0x75u8, 0x6eu8, 0x69u8, 0x63u8, 0x6fu8, 0x64u8, 0x65u8]
    } else {
        seq![c]
    }
}

/// Whether the bytes `t` are a subtag: one to eight ASCII bytes, none of
/// them a separator.
pub fn bytes_are_subtag(t: &[u8]) -> (r: bool)
    ensures
        r == is_subtag(t@),
{
    if t.len() < 1 || t.len() > 8 {
        return false;
    }
    let mut i: usize = 0;
    while i < t.len()
        invariant
            i <= t.len(),
            forall|j: int| 0 <= j < i ==> t@[j] < 0x80 && !is_separator(#[trigger] t@[j]),
        decreases t.len() - i,
    {
        if t[i] >= 0x80 || t[i] == HYPHEN || t[i] == UNDERSCORE {
            return false;
        }
        i += 1;
    }
    true
}

impl Locale {
    /// Parses the language tag `loc_str` into a locale and applies the
    /// options `opts` to it, in their order.
    pub fn new(loc_str: &str, opts: Option<Vec<(&str, &str)>>) -> (r: Result<Locale, Error>)
        ensures
            match parse(loc_str@) {
                Ok(l) => r is Ok && r->Ok_0@ == (match opts {
                    Some(o) => with_options(l, option_views(o@), 0),
                    None => l,
                }),
                Err(e) => r is Err && r->Err_0 == e,
            },
    {
        match parse_language_tag(loc_str) {
            Ok(mut locale) => {
                if let Some(opts) = opts {
                    apply_options(&mut locale, opts);
                }
                Ok(locale)
            },
            Err(e) => Err(e),
        }
    }

    /// The locale that `s` spells; the locale with every field absent where
    /// `s` spells none.
    pub fn from_tag(s: &str) -> (r: Locale)
        ensures
            r@ == (match parse(s@) {
                Ok(l) => l,
                Err(_) => LocaleView::empty(),
            }),
    {
        match parse_language_tag(s) {
            Ok(locale) => locale,
            Err(_) => Locale::empty(),
        }
    }

    /// Sets the language. An empty `value` and `und` in any case remove it;
    /// any other value must be two or three letters.
    pub fn set_language(&mut self, value: &str) -> (r: Result<(), Error>)
        ensures
            value@.len() == 0 ==> r is Ok && final(self)@ == (LocaleView {
                language: None,
                ..old(self)@
            }),
            value@.len() != 0 ==> match language_of(value.spec_bytes()) {
                Ok(l) => r is Ok && final(self)@ == (LocaleView {
                    language: if l == und() {
                        None
                    } else {
                        Some(l)
                    },
                    ..old(self)@
                }),
                Err(e) => r == Err::<(), Error>(e) && final(self)@ == old(self)@,
            },
    {
        proof {
            use_type_invariant(&*self);
        }
        if value.is_empty() {
            self.language = None;
            return Ok(());
        }
        match parse_language_subtag(value) {
            Ok(l) => {
                proof {
                    use_type_invariant(&l);
                    lemma_word_text(l, und());
                    lemma_pack_und();
                    lemma_subtag_bytes(value);
                }
                if l.word() == UND_WORD {
                    self.language = None;
                } else {
                    self.language = Some(l);
                }
                Ok(())
            },
            Err(e) => Err(e),
        }
    }

    /// Sets the language to what `value` spells, and removes it where
    /// `value` spells none.
    pub fn replace_language(&mut self, value: &str)
        ensures
            final(self)@ == (LocaleView {
                language: match language_of(value.spec_bytes()) {
                    Ok(l) => if l == und() {
                        None
                    } else {
                        Some(l)
                    },
                    Err(_) => None,
                },
                ..old(self)@
            }),
    {
        proof {
            use_type_invariant(&*self);
        }
        match parse_language_subtag(value) {
            Ok(l) => {
                proof {
                    use_type_invariant(&l);
                    lemma_word_text(l, und());
                    lemma_pack_und();
                }
                if l.word() == UND_WORD {
                    self.language = None;
                } else {
                    self.language = Some(l);
                }
            },
            Err(_) => {
                self.language = None;
            },
        }
    }

    /// Sets the script to what `value` spells, and removes it where `value`
    /// spells none.
    pub fn replace_script(&mut self, value: &str)
        ensures
            final(self)@ == (LocaleView {
                script: match script_of(value.spec_bytes()) {
                    Ok(l) => Some(l),
                    Err(_) => None,
                },
                ..old(self)@
            }),
    {
        proof {
            use_type_invariant(&*self);
        }
        self.script = match parse_script_subtag(value) {
            Ok(l) => Some(l),
            Err(_) => None,
        };
    }

    /// Sets the region to what `value` spells, and removes it where `value`
    /// spells none.
    pub fn replace_region(&mut self, value: &str)
        ensures
            final(self)@ == (LocaleView {
                region: match region_of(value.spec_bytes()) {
                    Ok(l) => Some(l),
                    Err(_) => None,
                },
                ..old(self)@
            }),
    {
        proof {
            use_type_invariant(&*self);
        }
        self.region = match parse_region_subtag(value) {
            Ok(l) => Some(l),
            Err(_) => None,
        };
    }

    /// The language; the empty string where there is none.
    pub fn get_language(&self) -> (r: String)
        ensures
            r@ == to_chars(text_or_empty(self@.language)),
    {
        match &self.language {
            Some(t) => t.as_str(),
            None => {
                assert(to_chars(Seq::<u8>::empty()) =~= Seq::<char>::empty());
                String::new()
            },
        }
    }

    /// Sets the script. An empty `value` removes it; any other value must
    /// be four letters.
    pub fn set_script(&mut self, value: &str) -> (r: Result<(), Error>)
        ensures
            value@.len() == 0 ==> r is Ok && final(self)@ == (LocaleView {
                script: None,
                ..old(self)@
            }),
            value@.len() != 0 ==> match script_of(value.spec_bytes()) {
                Ok(l) => r is Ok && final(self)@ == (LocaleView { script: Some(l), ..old(self)@ }),
                Err(e) => r == Err::<(), Error>(e) && final(self)@ == old(self)@,
            },
    {
        proof {
            use_type_invariant(&*self);
        }
        if value.is_empty() {
            self.script = None;
            return Ok(());
        }
        match parse_script_subtag(value) {
            Ok(l) => {
                proof {
                    lemma_subtag_bytes(value);
                }
                self.script = Some(l);
                Ok(())
            },
            Err(e) => Err(e),
        }
    }

    /// The script; the empty string where there is none.
    pub fn get_script(&self) -> (r: String)
        ensures
            r@ == to_chars(text_or_empty(self@.script)),
    {
        match &self.script {
            Some(t) => t.as_str(),
            None => {
                assert(to_chars(Seq::<u8>::empty()) =~= Seq::<char>::empty());
                String::new()
            },
        }
    }

    /// Sets the region. An empty `value` removes it; any other value must
    /// be two letters or three digits.
    pub fn set_region(&mut self, value: &str) -> (r: Result<(), Error>)
        ensures
            value@.len() == 0 ==> r is Ok && final(self)@ == (LocaleView {
                region: None,
                ..old(self)@
            }),
            value@.len() != 0 ==> match region_of(value.spec_bytes()) {
                Ok(l) => r is Ok && final(self)@ == (LocaleView { region: Some(l), ..old(self)@ }),
                Err(e) => r == Err::<(), Error>(e) && final(self)@ == old(self)@,
            },
    {
        proof {
            use_type_invariant(&*self);
        }
        if value.is_empty() {
            self.region = None;
            return Ok(());
        }
        match parse_region_subtag(value) {
            Ok(l) => {
                proof {
                    lemma_subtag_bytes(value);
                }
                self.region = Some(l);
                Ok(())
            },
            Err(e) => Err(e),
        }
    }

    /// The region; the empty string where there is none.
    pub fn get_region(&self) -> (r: String)
        ensures
            r@ == to_chars(text_or_empty(self@.region)),
    {
        match &self.region {
            Some(t) => t.as_str(),
            None => {
                assert(to_chars(Seq::<u8>::empty()) =~= Seq::<char>::empty());
                String::new()
            },
        }
    }

    /// Adds a variant behind the others. A value of more than eight bytes
    /// is refused with `SubtagTooLong`, and any other that is no variant
    /// subtag with `InvalidSubtag`.
    pub fn add_variant(&mut self, value: String) -> (r: Result<(), Error>)
        ensures
            encode_utf8(value@).len() > 8 ==> r == Err::<(), Error>(Error::SubtagTooLong)
                && final(self)@ == old(self)@,
            encode_utf8(value@).len() <= 8 && !is_variant(encode_utf8(value@)) ==> r
                == Err::<(), Error>(Error::InvalidSubtag) && final(self)@ == old(self)@,
            is_variant(encode_utf8(value@)) ==> r is Ok && final(self)@ == (LocaleView {
                variants: old(self)@.variants.push(encode_utf8(value@)),
                ..old(self)@
            }),
    {
        proof {
            use_type_invariant(&*self);
        }
        let b = value.as_str().as_bytes();
        if b.len() > 8 {
            return Err(Error::SubtagTooLong);
        }
        if !bytes_are_subtag(b) || !((b.len() >= 4 && byte_is_alpha(b[0])) || (b.len() >= 5
            && byte_is_digit(b[0]))) {
            return Err(Error::InvalidSubtag);
        }
        let ghost before = self@.variants;
        let mut variants = texts_clone(&self.variants);
        variants.push(slice_to_vec(b));
        proof {
            let after = texts(variants@);
            assert(after =~= before.push(b@));
            assert forall|i: int| 0 <= i < after.len() implies is_variant(#[trigger] after[i]) by {
                if i < before.len() {
                    assert(after[i] == before[i]);
                }
            }
        }
        self.variants = variants;
        proof {
            let after = texts(self.variants@);
            assert(after =~= before.push(b@));
            assert forall|i: int| 0 <= i < after.len() implies is_variant(#[trigger] after[i]) by {
                if i < before.len() {
                    assert(after[i] == before[i]);
                }
            }
        }
        Ok(())
    }

    /// Removes the first variant that is `value`, if there is one.
    pub fn remove_variant(&mut self, value: String)
        ensures
            final(self)@ == (LocaleView {
                variants: without_first(old(self)@.variants, encode_utf8(value@)),
                ..old(self)@
            }),
    {
        proof {
            use_type_invariant(&*self);
        }
        let b = value.as_str().as_bytes();
        let ghost before = self@.variants;
        let mut i: usize = 0;
        while i < self.variants.len()
            invariant
                i <= self.variants.len(),
                *self == *old(self),
                self@.wf(),
                b@ == encode_utf8(value@),
                before == texts(self.variants@),
                index_of(before, b@, 0) == index_of(before, b@, i as int),
            decreases self.variants.len() - i,
        {
            if bytes_eq(self.variants[i].as_slice(), b) {
                assert(before[i as int] == b@);
                assert(index_of(before, b@, i as int) == i);
                let mut variants = texts_clone(&self.variants);
                let _ = variants.remove(i);
                proof {
                    let after = texts(variants@);
                    assert(after =~= before.remove(i as int));
                    assert forall|j: int| 0 <= j < after.len() implies is_variant(
                        #[trigger] after[j],
                    ) by {
                        if j < i {
                            assert(after[j] == before[j]);
                        } else {
                            assert(after[j] == before[j + 1]);
                        }
                    }
                }
                self.variants = variants;
                return ;
            }
            assert(before[i as int] != b@);
            i += 1;
        }
    }

    /// The variants, in their order.
    pub fn get_variants(&self) -> (r: Vec<String>)
        ensures
            r.len() == self@.variants.len(),
            forall|i: int| 0 <= i < r.len() ==> (#[trigger] r[i])@ == to_chars(self@.variants[i]),
    {
        proof {
            use_type_invariant(self);
        }
        let mut r: Vec<String> = Vec::new();
        let mut i: usize = 0;
        while i < self.variants.len()
            invariant
                i <= self.variants.len(),
                self@.wf(),
                r.len() == i,
                forall|j: int| 0 <= j < i ==> (#[trigger] r[j])@ == to_chars(self@.variants[j]),
            decreases self.variants.len() - i,
        {
            assert(is_variant(self@.variants[i as int]));
            r.push(string_of_ascii(slice_to_vec(self.variants[i].as_slice())));
            i += 1;
        }
        r
    }

    /// The extensions, in ascending order of their singletons: each with
    /// its name, `unicode` for the singleton `u`, and its keywords in
    /// ascending order of their keys. The keys `hc` and `ca` are given by
    /// the names of their options, `hour-cycle` and `calendar`.
    pub fn get_extensions(&self) -> (r: Vec<(String, Vec<(String, String)>)>)
        ensures
            r.len() == self@.extensions.len(),
            forall|i: int|
                0 <= i < r.len() ==> {
                    let e = self@.extensions[i];
                    &&& (#[trigger] r[i]).0@ == to_chars(name_of(e.letter))
                    &&& r[i].1.len() == e.entries.len()
                    &&& forall|j: int|
                        0 <= j < e.entries.len() ==> (#[trigger] r[i].1[j]).0@ == to_chars(
                            option_name(e.entries[j].0),
                        ) && r[i].1[j].1@ == to_chars(e.entries[j].1)
                },
    {
        proof {
            use_type_invariant(self);
        }
        let mut r: Vec<(String, Vec<(String, String)>)> = Vec::new();
        let mut i: usize = 0;
        while i < self.extensions.len()
            invariant
                i <= self.extensions.len(),
                self@.wf(),
                r.len() == i,
                forall|k: int|
                    0 <= k < i ==> {
                        let e = self@.extensions[k];
                        &&& (#[trigger] r[k]).0@ == to_chars(name_of(e.letter))
                        &&& r[k].1.len() == e.entries.len()
                        &&& forall|j: int|
                            0 <= j < e.entries.len() ==> (#[trigger] r[k].1[j]).0@ == to_chars(
                                option_name(e.entries[j].0),
                            ) && r[k].1[j].1@ == to_chars(e.entries[j].1)
                    },
            decreases self.extensions.len() - i,
        {
            let ext = &self.extensions[i];
            let ghost e = self@.extensions[i as int];
            assert(e.wf());
            assert(e == ext@);
            let mut b: Vec<u8> = Vec::new();
            b.push(ext.letter);
            assert(b@ =~= seq![ext.letter]);
            let singleton = string_of_ascii(b);
            proof {
                lemma_names();
                lemma_bytes_chars(seq![ext.letter]);
                lemma_bytes_chars(seq![UNICODE]);
                assert(to_chars(seq![0x75u8]) =~= seq!['u']);
                assert(to_chars(UNICODE_NAME@) =~= seq!['u', 'n', 'i', 'c', 'o', 'd', 'e']);
                assert(name_of(UNICODE) =~= UNICODE_NAME@);
            }
            let name = ext_name_for_key(singleton.as_str()).to_owned();
            let mut entries: Vec<(String, String)> = Vec::new();
            let mut j: usize = 0;
            while j < ext.entries.len()
                invariant
                    j <= ext.entries.len(),
                    e == ext@,
                    e.wf(),
                    entries.len() == j,
                    forall|k: int|
                        0 <= k < j ==> (#[trigger] entries[k]).0@ == to_chars(
                            option_name(e.entries[k].0),
                        ) && entries[k].1@ == to_chars(e.entries[k].1),
                decreases ext.entries.len() - j,
            {
                let ghost kv = e.entries[j as int];
                assert(is_ext_key(kv.0) && is_ext_value(kv.1));
                let stored = string_of_ascii(slice_to_vec(ext.entries[j].0.as_slice()));
                proof {
                    lemma_names();
                    lemma_bytes_chars(kv.0);
                    lemma_bytes_chars(HC@);
                    lemma_bytes_chars(CA@);
                }
                let key = if str_is(stored.as_str(), "hc") || str_is(stored.as_str(), "ca") {
                    option_name_for_key(stored.as_str()).to_owned()
                } else {
                    stored
                };
                let value = string_of_ascii(slice_to_vec(ext.entries[j].1.as_slice()));
                entries.push((key, value));
                j += 1;
            }
            r.push((name, entries));
            i += 1;
        }
        r
    }

    /// Sets a keyword of an extension, and adds the extension where the
    /// locale has none of that name.
    ///
    /// The name is `unicode` or a single letter other than `x`. The key is
    /// the name of an option, `hour-cycle` or `calendar`, or a subtag. The
    /// key and the value are subtags other than single characters; the key
    /// is stored in lower case. Anything else is refused: with
    /// `SubtagTooLong` where the key or the value has more than eight
    /// bytes, and otherwise with `InvalidSubtag`.
    pub fn add_extension(&mut self, ext_name: String, key: String, value: String) -> (r: Result<
        (),
        Error,
    >)
        ensures
            match extension_added(
                old(self)@,
                encode_utf8(ext_name@),
                encode_utf8(key@),
                encode_utf8(value@),
            ) {
                Ok(l) => r is Ok && final(self)@ == l,
                Err(e) => r == Err::<(), Error>(e) && final(self)@ == old(self)@,
            },
    {
        proof {
            use_type_invariant(&*self);
        }
        proof {
            lemma_names();
            reveal_strlit("u");
            reveal_strlit("unicode");
            assert("u"@ =~= seq!['u']);
            assert("unicode"@ =~= seq!['u', 'n', 'i', 'c', 'o', 'd', 'e']);
            assert(UNICODE_NAME@ =~= seq![0x75u8, 0x6eu8, 0x69u8, 0x63u8, 0x6fu8, 0x64u8, 0x65u8]);
            encode_utf8_decode_utf8(ext_name@);
            encode_utf8_decode_utf8(key@);
            encode_utf8_decode_utf8("unicode"@);
            encode_utf8_decode_utf8("hour-cycle"@);
            encode_utf8_decode_utf8("calendar"@);
        }
        let name = ext_key_for_name(ext_name.as_str()).as_bytes();
        let known = str_is(key.as_str(), "hour-cycle") || str_is(key.as_str(), "calendar");
        let k = if known {
            option_key_for_name(key.as_str()).as_bytes()
        } else {
            key.as_str().as_bytes()
        };
        let v = value.as_str().as_bytes();
        assert(k@ == option_key(encode_utf8(key@)));
        if k.len() > 8 || v.len() > 8 {
            return Err(Error::SubtagTooLong);
        }
        let letter = if name.len() == 1 && byte_is_alpha(name[0]) && byte_lower(name[0])
            != PRIVATE_USE {
            byte_lower(name[0])
        } else {
            return Err(Error::InvalidSubtag);
        };
        if !bytes_are_subtag(k) || k.len() == 1 || !bytes_are_subtag(v) || v.len() == 1 {
            return Err(Error::InvalidSubtag);
        }
        let ghost before = self@.extensions;
        proof {
            lemma_canonical_case(k@);
            if !has_extension(before, letter) {
                lemma_open_extension(before, letter);
            }
            lemma_put_keyword(
                if has_extension(before, letter) {
                    before
                } else {
                    open_extension(before, letter)
                },
                letter,
                lowercase(k@),
                v@,
            );
        }
        let mut extensions = extensions_clone(&self.extensions);
        if !extensions_have(&extensions, letter) {
            extensions_open(&mut extensions, letter);
        }
        extensions_put(&mut extensions, letter, lowercase_bytes(k), slice_to_vec(v));
        self.extensions = extensions;
        Ok(())
    }
}

/// The identifier `l` with the keyword `key`, `value` set in the extension
/// of the name `name`, or why it cannot be set. The names `hour-cycle` and
/// `calendar` of options stand for their keys.
pub open spec fn extension_added(l: LocaleView, name: Seq<u8>, key: Seq<u8>, value: Seq<u8>) -> Result<
    LocaleView,
    Error,
> {
    let k = option_key(key);
    if k.len() > 8 || value.len() > 8 {
        Err(Error::SubtagTooLong)
    } else if letter_of(name) is None || !is_subtag(k) || k.len() == 1 || !is_subtag(value)
        || value.len() == 1 {
        Err(Error::InvalidSubtag)
    } else {
        let c = letter_of(name)->Some_0;
        let opened = if has_extension(l.extensions, c) {
            l.extensions
        } else {
            open_extension(l.extensions, c)
        };
        Ok(LocaleView { extensions: put_keyword(opened, c, lowercase(k), value), ..l })
    }
}

/// A string is empty exactly when it has no bytes.
proof fn lemma_subtag_bytes(value: &str)
    ensures
        value@.len() == 0 <==> value.spec_bytes().len() == 0,
{
    vstd::utf8::encode_utf8_decode_utf8(value@);
    if value@.len() == 0 {
        assert(value@ =~= Seq::<char>::empty());
        assert(vstd::utf8::encode_utf8(Seq::<char>::empty()).len() == 0);
    }
    if value.spec_bytes().len() == 0 {
        assert(value.spec_bytes() =~= Seq::<u8>::empty());
        assert(vstd::utf8::decode_utf8(Seq::<u8>::empty()).len() == 0);
    }
}

impl Clone for Locale {
    fn clone(&self) -> (r: Self)
        ensures
            r@ == self@,
    {
        self.duplicate()
    }
}

impl PartialEq for Locale {
    /// Whether the two locales hold the same identifier.
    fn eq(&self, other: &Self) -> (r: bool) {
        self.same_as(other)
    }
}

impl vstd::std_specs::cmp::PartialEqSpecImpl for Locale {
    open spec fn obeys_eq_spec() -> bool {
        true
    }

    open spec fn eq_spec(&self, other: &Self) -> bool {
        self@ == other@
    }
}

impl Eq for Locale {

}

impl Default for Locale {
    fn default() -> (r: Self)
        ensures
            r@ == LocaleView::empty(),
    {
        Locale::empty()
    }
}

impl<'a> From<&'a str> for Locale {
    /// The locale that `s` spells; the locale with every field absent where
    /// `s` spells none.
    fn from(s: &'a str) -> (r: Self)
        ensures
            r@ == (match parse(s@) {
                Ok(l) => l,
                Err(_) => LocaleView::empty(),
            }),
    {
        Locale::from_tag(s)
    }
}

impl<'a> vstd::std_specs::convert::FromSpecImpl<&'a str> for Locale {
    open spec fn obeys_from_spec() -> bool {
        false
    }

    closed spec fn from_spec(s: &'a str) -> Self {
        arbitrary()
    }
}

impl From<String> for Locale {
    /// The locale that `s` spells; the locale with every field absent where
    /// `s` spells none.
    fn from(s: String) -> (r: Self)
        ensures
            r@ == (match parse(s@) {
                Ok(l) => l,
                Err(_) => LocaleView::empty(),
            }),
    {
        Locale::from_tag(s.as_str())
    }
}

impl vstd::std_specs::convert::FromSpecImpl<String> for Locale {
    open spec fn obeys_from_spec() -> bool {
        false
    }

    closed spec fn from_spec(s: String) -> Self {
        arbitrary()
    }
}

} // verus!
