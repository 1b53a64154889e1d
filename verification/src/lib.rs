//! An API for operating on locales and language tags: parsing, canonical
//! serialization, likely subtags and language negotiation.

pub mod accepted_languages;
pub mod ascii;
pub mod locale;
pub mod negotiate;
pub mod negotiation;

pub use accepted_languages::parse as parse_accepted_languages;
pub use locale::Locale;
pub use negotiate::negotiate_languages;
pub use negotiate::NegotiationStrategy;

use unic_langid::parser::ParserError;
use unic_langid::LanguageIdentifierError;
use vstd::prelude::*;
use crate::locale::model::LocaleView;
use crate::locale::parser::{parse, parse_language_tag, Error};
use crate::negotiate::views;

verus! {

/// What `unic_langid::canonicalize` makes of a tag: the tag in the canonical
/// spelling of a language identifier, or the error of the tag.
pub uninterp spec fn langid_canonical(tag: Seq<char>) -> Result<Seq<char>, Error>;

/// The text of a canonical spelling, where there is one.
pub open spec fn spelling_view(r: Result<String, Error>) -> Result<Seq<char>, Error> {
    match r {
        Ok(s) => Ok(s@),
        Err(e) => Err(e),
    }
}

/// `unic_langid::canonicalize`: reads `tag` as a language identifier and
/// writes it back in canonical spelling. The result depends on `tag`
/// alone. An error of the language subtag is handed on as
/// `InvalidLanguage`, and any other error as `InvalidSubtag`.
#[verifier::external_body]
fn canonicalize(tag: &str) -> (r: Result<String, Error>)
    ensures
        spelling_view(r) == langid_canonical(tag@),
{
    match unic_langid::canonicalize(tag) {
        Ok(s) => Ok(s),
        Err(LanguageIdentifierError::ParserError(ParserError::InvalidLanguage)) => Err(
            Error::InvalidLanguage,
        ),
        Err(_) => Err(Error::InvalidSubtag),
    }
}

/// The identifier of a tag as a language identifier: what the parser reads
/// from the canonical spelling of the tag.
pub open spec fn langid(tag: Seq<char>) -> Result<LocaleView, Error> {
    match langid_canonical(tag) {
        Ok(s) => parse(s),
        Err(e) => Err(e),
    }
}

/// The identifier that the parser reads from a canonical spelling, where
/// there is one.
pub open spec fn read_spelling(spelling: Result<Seq<char>, Error>) -> Result<LocaleView, Error> {
    match spelling {
        Ok(s) => parse(s),
        Err(e) => Err(e),
    }
}

/// The locale of a canonical spelling: what the parser reads from it, and
/// the error where there is no spelling.
pub fn locale_of_spelling(spelling: Result<String, Error>) -> (r: Result<Locale, Error>)
    ensures
        match read_spelling(spelling_view(spelling)) {
            Ok(l) => r is Ok && r->Ok_0@ == l,
            Err(e) => r is Err && r->Err_0 == e,
        },
{
    match spelling {
        Ok(s) => parse_language_tag(s.as_str()),
        Err(e) => Err(e),
    }
}

/// The texts of the strings `v`.
pub open spec fn tag_views(v: Seq<&str>) -> Seq<Seq<char>> {
    Seq::new(v.len(), |i: int| v[i]@)
}

/// The identifiers of the first `upto` of the tags `tags`, or the error of
/// the first tag that is no language identifier.
pub open spec fn converted(tags: Seq<Seq<char>>, upto: int) -> Result<Seq<LocaleView>, Error>
    decreases upto,
{
    if upto <= 0 {
        Ok(Seq::empty())
    } else {
        match converted(tags, upto - 1) {
            Ok(front) => match langid(tags[upto - 1]) {
                Ok(l) => Ok(front.push(l)),
                Err(e) => Err(e),
            },
            Err(e) => Err(e),
        }
    }
}

/// The identifiers of those of the first `upto` of the tags `tags` that are
/// language identifiers.
pub open spec fn converted_lossy(tags: Seq<Seq<char>>, upto: int) -> Seq<LocaleView>
    decreases upto,
{
    if upto <= 0 {
        Seq::empty()
    } else {
        match langid(tags[upto - 1]) {
            Ok(l) => converted_lossy(tags, upto - 1).push(l),
            Err(_) => converted_lossy(tags, upto - 1),
        }
    }
}

/// Converts tags to locales, in their order. The first tag that is no
/// language identifier ends the conversion with its error.
pub fn convert_vec_str_to_langids(input: &[&str]) -> (r: Result<Vec<Locale>, Error>)
    ensures
        match converted(tag_views(input@), input.len() as int) {
            Ok(l) => r is Ok && views(r->Ok_0@) == l,
            Err(e) => r is Err && r->Err_0 == e,
        },
{
    let mut result: Vec<Locale> = Vec::new();
    let mut i: usize = 0;
    assert(views(result@) =~= Seq::empty());
    while i < input.len()
        invariant
            i <= input.len(),
            converted(tag_views(input@), i as int) == Ok::<Seq<LocaleView>, Error>(views(result@)),
        decreases input.len() - i,
    {
        assert(tag_views(input@)[i as int] == input@[i as int]@);
        let ghost before = views(result@);
        match locale_of_spelling(canonicalize(input[i])) {
            Ok(locale) => {
                result.push(locale);
                assert(views(result@) =~= before.push(locale@));
            },
            Err(e) => {
                assert(converted(tag_views(input@), i + 1) == Err::<Seq<LocaleView>, Error>(e));
                proof {
                    lemma_converted_error(tag_views(input@), i + 1, input.len() as int);
                }
                return Err(e);
            },
        }
        i += 1;
    }
    Ok(result)
}

/// An error of the conversion of some tags is the error of the conversion
/// of more.
proof fn lemma_converted_error(tags: Seq<Seq<char>>, upto: int, more: int)
    requires
        upto <= more,
        converted(tags, upto) is Err,
    ensures
        converted(tags, more) == converted(tags, upto),
    decreases more - upto,
{
    if upto < more {
        lemma_converted_error(tags, upto, more - 1);
    }
}

/// Converts tags to locales, in their order, and leaves out the tags that
/// are no language identifiers.
pub fn convert_vec_str_to_langids_lossy(input: &[&str]) -> (r: Vec<Locale>)
    ensures
        views(r@) == converted_lossy(tag_views(input@), input.len() as int),
{
    let mut result: Vec<Locale> = Vec::new();
    let mut i: usize = 0;
    assert(views(result@) =~= Seq::empty());
    while i < input.len()
        invariant
            i <= input.len(),
            converted_lossy(tag_views(input@), i as int) == views(result@),
        decreases input.len() - i,
    {
        assert(tag_views(input@)[i as int] == input@[i as int]@);
        let ghost before = views(result@);
        match locale_of_spelling(canonicalize(input[i])) {
            Ok(locale) => {
                result.push(locale);
                assert(views(result@) =~= before.push(locale@));
            },
            Err(_) => {},
        }
        i += 1;
    }
    result
}

} // verus!
