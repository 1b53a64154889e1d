//! Negotiation by language alone: for each requested tag, the available
//! tags of the same language.

use vstd::prelude::*;
use crate::ascii::to_chars;
use crate::locale::Locale;
use crate::locale::model::LocaleView;
use crate::locale::parser::parse;
use crate::locale::render::render;

verus! {

/// The identifier that the tag `t` spells; the identifier with every field
/// absent where it spells none.
pub open spec fn read(t: Seq<char>) -> LocaleView {
    match parse(t) {
        Ok(l) => l,
        Err(_) => LocaleView::empty(),
    }
}

/// The texts of the strings `v`.
pub open spec fn str_views(v: Seq<&str>) -> Seq<Seq<char>> {
    Seq::new(v.len(), |i: int| v[i]@)
}

/// The texts of the strings `v`.
pub open spec fn string_views(v: Seq<String>) -> Seq<Seq<char>> {
    Seq::new(v.len(), |i: int| v[i]@)
}

/// The serializations of those of the first `upto` available tags that have
/// the language `language`.
pub open spec fn same_language(language: Seq<u8>, available: Seq<Seq<char>>, upto: int) -> Seq<
    Seq<char>,
>
    decreases upto,
{
    if upto <= 0 {
        Seq::empty()
    } else if read(available[upto - 1]).language == Some(language) {
        same_language(language, available, upto - 1).push(
            to_chars(render(read(available[upto - 1]))),
        )
    } else {
        same_language(language, available, upto - 1)
    }
}

/// For each of the first `upto` requested tags that has a language, the
/// serializations of the available tags of that language.
pub open spec fn matched(requested: Seq<Seq<char>>, available: Seq<Seq<char>>, upto: int) -> Seq<
    Seq<char>,
>
    decreases upto,
{
    if upto <= 0 {
        Seq::empty()
    } else {
        matched(requested, available, upto - 1) + (match read(requested[upto - 1]).language {
            Some(language) => same_language(language, available, available.len() as int),
            None => Seq::empty(),
        })
    }
}

/// For each requested tag that has a language, in the order of the
/// requested tags, the available tags of the same language in canonical
/// form. A tag that the parser does not accept counts as a tag without a
/// language.
pub fn filter_matches(requested: Vec<&str>, available: Vec<&str>) -> (r: Vec<String>)
    ensures
        string_views(r@) == matched(
            str_views(requested@),
            str_views(available@),
            requested.len() as int,
        ),
{
    let mut available_locales: Vec<Locale> = Vec::new();
    let mut k: usize = 0;
    while k < available.len()
        invariant
            k <= available.len(),
            available_locales.len() == k,
            forall|j: int| 0 <= j < k ==> available_locales@[j]@ == read(available@[j]@),
        decreases available.len() - k,
    {
        available_locales.push(Locale::from_tag(available[k]));
        k += 1;
    }
    let mut supported_locales: Vec<String> = Vec::new();
    let mut i: usize = 0;
    assert(string_views(supported_locales@) =~= Seq::empty());
    while i < requested.len()
        invariant
            i <= requested.len(),
            available_locales.len() == available.len(),
            forall|j: int|
                0 <= j < available.len() ==> available_locales@[j]@ == read(available@[j]@),
            string_views(supported_locales@) == matched(
                str_views(requested@),
                str_views(available@),
                i as int,
            ),
        decreases requested.len() - i,
    {
        let requested_locale = Locale::from_tag(requested[i]);
        assert(str_views(requested@)[i as int] == requested@[i as int]@);
        let ghost before = string_views(supported_locales@);
        if let Some(language) = requested_locale.language() {
            let mut j: usize = 0;
            assert(before + Seq::<Seq<char>>::empty() =~= before);
            while j < available_locales.len()
                invariant
                    j <= available_locales.len(),
                    available_locales.len() == available.len(),
                    forall|n: int|
                        0 <= n < available.len() ==> available_locales@[n]@ == read(available@[n]@),
                    string_views(supported_locales@) == before + same_language(
                        language@,
                        str_views(available@),
                        j as int,
                    ),
                decreases available_locales.len() - j,
            {
                let available_locale = &available_locales[j];
                assert(str_views(available@)[j as int] == available@[j as int]@);
                let ghost sofar = same_language(language@, str_views(available@), j as int);
                if crate::locale::subtag_eq(&Some(language), &available_locale.language()) {
                    let s = available_locale.to_string();
                    let ghost text = s@;
                    let ghost prev = string_views(supported_locales@);
                    supported_locales.push(s);
                    assert(string_views(supported_locales@) =~= prev.push(text));
                    assert(prev.push(text) =~= before + sofar.push(text));
                }
                j += 1;
            }
        } else {
            assert(before + Seq::<Seq<char>>::empty() =~= before);
        }
        i += 1;
    }
    supported_locales
}

/// Negotiates by language alone: what `filter_matches` gives.
pub fn negotiate_languages(requested: Vec<&str>, available: Vec<&str>) -> (r: Vec<String>)
    ensures
        string_views(r@) == matched(
            str_views(requested@),
            str_views(available@),
            requested.len() as int,
        ),
{
    filter_matches(requested, available)
}

} // verus!
