//! Options of a locale: named settings that are applied on top of a
//! language tag.
//!
//! The options `language`, `script` and `region` replace the subtag of that
//! name. Every other option is a keyword of the Unicode extension: the names
//! `hour-cycle` and `calendar` stand for the keys `hc` and `ca`, and any
//! other name is its own key.

use vstd::prelude::*;
use vstd::string::StringSliceAdditionalSpecFns;
use vstd::utf8::encode_utf8;
use crate::ascii::{bytes_eq, lemma_bytes_chars, str_is, to_chars};
use crate::locale::{extension_added, Locale};
use crate::locale::model::{und, LocaleView, UNICODE};
use crate::locale::parser::{language_of, region_of, script_of};

verus! {

/// The bytes of `language`.
pub const LANGUAGE: [u8; 8] = [0x6c, 0x61, 0x6e, 0x67, 0x75, 0x61, 0x67, 0x65];

/// The bytes of `script`.
pub const SCRIPT: [u8; 6] = [0x73, 0x63, 0x72, 0x69, 0x70, 0x74];

/// The bytes of `region`.
pub const REGION: [u8; 6] = [0x72, 0x65, 0x67, 0x69, 0x6f, 0x6e];

/// The bytes of `unicode`.
pub const UNICODE_NAME: [u8; 7] = [0x75, 0x6e, 0x69, 0x63, 0x6f, 0x64, 0x65];

/// The bytes of `hour-cycle`.
pub const HOUR_CYCLE: [u8; 10] = [0x68, 0x6f, 0x75, 0x72, 0x2d, 0x63, 0x79, 0x63, 0x6c, 0x65];

/// The bytes of `calendar`.
pub const CALENDAR: [u8; 8] = [0x63, 0x61, 0x6c, 0x65, 0x6e, 0x64, 0x61, 0x72];

/// The bytes of `hc`.
pub const HC: [u8; 2] = [0x68, 0x63];

/// The bytes of `ca`.
pub const CA: [u8; 2] = [0x63, 0x61];

/// The name of the option that the key `key` of the Unicode extension
/// stands for.
pub fn option_name_for_key(key: &str) -> (r: &'static str)
    requires
        key@ == "hc"@ || key@ == "ca"@,
    ensures
        key@ == "hc"@ ==> r@ == "hour-cycle"@,
        key@ == "ca"@ ==> r@ == "calendar"@,
{
    proof {
        reveal_strlit("hc");
        reveal_strlit("ca");
        assert("hc"@[0] == 'h' && "ca"@[0] == 'c');
    }
    if str_is(key, "hc") {
        "hour-cycle"
    } else {
        "calendar"
    }
}

/// The key of the Unicode extension that the option of the name `key`
/// stands for.
pub fn option_key_for_name(key: &str) -> (r: &'static str)
    requires
        key@ == "hour-cycle"@ || key@ == "calendar"@,
    ensures
        key@ == "hour-cycle"@ ==> r@ == "hc"@,
        key@ == "calendar"@ ==> r@ == "ca"@,
{
    proof {
        reveal_strlit("hour-cycle");
        reveal_strlit("calendar");
        assert("hour-cycle"@[0] == 'h' && "calendar"@[0] == 'c');
    }
    if str_is(key, "hour-cycle") {
        "hc"
    } else {
        "ca"
    }
}

/// The key of the Unicode extension under which the option of the name
/// `name` is stored.
pub open spec fn option_key(name: Seq<u8>) -> Seq<u8> {
    if name == HOUR_CYCLE@ {
        HC@
    } else if name == CALENDAR@ {
        CA@
    } else {
        name
    }
}

/// The name of the option that is stored under the key `key` of the
/// Unicode extension.
pub open spec fn option_name(key: Seq<u8>) -> Seq<u8> {
    if key == HC@ {
        HOUR_CYCLE@
    } else if key == CA@ {
        CALENDAR@
    } else {
        key
    }
}

/// The identifier `l` with the option `key` set to `value`.
///
/// A language, a script or a region that is no such subtag leaves the field
/// absent. A keyword that the Unicode extension cannot hold is left out.
pub open spec fn with_option(l: LocaleView, key: Seq<u8>, value: Seq<u8>) -> LocaleView {
    if key == LANGUAGE@ {
        LocaleView {
            language: match language_of(value) {
                Ok(v) => if v == und() {
                    None
                } else {
                    Some(v)
                },
                Err(_) => None,
            },
            ..l
        }
    } else if key == SCRIPT@ {
        LocaleView {
            script: match script_of(value) {
                Ok(v) => Some(v),
                Err(_) => None,
            },
            ..l
        }
    } else if key == REGION@ {
        LocaleView {
            region: match region_of(value) {
                Ok(v) => Some(v),
                Err(_) => None,
            },
            ..l
        }
    } else {
        match extension_added(l, UNICODE_NAME@, key, value) {
            Ok(n) => n,
            Err(_) => l,
        }
    }
}

/// The identifier `l` with the options `opts` from `from` on applied in
/// their order.
pub open spec fn with_options(l: LocaleView, opts: Seq<(Seq<u8>, Seq<u8>)>, from: int) -> LocaleView
    decreases opts.len() - from,
{
    if from < 0 || from >= opts.len() {
        l
    } else {
        with_options(with_option(l, opts[from].0, opts[from].1), opts, from + 1)
    }
}

/// The names and values of the options `o`, as bytes.
pub open spec fn option_views(o: Seq<(&str, &str)>) -> Seq<(Seq<u8>, Seq<u8>)> {
    Seq::new(o.len(), |i: int| (o[i].0.spec_bytes(), o[i].1.spec_bytes()))
}

/// Applies one option to the locale.
pub fn apply_option(loc: &mut Locale, key: &str, value: &str)
    ensures
        final(loc)@ == with_option(old(loc)@, key.spec_bytes(), value.spec_bytes()),
{
    let k = key.as_bytes();
    if bytes_eq(k, LANGUAGE.as_slice()) {
        loc.replace_language(value);
    } else if bytes_eq(k, SCRIPT.as_slice()) {
        loc.replace_script(value);
    } else if bytes_eq(k, REGION.as_slice()) {
        loc.replace_region(value);
    } else {
        proof {
            lemma_names();
        }
        let _ = loc.add_extension(string_from("unicode"), string_from(key), string_from(value));
    }
}

/// Applies the options to the locale, in their order.
pub fn apply_options(loc: &mut Locale, opts: Vec<(&str, &str)>)
    ensures
        final(loc)@ == with_options(old(loc)@, option_views(opts@), 0),
{
    let mut i: usize = 0;
    while i < opts.len()
        invariant
            i <= opts.len(),
            with_options(old(loc)@, option_views(opts@), 0) == with_options(
                loc@,
                option_views(opts@),
                i as int,
            ),
        decreases opts.len() - i,
    {
        let (key, value) = opts[i];
        assert(option_views(opts@)[i as int] == (key.spec_bytes(), value.spec_bytes()));
        apply_option(loc, key, value);
        i += 1;
    }
}

/// An owned copy of the string `s`.
fn string_from(s: &str) -> (r: String)
    ensures
        r@ == s@,
{
    s.to_owned()
}

/// The names that options and extensions are written with, as characters
/// and as bytes.
pub proof fn lemma_names()
    ensures
        "hc"@ == to_chars(HC@),
        "ca"@ == to_chars(CA@),
        "hour-cycle"@ == to_chars(HOUR_CYCLE@),
        "calendar"@ == to_chars(CALENDAR@),
        "unicode"@ == to_chars(UNICODE_NAME@),
        "u"@ == to_chars(seq![UNICODE]),
        "hc".spec_bytes() == HC@,
        "ca".spec_bytes() == CA@,
        "hour-cycle".spec_bytes() == HOUR_CYCLE@,
        "calendar".spec_bytes() == CALENDAR@,
        "unicode".spec_bytes() == UNICODE_NAME@,
        "u".spec_bytes() == seq![UNICODE],
{
    reveal_strlit("hc");
    reveal_strlit("ca");
    reveal_strlit("hour-cycle");
    reveal_strlit("calendar");
    reveal_strlit("unicode");
    reveal_strlit("u");
    assert("hc"@ =~= to_chars(HC@));
    assert("ca"@ =~= to_chars(CA@));
    assert("hour-cycle"@ =~= to_chars(HOUR_CYCLE@));
    assert("calendar"@ =~= to_chars(CALENDAR@));
    assert("unicode"@ =~= to_chars(UNICODE_NAME@));
    assert("u"@ =~= to_chars(seq![UNICODE]));
    lemma_bytes_chars(HC@);
    lemma_bytes_chars(CA@);
    lemma_bytes_chars(HOUR_CYCLE@);
    lemma_bytes_chars(CALENDAR@);
    lemma_bytes_chars(UNICODE_NAME@);
    lemma_bytes_chars(seq![UNICODE]);
}

} // verus!
