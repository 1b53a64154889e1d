//! The expander of locale identifiers: from a partial identifier to its
//! most likely full form.
//!
//! A few identifiers are resolved by a table of shortcuts; all others by the
//! tables of likely subtags. The shortcuts agree with the tables: they spare
//! the lookups and change no result.

use vstd::prelude::*;
use crate::locale::{subtag_eq, Locale};
use crate::ascii::is_digit;
use crate::locale::likely_subtags::{
    fill, lemma_lookup_at, lemma_lookup_none, lemma_pack_sentinels, lemma_tables_sorted,
    likely_row, strip,
};
use crate::locale::model::{is_region, is_upper_alpha};
use crate::locale::tables::{lang_only, lang_region, lang_script};
use crate::locale::tinystr::{lemma_pack_bound, lemma_pack_bytes};
use crate::locale::likely_subtags::{
    add_likely, apply_lookup, ascending, compose, compose_key, lemma_add_likely_full,
    lemma_add_likely_keeps_full, lemma_ascending_sorted, lemma_lookup, lemma_lookup_ok,
    lemma_row_ok, lookup, lookup_binary, rows_ok, sorted, subtag_key, subtag_word,
};
use crate::locale::model::LocaleView;
use crate::locale::tables::Row;
use crate::locale::tinystr::packed_bytes;

verus! {

/// The shortcuts: from a language and a region to a tag, the region in the
/// high half of the key and the language in the low half. They hold for an
/// identifier that has neither a script nor variants.
pub const SHORTCUTS: [Row; 7] = [
    (0x6e65, 0x6e65, 0x6e74614c, 0x5355),  // en: en-Latn-US
    (0x7266, 0x7266, 0x6e74614c, 0x5246),  // fr: fr-Latn-FR
    (0x7273, 0x7273, 0x6c727943, 0x5352),  // sr: sr-Cyrl-RS
    (0x42470000687a, 0x687a, 0x746e6148, 0x4247),  // zh-GB: zh-Hant-GB
    (0x524900007a61, 0x7a61, 0x62617241, 0x5249),  // az-IR: az-Arab-IR
    (0x53550000687a, 0x687a, 0x746e6148, 0x5355),  // zh-US: zh-Hant-US
    (0x555200007273, 0x7273, 0x6e74614c, 0x5552),  // sr-RU: sr-Latn-RU
];

/// The rows of `SHORTCUTS`.
#[verifier::opaque]
pub open spec fn shortcuts() -> Seq<Row> {
    SHORTCUTS@
}

/// The shortcuts are sorted, and each stands for a full tag.
pub proof fn lemma_shortcuts()
    ensures
        sorted(shortcuts()),
        rows_ok(shortcuts()),
{
    reveal(shortcuts);
    assert(ascending(shortcuts()));
    lemma_ascending_sorted(shortcuts());
}

/// Whether an expansion changed the identifier.
#[derive(PartialEq, Eq, Debug, Clone, Copy, Structural)]
pub enum TransformResult {
    /// The identifier is not what it was.
    Modified,
    /// The identifier is what it was.
    Unmodified,
}

/// The shortcut that resolves the identifier `l`, if there is one: `l` has
/// neither a script nor variants, and its language and region are the key
/// of a shortcut.
pub open spec fn shortcut(l: LocaleView) -> Option<Row> {
    if l.script is None && l.variants.len() == 0 {
        lookup(shortcuts(), compose(subtag_word(l.region), subtag_word(l.language)))
    } else {
        None
    }
}

/// The identifier `l` with the language, the script and the region of
/// `row`.
pub open spec fn replace(l: LocaleView, row: Row) -> LocaleView {
    LocaleView {
        language: Some(packed_bytes(row.1 as u64)),
        script: Some(packed_bytes(row.2 as u64)),
        region: Some(packed_bytes(row.3 as u64)),
        ..l
    }
}

/// The most likely full form of the identifier `l`: what its shortcut says,
/// or else what the tables of likely subtags add; `l` itself where neither
/// resolves it.
pub open spec fn maximized(l: LocaleView) -> LocaleView {
    match shortcut(l) {
        Some(row) => replace(l, row),
        None => match add_likely(l) {
            Some(n) => n,
            None => l,
        },
    }
}

/// Whether maximizing changes the identifier `l`.
pub open spec fn transform_result(l: LocaleView) -> TransformResult {
    if maximized(l) == l {
        TransformResult::Unmodified
    } else {
        TransformResult::Modified
    }
}

/// Maximizes locale identifiers.
pub struct LocaleExpander {}

impl LocaleExpander {
    /// An expander over the built-in tables.
    pub fn new() -> (r: Self) {
        LocaleExpander {  }
    }

    /// Replaces `input` by its most likely full form, and says whether that
    /// changed it.
    pub fn maximize(&self, input: &mut Locale) -> (r: TransformResult)
        ensures
            final(input)@ == maximized(old(input)@),
            r == transform_result(old(input)@),
    {
        let language = input.language();
        let script = input.script();
        let region = input.region();
        let mut resolved = false;
        if script.is_none() && !input.has_variants() {
            proof {
                reveal(shortcuts);
                lemma_shortcuts();
                lemma_lookup(
                    shortcuts(),
                    compose(subtag_word(input@.region), subtag_word(input@.language)),
                );
            }
            let key = compose_key(subtag_key(&region), subtag_key(&language));
            if let Some(row) = lookup_binary(key, SHORTCUTS.as_slice()) {
                input.clear_subtags();
                apply_lookup(input, row);
                resolved = true;
            }
        }
        if !resolved {
            let _ = input.add_likely_subtags();
        }
        let same = subtag_eq(&language, &input.language()) && subtag_eq(&script, &input.script())
            && subtag_eq(&region, &input.region());
        if same {
            assert(input@ =~= old(input)@);
            TransformResult::Unmodified
        } else {
            TransformResult::Modified
        }
    }
}

/// Maximizing is idempotent: the most likely full form of an identifier is
/// its own most likely full form, so that maximizing it again leaves it
/// unmodified.
pub proof fn lemma_maximize_idempotent(l: LocaleView)
    ensures
        maximized(maximized(l)) == maximized(l),
        transform_result(maximized(l)) == TransformResult::Unmodified,
{
    let y = maximized(l);
    match shortcut(l) {
        Some(row) => {
            lemma_shortcuts();
            lemma_lookup_ok(
                shortcuts(),
                compose(subtag_word(l.region), subtag_word(l.language)),
            );
            lemma_row_ok(row);
            lemma_add_likely_keeps_full(y);
        },
        None => {
            lemma_add_likely_full(l);
            if add_likely(l) is Some {
                lemma_add_likely_keeps_full(y);
            }
        },
    }
}

/// The rows of the table from language and region that have the keys of the shortcuts.
#[verifier::rlimit(100)]
#[verifier::spinoff_prover]
proof fn lemma_rows_by_region()
    ensures
        lang_region().len() == 211,
        forall|i: int| 0 <= i < lang_region().len() ==> (#[trigger] lang_region()[i]).0 != 0x6e65,
        forall|i: int| 0 <= i < lang_region().len() ==> (#[trigger] lang_region()[i]).0 != 0x7266,
        forall|i: int| 0 <= i < lang_region().len() ==> (#[trigger] lang_region()[i]).0 != 0x7273,
        lang_region()[183] == (0x555200007273u64, 0x7273u32, 0x6e74614cu32, 0x5552u32),
        lang_region()[153] == (0x524900007a61u64, 0x7a61u32, 0x62617241u32, 0x5249u32),
        lang_region()[12] == (0x42470000687au64, 0x687au32, 0x746e6148u32, 0x4247u32),
        lang_region()[168] == (0x53550000687au64, 0x687au32, 0x746e6148u32, 0x5355u32),
{
    reveal(lang_region);
}

/// What the table from language and region holds for the keys of the shortcuts.
proof fn lemma_shortcuts_by_region()
    ensures
        lookup(lang_region(), 0x6e65) is None,
        lookup(lang_region(), 0x7266) is None,
        lookup(lang_region(), 0x7273) is None,
        lookup(lang_region(), 0x555200007273) == Some((0x555200007273u64, 0x7273u32, 0x6e74614cu32, 0x5552u32)),
        lookup(lang_region(), 0x524900007a61) == Some((0x524900007a61u64, 0x7a61u32, 0x62617241u32, 0x5249u32)),
        lookup(lang_region(), 0x42470000687a) == Some((0x42470000687au64, 0x687au32, 0x746e6148u32, 0x4247u32)),
        lookup(lang_region(), 0x53550000687a) == Some((0x53550000687au64, 0x687au32, 0x746e6148u32, 0x5355u32)),
{
    lemma_tables_sorted();
    lemma_rows_by_region();
    lemma_lookup_none(lang_region(), 0x6e65);
    lemma_lookup_none(lang_region(), 0x7266);
    lemma_lookup_none(lang_region(), 0x7273);
    lemma_lookup_at(lang_region(), 0x555200007273, 183);
    lemma_lookup_at(lang_region(), 0x524900007a61, 153);
    lemma_lookup_at(lang_region(), 0x42470000687a, 12);
    lemma_lookup_at(lang_region(), 0x53550000687a, 168);
}

/// The rows of the table from language and script that have the keys of the shortcuts.
#[verifier::rlimit(100)]
#[verifier::spinoff_prover]
proof fn lemma_rows_by_script()
    ensures
        lang_script().len() == 86,
        forall|i: int| 0 <= i < lang_script().len() ==> (#[trigger] lang_script()[i]).0 != 0x6e65,
        forall|i: int| 0 <= i < lang_script().len() ==> (#[trigger] lang_script()[i]).0 != 0x7266,
        forall|i: int| 0 <= i < lang_script().len() ==> (#[trigger] lang_script()[i]).0 != 0x7273,
{
    reveal(lang_script);
}

/// What the table from language and script holds for the keys of the shortcuts.
proof fn lemma_shortcuts_by_script()
    ensures
        lookup(lang_script(), 0x6e65) is None,
        lookup(lang_script(), 0x7266) is None,
        lookup(lang_script(), 0x7273) is None,
{
    lemma_tables_sorted();
    lemma_rows_by_script();
    lemma_lookup_none(lang_script(), 0x6e65);
    lemma_lookup_none(lang_script(), 0x7266);
    lemma_lookup_none(lang_script(), 0x7273);
}

/// The rows of the table from language that have the keys of the shortcuts.
#[verifier::rlimit(100)]
#[verifier::spinoff_prover]
proof fn lemma_rows_by_language()
    ensures
        lang_only().len() == 158,
        lang_only()[60] == (0x6e65u64, 0x6e65u32, 0x6e74614cu32, 0x5355u32),
        lang_only()[78] == (0x7266u64, 0x7266u32, 0x6e74614cu32, 0x5246u32),
        lang_only()[82] == (0x7273u64, 0x7273u32, 0x6c727943u32, 0x5352u32),
{
    reveal(lang_only);
}

/// What the table from language holds for the keys of the shortcuts.
proof fn lemma_shortcuts_by_language()
    ensures
        lookup(lang_only(), 0x6e65) == Some((0x6e65u64, 0x6e65u32, 0x6e74614cu32, 0x5355u32)),
        lookup(lang_only(), 0x7266) == Some((0x7266u64, 0x7266u32, 0x6e74614cu32, 0x5246u32)),
        lookup(lang_only(), 0x7273) == Some((0x7273u64, 0x7273u32, 0x6c727943u32, 0x5352u32)),
{
    lemma_tables_sorted();
    lemma_rows_by_language();
    lemma_lookup_at(lang_only(), 0x6e65, 60);
    lemma_lookup_at(lang_only(), 0x7266, 78);
    lemma_lookup_at(lang_only(), 0x7273, 82);
}

/// The shortcuts agree with the tables of likely subtags: where a shortcut
/// resolves a well-formed identifier, the tables add the same subtags.
pub proof fn lemma_shortcuts_agree(l: LocaleView)
    requires
        l.wf(),
    ensures
        shortcut(l) matches Some(row) ==> add_likely(l) == Some(replace(l, row)),
{
    if let Some(row) = shortcut(l) {
        let lang = subtag_word(l.language);
        let region = subtag_word(l.region);
        let key = compose(region, lang);
        lemma_lookup(shortcuts(), key);
        assert(row.0 == key && shortcuts().contains(row));
        let i = choose|i: int| 0 <= i < shortcuts().len() && shortcuts()[i] == row;
        reveal(shortcuts);
        assert(row == SHORTCUTS@[i]);
        lemma_shortcuts_by_region();
        lemma_shortcuts_by_script();
        lemma_shortcuts_by_language();
        lemma_pack_sentinels();
        match l.language {
            Some(b) => {
                lemma_pack_bytes(b);
                lemma_pack_bound(b);
            },
            None => {},
        }
        match l.region {
            Some(b) => {
                assert(is_region(b));
                assert forall|j: int| 0 <= j < b.len() implies b[j] != 0 by {
                    if b.len() == 2 {
                        assert(is_upper_alpha(b[j]));
                    } else {
                        assert(is_digit(b[j]));
                    }
                }
                lemma_pack_bytes(b);
                lemma_pack_bound(b);
            },
            None => {},
        }
        assert(strip(l) == l);
        let found = likely_row(lang, 0, region);
        assert(found is Some);
        assert(fill(l, found->Some_0) == replace(l, row));
    }
}

/// A shortcut is no more than a shortcut: the most likely full form of a
/// well-formed identifier is what the tables of likely subtags make of it.
pub proof fn lemma_maximized_is_likely(l: LocaleView)
    requires
        l.wf(),
    ensures
        maximized(l) == (match add_likely(l) {
            Some(n) => n,
            None => l,
        }),
{
    lemma_shortcuts_agree(l);
}

} // verus!
