//! Likely subtags: from a partial identifier to the most likely full one.
//!
//! See <http://www.unicode.org/reports/tr35/#Likely_Subtags>

use vstd::prelude::*;
use crate::ascii::is_digit;
use crate::locale::{subtag_view, Locale};
use crate::locale::model::{
    is_language, is_lower_alpha, is_region, is_script, is_upper_alpha, und, LocaleView,
};
use crate::locale::parser::UND_WORD;
use crate::locale::tables::{
    lang_only, lang_region, lang_script, script_region, Row, LANG_ONLY, LANG_REGION, LANG_SCRIPT,
    SCRIPT_REGION,
};
use crate::locale::tinystr::{
    lane, lemma_bytes_pack, lemma_pack_bound, lemma_pack_bytes, pack, packed_bytes, packed_valid,
    TinyStr4,
};

verus! {

/// The rows `t` are in strictly ascending order of their keys.
pub open spec fn sorted(t: Seq<Row>) -> bool {
    forall|i: int, j: int| 0 <= i < j < t.len() ==> (#[trigger] t[i]).0 < (#[trigger] t[j]).0
}

/// Each row of `t` has a smaller key than the row behind it.
pub open spec fn ascending(t: Seq<Row>) -> bool {
    forall|i: int| 0 <= i < t.len() - 1 ==> (#[trigger] t[i]).0 < t[i + 1].0
}

/// Rows of which each has a smaller key than the next are sorted.
pub proof fn lemma_ascending_sorted(t: Seq<Row>)
    requires
        ascending(t),
    ensures
        sorted(t),
{
    assert forall|i: int, j: int| 0 <= i < j < t.len() implies (#[trigger] t[i]).0 < (
    #[trigger] t[j]).0 by {
        lemma_ascending_pair(t, i, j);
    }
}

/// Of two rows of an ascending table, the earlier has the smaller key.
proof fn lemma_ascending_pair(t: Seq<Row>, i: int, j: int)
    requires
        ascending(t),
        0 <= i < j < t.len(),
    ensures
        t[i].0 < t[j].0,
    decreases j - i,
{
    if i + 1 < j {
        lemma_ascending_pair(t, i, j - 1);
        assert(t[j - 1].0 < t[j - 1 + 1].0);
    } else {
        assert(t[i].0 < t[i + 1].0);
    }
}

/// The table from script and region is in ascending order.
#[verifier::rlimit(100)]
#[verifier::spinoff_prover]
proof fn lemma_script_region_ascending()
    ensures
        ascending(script_region()),
{
    reveal(script_region);
}

/// The table from language and region is in ascending order.
#[verifier::rlimit(100)]
#[verifier::spinoff_prover]
proof fn lemma_lang_region_ascending()
    ensures
        ascending(lang_region()),
{
    reveal(lang_region);
}

/// The table from language and script is in ascending order.
#[verifier::rlimit(100)]
#[verifier::spinoff_prover]
proof fn lemma_lang_script_ascending()
    ensures
        ascending(lang_script()),
{
    reveal(lang_script);
}

/// The table from language is in ascending order.
#[verifier::rlimit(100)]
#[verifier::spinoff_prover]
proof fn lemma_lang_only_ascending()
    ensures
        ascending(lang_only()),
{
    reveal(lang_only);
}

/// The four tables are sorted.
pub proof fn lemma_tables_sorted()
    ensures
        sorted(script_region()),
        sorted(lang_region()),
        sorted(lang_script()),
        sorted(lang_only()),
{
    lemma_script_region_ascending();
    lemma_lang_region_ascending();
    lemma_lang_script_ascending();
    lemma_lang_only_ascending();
    lemma_ascending_sorted(script_region());
    lemma_ascending_sorted(lang_region());
    lemma_ascending_sorted(lang_script());
    lemma_ascending_sorted(lang_only());
}

/// The word that packs the script `Zzzz`, which stands for no script.
pub const SCRIPT_ZZZZ_TAG: u32 = 0x7a7a_7a5a;

/// The word that packs the region `ZZ`, which stands for no region.
pub const REGION_ZZ_TAG: u32 = 0x5a5a;

/// `w` packs a canonical language subtag.
pub open spec fn language_word(w: u32) -> bool {
    &&& is_lower_alpha((w % 0x100) as u8)
    &&& is_lower_alpha(((w / 0x100) % 0x100) as u8)
    &&& w < 0x1_0000 || (w < 0x100_0000 && is_lower_alpha(((w / 0x1_0000) % 0x100) as u8))
    &&& w != UND_WORD
}

/// `w` packs a canonical script subtag other than `Zzzz`.
pub open spec fn script_word(w: u32) -> bool {
    &&& is_upper_alpha((w % 0x100) as u8)
    &&& is_lower_alpha(((w / 0x100) % 0x100) as u8)
    &&& is_lower_alpha(((w / 0x1_0000) % 0x100) as u8)
    &&& is_lower_alpha(((w / 0x100_0000) % 0x100) as u8)
    &&& w != SCRIPT_ZZZZ_TAG
}

/// `w` packs a canonical region subtag other than `ZZ`.
pub open spec fn region_word(w: u32) -> bool {
    &&& w != REGION_ZZ_TAG
    &&& {
        ||| w < 0x1_0000 && is_upper_alpha((w % 0x100) as u8) && is_upper_alpha(
            ((w / 0x100) % 0x100) as u8,
        )
        ||| 0x1_0000 <= w < 0x100_0000 && is_digit((w % 0x100) as u8) && is_digit(
            ((w / 0x100) % 0x100) as u8,
        ) && is_digit(((w / 0x1_0000) % 0x100) as u8)
    }
}

/// The row stands for a full tag in canonical form.
pub open spec fn row_ok(r: Row) -> bool {
    language_word(r.1) && script_word(r.2) && region_word(r.3)
}

/// Every row of `t` stands for a full tag in canonical form.
pub open spec fn rows_ok(t: Seq<Row>) -> bool {
    forall|i: int| 0 <= i < t.len() ==> row_ok(#[trigger] t[i])
}

/// Every row of the table from script and region is a full tag.
#[verifier::rlimit(100)]
#[verifier::spinoff_prover]
proof fn lemma_script_region_ok()
    ensures
        rows_ok(script_region()),
{
    reveal(script_region);
}

/// Every row of the table from language and region is a full tag.
#[verifier::rlimit(100)]
#[verifier::spinoff_prover]
proof fn lemma_lang_region_ok()
    ensures
        rows_ok(lang_region()),
{
    reveal(lang_region);
}

/// Every row of the table from language and script is a full tag.
#[verifier::rlimit(100)]
#[verifier::spinoff_prover]
proof fn lemma_lang_script_ok()
    ensures
        rows_ok(lang_script()),
{
    reveal(lang_script);
}

/// Every row of the table from language is a full tag.
#[verifier::rlimit(100)]
#[verifier::spinoff_prover]
proof fn lemma_lang_only_ok()
    ensures
        rows_ok(lang_only()),
{
    reveal(lang_only);
}

/// Every row of the four tables stands for a full tag in canonical form.
pub proof fn lemma_tables_ok()
    ensures
        rows_ok(script_region()),
        rows_ok(lang_region()),
        rows_ok(lang_script()),
        rows_ok(lang_only()),
{
    lemma_script_region_ok();
    lemma_lang_region_ok();
    lemma_lang_script_ok();
    lemma_lang_only_ok();
}

/// The first index at or after `from` at which the rows `t` hold the key
/// `key`; the length of `t` where there is none.
pub open spec fn row_index(t: Seq<Row>, key: u64, from: int) -> int
    decreases t.len() - from,
{
    if from < 0 || from >= t.len() {
        t.len() as int
    } else if t[from].0 == key {
        from
    } else {
        row_index(t, key, from + 1)
    }
}

/// The row of `t` with the key `key`, if there is one.
pub open spec fn lookup(t: Seq<Row>, key: u64) -> Option<Row> {
    let i = row_index(t, key, 0);
    if i < t.len() {
        Some(t[i])
    } else {
        None
    }
}

/// Where `row_index` stops: at the first row with the key.
pub proof fn lemma_row_index(t: Seq<Row>, key: u64, from: int)
    requires
        0 <= from <= t.len(),
    ensures
        from <= row_index(t, key, from) <= t.len(),
        forall|j: int| from <= j < row_index(t, key, from) ==> (#[trigger] t[j]).0 != key,
        row_index(t, key, from) < t.len() ==> t[row_index(t, key, from)].0 == key,
    decreases t.len() - from,
{
    if from < t.len() && t[from].0 != key {
        lemma_row_index(t, key, from + 1);
    }
}

/// A lookup finds a row of the table with the key, and finds none only where
/// no row has the key.
pub proof fn lemma_lookup(t: Seq<Row>, key: u64)
    ensures
        match lookup(t, key) {
            Some(r) => r.0 == key && t.contains(r),
            None => forall|j: int| 0 <= j < t.len() ==> (#[trigger] t[j]).0 != key,
        },
{
    lemma_row_index(t, key, 0);
}

/// Look a key up in a sorted table by binary search.
pub fn lookup_binary(key: u64, data: &[Row]) -> (r: Option<Row>)
    requires
        sorted(data@),
    ensures
        r == lookup(data@, key),
{
    let mut lo: usize = 0;
    let mut hi: usize = data.len();
    proof {
        lemma_row_index(data@, key, 0);
    }
    while lo < hi
        invariant
            lo <= hi <= data.len(),
            sorted(data@),
            forall|j: int| 0 <= j < lo ==> (#[trigger] data@[j]).0 < key,
            forall|j: int| hi <= j < data.len() ==> key < (#[trigger] data@[j]).0,
        decreases hi - lo,
    {
        let mid = lo + (hi - lo) / 2;
        let k = data[mid].0;
        if k == key {
            proof {
                lemma_row_index(data@, key, 0);
                let i = row_index(data@, key, 0);
                if i < mid {
                    assert(data@[i].0 < data@[mid as int].0);
                }
            }
            return Some(data[mid]);
        } else if k < key {
            lo = mid + 1;
        } else {
            hi = mid;
        }
    }
    proof {
        lemma_row_index(data@, key, 0);
    }
    None
}

/// The word of a subtag that may be absent: zero where it is.
pub open spec fn subtag_word(s: Option<Seq<u8>>) -> u32 {
    match s {
        Some(b) => pack(b) as u32,
        None => 0,
    }
}

/// The key with the word `high` in its high half and `low` in its low half.
pub open spec fn compose(high: u32, low: u32) -> u64 {
    (high * 0x1_0000_0000 + low) as u64
}

/// The script `Zzzz`.
pub open spec fn zzzz() -> Seq<u8> {
    seq![0x5au8, 0x7au8, 0x7au8, 0x7au8]
}

/// The region `ZZ`.
pub open spec fn zz() -> Seq<u8> {
    seq![0x5au8, 0x5au8]
}

/// The identifier `l` without a script `Zzzz` and without a region `ZZ`:
/// they stand for no script and no region.
pub open spec fn strip(l: LocaleView) -> LocaleView {
    LocaleView {
        script: if l.script == Some(zzzz()) {
            None
        } else {
            l.script
        },
        region: if l.region == Some(zz()) {
            None
        } else {
            l.region
        },
        ..l
    }
}

/// The row that resolves the subtags with the words `lang`, `script` and
/// `region`: the first that one of these lookups finds, in this order. With
/// no language, the script and the region together; the language and the
/// region; the language and the script; the language alone; the script
/// alone.
pub open spec fn likely_row(lang: u32, script: u32, region: u32) -> Option<Row> {
    let by_script_region = if lang == 0 {
        lookup(script_region(), compose(region, script))
    } else {
        None
    };
    let by_lang_region = lookup(lang_region(), compose(region, lang));
    let by_lang_script = lookup(lang_script(), compose(script, lang));
    let by_lang = lookup(lang_only(), lang as u64);
    let by_script = lookup(lang_script(), compose(script, 0));
    if by_script_region is Some {
        by_script_region
    } else if by_lang_region is Some {
        by_lang_region
    } else if by_lang_script is Some {
        by_lang_script
    } else if by_lang is Some {
        by_lang
    } else {
        by_script
    }
}

/// The identifier `l` with each of language, script and region that it
/// lacks taken from `row`.
pub open spec fn fill(l: LocaleView, row: Row) -> LocaleView {
    LocaleView {
        language: if l.language is None {
            Some(packed_bytes(row.1 as u64))
        } else {
            l.language
        },
        script: if l.script is None {
            Some(packed_bytes(row.2 as u64))
        } else {
            l.script
        },
        region: if l.region is None {
            Some(packed_bytes(row.3 as u64))
        } else {
            l.region
        },
        ..l
    }
}

/// The identifier `l` with its likely subtags added, where a lookup
/// resolves it.
pub open spec fn add_likely(l: LocaleView) -> Option<LocaleView> {
    let s = strip(l);
    match likely_row(subtag_word(s.language), subtag_word(s.script), subtag_word(s.region)) {
        Some(row) => Some(fill(s, row)),
        None => None,
    }
}

/// The words of a full tag pack subtags in canonical form.
pub proof fn lemma_row_ok(r: Row)
    requires
        row_ok(r),
    ensures
        packed_valid(r.1 as u64),
        packed_valid(r.2 as u64),
        packed_valid(r.3 as u64),
        is_language(packed_bytes(r.1 as u64)),
        is_script(packed_bytes(r.2 as u64)),
        is_region(packed_bytes(r.3 as u64)),
        packed_bytes(r.2 as u64) != zzzz(),
        packed_bytes(r.3 as u64) != zz(),
{
    let l = packed_bytes(r.1 as u64);
    let s = packed_bytes(r.2 as u64);
    let g = packed_bytes(r.3 as u64);
    assert(l != und()) by {
        lemma_bytes_pack(r.1 as u64);
        lemma_pack_und();
    }
    assert(s != zzzz() && g != zz()) by {
        lemma_bytes_pack(r.2 as u64);
        lemma_bytes_pack(r.3 as u64);
        lemma_pack_sentinels();
    }
    assert(is_language(l)) by {
        assert forall|i: int| 0 <= i < l.len() implies is_lower_alpha(#[trigger] l[i]) by {
            assert(l[i] == lane(r.1 as u64, i));
        }
    }
    assert(is_script(s)) by {
        assert(s[0] == lane(r.2 as u64, 0));
        assert forall|i: int| 1 <= i < s.len() implies is_lower_alpha(#[trigger] s[i]) by {
            assert(s[i] == lane(r.2 as u64, i));
        }
    }
    assert(is_region(g)) by {
        assert forall|i: int| 0 <= i < g.len() implies is_upper_alpha(#[trigger] g[i])
            || is_digit(g[i]) by {
            assert(g[i] == lane(r.3 as u64, i));
        }
        if g.len() == 2 {
            assert forall|i: int| 0 <= i < g.len() implies is_upper_alpha(#[trigger] g[i]) by {
                assert(g[i] == lane(r.3 as u64, i));
            }
        } else {
            assert forall|i: int| 0 <= i < g.len() implies is_digit(#[trigger] g[i]) by {
                assert(g[i] == lane(r.3 as u64, i));
            }
        }
    }
}

/// The words that pack `und`, `Zzzz` and `ZZ`.
pub proof fn lemma_pack_und()
    ensures
        pack(und()) == UND_WORD,
{
    reveal_with_fuel(pack, 4);
    let u = und();
    assert(u.skip(1) =~= seq![0x6eu8, 0x64u8]);
    assert(u.skip(1).skip(1) =~= seq![0x64u8]);
    assert(u.skip(1).skip(1).skip(1) =~= Seq::<u8>::empty());
}

/// The words that pack `Zzzz` and `ZZ`.
pub proof fn lemma_pack_sentinels()
    ensures
        pack(zzzz()) == SCRIPT_ZZZZ_TAG,
        pack(zz()) == REGION_ZZ_TAG,
{
    reveal_with_fuel(pack, 5);
    let u = zzzz();
    assert(u.skip(1) =~= seq![0x7au8, 0x7au8, 0x7au8]);
    assert(u.skip(1).skip(1) =~= seq![0x7au8, 0x7au8]);
    assert(u.skip(1).skip(1).skip(1) =~= seq![0x7au8]);
    assert(u.skip(1).skip(1).skip(1).skip(1) =~= Seq::<u8>::empty());
    let v = zz();
    assert(v.skip(1) =~= seq![0x5au8]);
    assert(v.skip(1).skip(1) =~= Seq::<u8>::empty());
}

/// A tiny string has the text `s` exactly when its word packs `s`.
pub proof fn lemma_word_text(t: TinyStr4, s: Seq<u8>)
    requires
        t.wf(),
        1 <= s.len() <= 4,
        forall|i: int| 0 <= i < s.len() ==> s[i] != 0,
    ensures
        t@ == s <==> t.spec_word() == pack(s),
        t.spec_word() == pack(t@),
{
    t.lemma_text();
    lemma_pack_bytes(s);
    lemma_pack_bound(s);
}

/// The word of a subtag that may be absent: zero where it is.
pub fn subtag_key(t: &Option<TinyStr4>) -> (w: u32)
    ensures
        w == subtag_word(subtag_view(*t)),
{
    match t {
        Some(t) => t.word(),
        None => 0,
    }
}

/// The key with the word `high` in its high half and `low` in its low half.
pub fn compose_key(high: u32, low: u32) -> (k: u64)
    ensures
        k == compose(high, low),
{
    (high as u64) * 0x1_0000_0000 + (low as u64)
}

/// The row of the table from script and region with the key `key`.
fn lookup_script_region(key: u64) -> (r: Option<Row>)
    ensures
        r == lookup(script_region(), key),
        r matches Some(row) ==> row_ok(row),
{
    proof {
        reveal(script_region);
        lemma_tables_sorted();
        lemma_tables_ok();
        lemma_lookup(script_region(), key);
    }
    lookup_binary(key, SCRIPT_REGION.as_slice())
}

/// The row of the table from language and region with the key `key`.
fn lookup_lang_region(key: u64) -> (r: Option<Row>)
    ensures
        r == lookup(lang_region(), key),
        r matches Some(row) ==> row_ok(row),
{
    proof {
        reveal(lang_region);
        lemma_tables_sorted();
        lemma_tables_ok();
        lemma_lookup(lang_region(), key);
    }
    lookup_binary(key, LANG_REGION.as_slice())
}

/// The row of the table from language and script with the key `key`.
fn lookup_lang_script(key: u64) -> (r: Option<Row>)
    ensures
        r == lookup(lang_script(), key),
        r matches Some(row) ==> row_ok(row),
{
    proof {
        reveal(lang_script);
        lemma_tables_sorted();
        lemma_tables_ok();
        lemma_lookup(lang_script(), key);
    }
    lookup_binary(key, LANG_SCRIPT.as_slice())
}

/// The row of the table from language with the key `key`.
fn lookup_lang_only(key: u64) -> (r: Option<Row>)
    ensures
        r == lookup(lang_only(), key),
        r matches Some(row) ==> row_ok(row),
{
    proof {
        reveal(lang_only);
        lemma_tables_sorted();
        lemma_tables_ok();
        lemma_lookup(lang_only(), key);
    }
    lookup_binary(key, LANG_ONLY.as_slice())
}

/// The row that resolves the subtags with the given words, if a table holds
/// one.
pub fn find_likely(lang: u32, script: u32, region: u32) -> (r: Option<Row>)
    ensures
        r == likely_row(lang, script, region),
        r matches Some(row) ==> row_ok(row),
{
    if lang == 0 {
        if let Some(row) = lookup_script_region(compose_key(region, script)) {
            return Some(row);
        }
    }
    if let Some(row) = lookup_lang_region(compose_key(region, lang)) {
        return Some(row);
    }
    if let Some(row) = lookup_lang_script(compose_key(script, lang)) {
        return Some(row);
    }
    if let Some(row) = lookup_lang_only(lang as u64) {
        return Some(row);
    }
    lookup_lang_script(compose_key(script, 0))
}

/// Apply a lookup result to the locale: each of language, script and region
/// that the locale lacks is taken from `row`.
pub(crate) fn apply_lookup(locale: &mut Locale, row: Row)
    requires
        row_ok(row),
    ensures
        final(locale)@ == fill(old(locale)@, row),
{
    proof {
        lemma_row_ok(row);
    }
    locale.well_formed();
    let language = match locale.language() {
        Some(l) => Some(l),
        None => TinyStr4::from_word(row.1),
    };
    let script = match locale.script() {
        Some(s) => Some(s),
        None => TinyStr4::from_word(row.2),
    };
    let region = match locale.region() {
        Some(r) => Some(r),
        None => TinyStr4::from_word(row.3),
    };
    locale.set_subtags(language, script, region);
}

impl Locale {
    /// Add likely subtags to locale.
    ///
    /// A script `Zzzz` and a region `ZZ` count as absent. The subtags that
    /// are present are looked up in the tables of likely subtags, and the
    /// first row that is found fills in the language, the script and the
    /// region that are absent. Returns `true` when the lookup succeeded;
    /// where none does, the locale is left as it was.
    pub fn add_likely_subtags(&mut self) -> (r: bool)
        ensures
            match add_likely(old(self)@) {
                Some(n) => r && final(self)@ == n,
                None => !r && final(self)@ == old(self)@,
            },
    {
        self.well_formed();
        let language = self.language();
        let mut script = self.script();
        let mut region = self.region();
        proof {
            lemma_pack_sentinels();
            if let Some(t) = script {
                use_type_invariant(&t);
                lemma_word_text(t, zzzz());
            }
            if let Some(t) = region {
                use_type_invariant(&t);
                lemma_word_text(t, zz());
            }
        }
        if subtag_key(&script) == SCRIPT_ZZZZ_TAG {
            script = None;
        }
        if subtag_key(&region) == REGION_ZZ_TAG {
            region = None;
        }
        match find_likely(subtag_key(&language), subtag_key(&script), subtag_key(&region)) {
            Some(row) => {
                self.set_subtags(language, script, region);
                apply_lookup(self, row);
                true
            },
            None => false,
        }
    }
}

/// A row that a lookup in a table of full tags finds is a full tag.
pub proof fn lemma_lookup_ok(t: Seq<Row>, key: u64)
    requires
        rows_ok(t),
    ensures
        lookup(t, key) matches Some(row) ==> row_ok(row),
{
    lemma_lookup(t, key);
    if let Some(row) = lookup(t, key) {
        let i = choose|i: int| 0 <= i < t.len() && t[i] == row;
        assert(row_ok(t[i]));
    }
}

/// The row that resolves an identifier is a full tag.
pub proof fn lemma_likely_row_ok(lang: u32, script: u32, region: u32)
    ensures
        likely_row(lang, script, region) matches Some(row) ==> row_ok(row),
{
    lemma_tables_ok();
    lemma_lookup_ok(script_region(), compose(region, script));
    lemma_lookup_ok(lang_region(), compose(region, lang));
    lemma_lookup_ok(lang_script(), compose(script, lang));
    lemma_lookup_ok(lang_only(), lang as u64);
    lemma_lookup_ok(lang_script(), compose(script, 0));
}

/// An identifier to which likely subtags were added has a language, a
/// script other than `Zzzz` and a region other than `ZZ`, and adding likely
/// subtags to it changes nothing.
pub proof fn lemma_add_likely_full(l: LocaleView)
    ensures
        add_likely(l) matches Some(n) ==> n.language is Some && n.script is Some && n.region is Some
            && n.script != Some(zzzz()) && n.region != Some(zz()),
        add_likely(l) matches Some(n) ==> strip(n) == n,
{
    let s = strip(l);
    let lang = subtag_word(s.language);
    let script = subtag_word(s.script);
    let region = subtag_word(s.region);
    lemma_likely_row_ok(lang, script, region);
    if let Some(row) = likely_row(lang, script, region) {
        lemma_row_ok(row);
    }
}

/// Adding likely subtags to an identifier that has a language, a script
/// other than `Zzzz` and a region other than `ZZ` changes nothing.
pub proof fn lemma_add_likely_keeps_full(n: LocaleView)
    requires
        n.language is Some,
        n.script is Some,
        n.region is Some,
        n.script != Some(zzzz()),
        n.region != Some(zz()),
    ensures
        add_likely(n) matches Some(m) ==> m == n,
{
}

/// In a sorted table, a row that has the key is the row that a lookup
/// finds.
pub proof fn lemma_lookup_at(t: Seq<Row>, key: u64, j: int)
    requires
        sorted(t),
        0 <= j < t.len(),
        t[j].0 == key,
    ensures
        lookup(t, key) == Some(t[j]),
{
    lemma_row_index(t, key, 0);
    let i = row_index(t, key, 0);
    if i < j {
        assert(t[i].0 < t[j].0);
    }
}

/// A lookup finds nothing where no row has the key.
pub proof fn lemma_lookup_none(t: Seq<Row>, key: u64)
    requires
        forall|i: int| 0 <= i < t.len() ==> (#[trigger] t[i]).0 != key,
    ensures
        lookup(t, key) is None,
{
    lemma_row_index(t, key, 0);
}

} // verus!
