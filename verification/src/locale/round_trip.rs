//! The canonical serialization is a fixed point of the parser: a tag that
//! the parser accepts is written, and the parser reads from what was
//! written the identifier that it had read from the tag.

use vstd::prelude::*;
use crate::ascii::{
    all_alpha, all_ascii, is_alpha, is_digit, lex_lt, lowercase, titlecase, to_bytes, to_chars,
    uppercase,
};
use crate::locale::model::{
    entries_sorted, extensions_sorted, extlang_shape, is_ext_key, is_ext_value, is_language,
    is_lower_alpha, is_region, is_script, is_separator, is_subtag, is_upper_alpha, is_variant,
    no_separator, region_shape, script_shape, und, ExtensionView, LocaleView, HYPHEN, PRIVATE_USE,
};
use crate::locale::parser::{
    entry_point, extension_point, finish, has_extension, initial, insert_entry, open_extension,
    parse, parse_from, put_keyword, run, step, unfinished, Error, ParseState,
};
use crate::locale::render::{
    extension_subtags, extensions_subtags, head_subtags, join, keyword_subtags, private_subtags,
    render, subtags_of,
};

verus! {

/// The state after the subtags `ts`, read one after the other in the state
/// `st`, or the error of the first that is not accepted.
pub open spec fn read_all(st: ParseState, ts: Seq<Seq<u8>>) -> Result<ParseState, Error>
    decreases ts.len(),
{
    if ts.len() == 0 {
        Ok(st)
    } else {
        match read_all(st, ts.drop_last()) {
            Ok(next) => step(next, ts.last()),
            Err(e) => Err(e),
        }
    }
}

/// A run of bytes goes up to the end of a text without separators.
proof fn lemma_run_to_end(t: Seq<u8>, from: int)
    requires
        0 <= from <= t.len(),
        forall|i: int| from <= i < t.len() ==> !is_separator(#[trigger] t[i]),
    ensures
        run(t, from) == t.len() - from,
    decreases t.len() - from,
{
    if from < t.len() {
        lemma_run_to_end(t, from + 1);
    }
}

/// A run of bytes ends at the first separator.
proof fn lemma_run_to_separator(s: Seq<u8>, from: int, end: int)
    requires
        0 <= from <= end < s.len(),
        forall|i: int| from <= i < end ==> !is_separator(#[trigger] s[i]),
        is_separator(s[end]),
    ensures
        run(s, from) == end - from,
    decreases end - from,
{
    if from < end {
        lemma_run_to_separator(s, from + 1, end);
    }
}

/// The bytes of a run are no separators, and the run ends at the end of the
/// text or at a separator.
pub proof fn lemma_run(s: Seq<u8>, from: int)
    requires
        0 <= from <= s.len(),
    ensures
        from + run(s, from) <= s.len(),
        forall|i: int| from <= i < from + run(s, from) ==> !is_separator(#[trigger] s[i]),
        from + run(s, from) < s.len() ==> is_separator(s[from + run(s, from)]),
        no_separator(s.subrange(from, from + run(s, from))),
    decreases s.len() - from,
{
    if from < s.len() && !is_separator(s[from]) {
        lemma_run(s, from + 1);
    }
}

/// Reading a tag that ends in `-` and a last subtag is reading the tag
/// before the `-` and then the last subtag.
proof fn lemma_parse_last(st: ParseState, a: Seq<u8>, t: Seq<u8>, from: int)
    requires
        0 <= from <= a.len(),
        no_separator(t),
    ensures
        parse_from(st, a + seq![HYPHEN] + t, from) == (match parse_from(st, a, from) {
            Ok(next) => step(next, t),
            Err(e) => Err(e),
        }),
    decreases a.len() - from,
{
    let s = a + seq![HYPHEN] + t;
    lemma_run(a, from);
    let end = from + run(a, from);
    assert forall|i: int| from <= i < end implies !is_separator(#[trigger] s[i]) by {
        assert(s[i] == a[i]);
    }
    if end < a.len() {
        assert(s[end] == a[end]);
    } else {
        assert(s[end] == HYPHEN);
    }
    lemma_run_to_separator(s, from, end);
    assert(s.subrange(from, end) =~= a.subrange(from, end));
    match step(st, a.subrange(from, end)) {
        Ok(next) => {
            if end < a.len() {
                lemma_parse_last(next, a, t, end + 1);
            } else {
                let start = (a.len() + 1) as int;
                assert forall|i: int| start <= i < s.len() implies !is_separator(#[trigger] s[i]) by {
                    assert(s[i] == t[i - start]);
                }
                lemma_run_to_end(s, start);
                assert(s.subrange(start, s.len() as int) =~= t);
            }
        },
        Err(_) => {},
    }
}

/// Reading the tag that joins subtags is reading the subtags one after the
/// other.
pub proof fn lemma_parse_joined(st: ParseState, ts: Seq<Seq<u8>>)
    requires
        ts.len() > 0,
        forall|i: int| 0 <= i < ts.len() ==> no_separator(#[trigger] ts[i]),
    ensures
        parse_from(st, join(ts), 0) == read_all(st, ts),
    decreases ts.len(),
{
    if ts.len() == 1 {
        let t = ts[0];
        assert(no_separator(t));
        lemma_run_to_end(t, 0);
        assert(t.subrange(0, t.len() as int) =~= t);
        assert(ts.drop_last() =~= Seq::<Seq<u8>>::empty());
        assert(read_all(st, ts.drop_last()) == Ok::<ParseState, Error>(st));
    } else {
        let front = ts.drop_last();
        assert(no_separator(ts.last()));
        assert forall|i: int| 0 <= i < front.len() implies no_separator(#[trigger] front[i]) by {
            assert(front[i] == ts[i]);
        }
        lemma_parse_joined(st, front);
        lemma_parse_last(st, join(front), ts.last(), 0);
    }
}

/// Reading two lists of subtags one after the other is reading the first
/// and then, from the state that it leaves, the second.
pub proof fn lemma_read_all_append(st: ParseState, a: Seq<Seq<u8>>, b: Seq<Seq<u8>>)
    ensures
        read_all(st, a + b) == (match read_all(st, a) {
            Ok(next) => read_all(next, b),
            Err(e) => Err(e),
        }),
    decreases b.len(),
{
    if b.len() == 0 {
        assert(a + b =~= a);
    } else {
        assert((a + b).drop_last() =~= a + b.drop_last());
        assert((a + b).last() == b.last());
        lemma_read_all_append(st, a, b.drop_last());
    }
}

/// Reading one subtag is one step.
proof fn lemma_read_one(st: ParseState, t: Seq<u8>)
    ensures
        read_all(st, seq![t]) == step(st, t),
{
    let ts = seq![t];
    assert(ts.drop_last() =~= Seq::<Seq<u8>>::empty());
    assert(read_all(st, ts.drop_last()) == Ok::<ParseState, Error>(st));
}

/// An identifier that the parser can have read: it is well-formed, and its
/// first variant is not of the shape of a script where it stands behind
/// the language.
pub open spec fn canonical(l: LocaleView) -> bool {
    &&& l.wf()
    &&& unmistakable(l)
}

/// The first variant of `l` is not of the shape of a script where it stands
/// behind the language.
pub open spec fn unmistakable(l: LocaleView) -> bool {
    l.script is None && l.region is None && l.variants.len() > 0 ==> !script_shape(l.variants[0])
}

/// The position of the parser behind the language, the script and the
/// region of `l`.
pub open spec fn head_position(l: LocaleView) -> int {
    if l.region is Some {
        4
    } else if l.script is Some {
        3
    } else {
        1
    }
}

/// The identifier `l` with its language, script and region alone.
pub open spec fn head_only(l: LocaleView) -> LocaleView {
    LocaleView {
        variants: Seq::empty(),
        extensions: Seq::empty(),
        privateuse: Seq::empty(),
        ..l
    }
}

/// Canonical subtags are their own canonical case.
proof fn lemma_case_fixed(t: Seq<u8>)
    ensures
        is_language(t) || t == und() ==> lowercase(t) == t && all_alpha(t),
        is_script(t) ==> titlecase(t) == t && all_alpha(t),
        is_region(t) ==> uppercase(t) == t && region_shape(t) && !extlang_shape(t),
{
    if is_language(t) {
        assert(lowercase(t) =~= t);
        assert forall|i: int| 0 <= i < t.len() implies is_alpha(#[trigger] t[i]) by {
            assert(is_lower_alpha(t[i]));
        }
    }
    if t == und() {
        assert(lowercase(t) =~= t);
    }
    if is_script(t) {
        assert(titlecase(t) =~= t) by {
            assert forall|i: int| 0 <= i < t.len() implies titlecase(t)[i] == t[i] by {
                if i > 0 {
                    assert(is_lower_alpha(t[i]));
                }
            }
        }
        assert forall|i: int| 0 <= i < t.len() implies is_alpha(#[trigger] t[i]) by {
            if i > 0 {
                assert(is_lower_alpha(t[i]));
            }
        }
    }
    if is_region(t) {
        if t.len() == 2 {
            assert(uppercase(t) =~= t) by {
                assert forall|i: int| 0 <= i < t.len() implies uppercase(t)[i] == t[i] by {
                    assert(is_upper_alpha(t[i]));
                }
            }
            assert forall|i: int| 0 <= i < t.len() implies is_alpha(#[trigger] t[i]) by {
                assert(is_upper_alpha(t[i]));
            }
        } else {
            assert(is_digit(t[0]));
            assert(uppercase(t) =~= t) by {
                assert forall|i: int| 0 <= i < t.len() implies uppercase(t)[i] == t[i] by {
                    assert(is_digit(t[i]));
                }
            }
        }
    }
}

/// Reading the language, the script and the region of a well-formed
/// identifier gives them back.
proof fn lemma_read_head(l: LocaleView)
    requires
        l.wf(),
    ensures
        read_all(initial(), head_subtags(l)) == Ok::<ParseState, Error>(
            ParseState {
                locale: head_only(l),
                position: head_position(l),
                extension: None,
                pending: None,
            },
        ),
{
    let a = match l.language {
        Some(s) => s,
        None => und(),
    };
    lemma_case_fixed(a);
    lemma_read_one(initial(), a);
    let s1 = ParseState {
        locale: LocaleView { language: l.language, ..LocaleView::empty() },
        position: 1,
        extension: None,
        pending: None,
    };
    assert(step(initial(), a) == Ok::<ParseState, Error>(s1));
    let scripts: Seq<Seq<u8>> = match l.script {
        Some(s) => seq![s],
        None => Seq::empty(),
    };
    let regions: Seq<Seq<u8>> = match l.region {
        Some(s) => seq![s],
        None => Seq::empty(),
    };
    lemma_read_all_append(initial(), seq![a], scripts);
    lemma_read_all_append(initial(), seq![a] + scripts, regions);
    let s2 = ParseState {
        locale: LocaleView { script: l.script, ..s1.locale },
        position: if l.script is Some {
            3
        } else {
            1
        },
        ..s1
    };
    match l.script {
        Some(s) => {
            lemma_case_fixed(s);
            lemma_read_one(s1, s);
        },
        None => {},
    }
    assert(read_all(s1, scripts) == Ok::<ParseState, Error>(s2));
    let s3 = ParseState {
        locale: LocaleView { region: l.region, ..s2.locale },
        position: head_position(l),
        ..s2
    };
    match l.region {
        Some(r) => {
            lemma_case_fixed(r);
            lemma_read_one(s2, r);
        },
        None => {},
    }
    assert(read_all(s2, regions) == Ok::<ParseState, Error>(s3));
    assert(s3.locale == head_only(l));
}

/// Reading variants behind the language, the script or the region adds
/// them to the identifier.
proof fn lemma_read_variants(st: ParseState, vs: Seq<Seq<u8>>)
    requires
        st.extension is None,
        st.position == 1 || st.position == 3 || st.position == 4,
        forall|i: int| 0 <= i < vs.len() ==> is_variant(#[trigger] vs[i]),
        st.position <= 2 && vs.len() > 0 ==> !script_shape(vs[0]),
    ensures
        read_all(st, vs) == Ok::<ParseState, Error>(
            ParseState {
                locale: LocaleView { variants: st.locale.variants + vs, ..st.locale },
                position: if vs.len() > 0 {
                    4
                } else {
                    st.position
                },
                ..st
            },
        ),
    decreases vs.len(),
{
    if vs.len() == 0 {
        assert(st.locale.variants + vs =~= st.locale.variants);
    } else {
        let front = vs.drop_last();
        let v = vs.last();
        assert forall|i: int| 0 <= i < front.len() implies is_variant(#[trigger] front[i]) by {
            assert(front[i] == vs[i]);
        }
        if front.len() > 0 {
            assert(front[0] == vs[0]);
        }
        lemma_read_variants(st, front);
        assert(is_variant(v));
        if front.len() == 0 {
            assert(v == vs[0]);
        }
        assert((st.locale.variants + front).push(v) =~= st.locale.variants + vs);
    }
}

/// Before a key that comes behind all keys, `entry_point` finds no place.
proof fn lemma_entry_point_end(e: Seq<(Seq<u8>, Seq<u8>)>, k: Seq<u8>, from: int)
    requires
        0 <= from <= e.len(),
        forall|j: int| 0 <= j < e.len() ==> lex_lt((#[trigger] e[j]).0, k),
    ensures
        entry_point(e, k, from) == e.len(),
    decreases e.len() - from,
{
    if from < e.len() {
        assert(lex_lt(e[from].0, k));
        lemma_entry_point_end(e, k, from + 1);
    }
}

/// Before a singleton that comes behind all singletons, `extension_point`
/// finds no place.
proof fn lemma_extension_point_end(e: Seq<ExtensionView>, c: u8, from: int)
    requires
        0 <= from <= e.len(),
        forall|j: int| 0 <= j < e.len() ==> (#[trigger] e[j]).letter < c,
    ensures
        extension_point(e, c, from) == e.len(),
    decreases e.len() - from,
{
    if from < e.len() {
        assert(e[from].letter < c);
        lemma_extension_point_end(e, c, from + 1);
    }
}

/// The state `st` with the last of its extensions holding the keywords
/// `entries`.
pub open spec fn with_entries(
    st: ParseState,
    front: Seq<ExtensionView>,
    c: u8,
    entries: Seq<(Seq<u8>, Seq<u8>)>,
) -> ParseState {
    ParseState {
        locale: LocaleView {
            extensions: front.push(ExtensionView { letter: c, entries }),
            ..st.locale
        },
        extension: Some(c),
        pending: None,
        ..st
    }
}

/// Reading the keywords of an extension, in the ascending order of their
/// keys, adds them to the extension.
proof fn lemma_read_keywords(
    st: ParseState,
    front: Seq<ExtensionView>,
    c: u8,
    es: Seq<(Seq<u8>, Seq<u8>)>,
)
    requires
        c != PRIVATE_USE,
        forall|j: int| 0 <= j < front.len() ==> (#[trigger] front[j]).letter != c,
        entries_sorted(es),
        forall|i: int| 0 <= i < es.len() ==> is_ext_key((#[trigger] es[i]).0) && is_ext_value(es[i].1),
    ensures
        read_all(with_entries(st, front, c, Seq::empty()), keyword_subtags(es)) == Ok::<
            ParseState,
            Error,
        >(with_entries(st, front, c, es)),
    decreases es.len(),
{
    let start = with_entries(st, front, c, Seq::empty());
    if es.len() == 0 {
        assert(es =~= Seq::<(Seq<u8>, Seq<u8>)>::empty());
    } else {
        let fr = es.drop_last();
        let (k, v) = es.last();
        assert(es.last() == es[es.len() - 1]);
        assert forall|i: int, j: int| 0 <= i < j < fr.len() implies lex_lt(
            #[trigger] fr[i].0,
            #[trigger] fr[j].0,
        ) by {
            assert(fr[i] == es[i] && fr[j] == es[j]);
        }
        assert forall|i: int| 0 <= i < fr.len() implies is_ext_key((#[trigger] fr[i]).0)
            && is_ext_value(fr[i].1) by {
            assert(fr[i] == es[i]);
        }
        lemma_read_keywords(st, front, c, fr);
        let s1 = with_entries(st, front, c, fr);
        lemma_read_all_append(start, keyword_subtags(fr), seq![k, v]);
        let pair = seq![k, v];
        assert(pair.drop_last() =~= seq![k]);
        lemma_read_one(s1, k);
        assert(read_all(s1, pair) == (match step(s1, k) {
            Ok(n) => step(n, v),
            Err(e) => Err(e),
        }));
        assert(is_ext_key(k) && is_ext_value(v));
        let s2 = ParseState { pending: Some(k), ..s1 };
        assert(step(s1, k) == Ok::<ParseState, Error>(s2));
        let exts = s1.locale.extensions;
        let put = put_keyword(exts, c, k, v);
        assert forall|j: int| 0 <= j < fr.len() implies lex_lt((#[trigger] fr[j]).0, k) by {
            assert(fr[j] == es[j]);
            assert(lex_lt(es[j].0, es[es.len() - 1].0));
        }
        lemma_entry_point_end(fr, k, 0);
        assert(insert_entry(fr, k, v) =~= es) by {
            assert(fr.insert(fr.len() as int, (k, v)) =~= fr.push((k, v)));
            assert(fr.push((k, v)) =~= es);
        }
        assert(put =~= front.push(ExtensionView { letter: c, entries: es })) by {
            assert forall|j: int| 0 <= j < exts.len() implies put[j] == front.push(
                ExtensionView { letter: c, entries: es },
            )[j] by {
                if j < front.len() {
                    assert(exts[j] == front[j]);
                }
            }
        }
        assert(step(s2, v) == Ok::<ParseState, Error>(with_entries(st, front, c, es)));
    }
}

/// The state behind the first `n` of the extensions `es`, read from the
/// state `st`.
pub open spec fn behind_extensions(st: ParseState, es: Seq<ExtensionView>, n: int) -> ParseState {
    ParseState {
        locale: LocaleView { extensions: es.take(n), ..st.locale },
        extension: if n == 0 {
            None
        } else {
            Some(es[n - 1].letter)
        },
        pending: None,
        ..st
    }
}

/// Reading the extensions of a well-formed identifier, in the ascending
/// order of their singletons, gives them back.
proof fn lemma_read_extensions(st: ParseState, es: Seq<ExtensionView>, n: int)
    requires
        0 <= n <= es.len(),
        st.extension is None,
        st.pending is None,
        st.locale.extensions.len() == 0,
        extensions_sorted(es),
        forall|i: int| 0 <= i < es.len() ==> (#[trigger] es[i]).wf(),
        forall|i: int| 0 <= i < es.len() ==> (#[trigger] es[i]).entries.len() > 0,
    ensures
        read_all(st, extensions_subtags(es.take(n))) == Ok::<ParseState, Error>(
            behind_extensions(st, es, n),
        ),
    decreases n,
{
    if n == 0 {
        assert(es.take(0) =~= Seq::<ExtensionView>::empty());
        assert(st.locale.extensions =~= es.take(0));
    } else {
        let front = es.take(n - 1);
        let e = es[n - 1];
        let c = e.letter;
        assert(es.take(n).drop_last() =~= front);
        assert(es.take(n).last() == e);
        lemma_read_extensions(st, es, n - 1);
        let s0 = behind_extensions(st, es, n - 1);
        lemma_read_all_append(st, extensions_subtags(front), extension_subtags(e));
        lemma_read_all_append(s0, seq![seq![c]], keyword_subtags(e.entries));
        lemma_read_one(s0, seq![c]);
        assert(e.wf());
        if n - 1 > 0 {
            assert(es[n - 2].wf());
        }
        assert forall|j: int| 0 <= j < front.len() implies (#[trigger] front[j]).letter < c by {
            assert(front[j] == es[j]);
            assert(es[j].letter < es[n - 1].letter);
        }
        assert(!has_extension(front, c));
        assert(!unfinished(s0)) by {
            if n - 1 > 0 {
                assert forall|j: int| 0 <= j < front.len() implies (#[trigger] front[j]).entries.len()
                    > 0 by {
                    assert(front[j] == es[j]);
                }
            }
        }
        lemma_extension_point_end(front, c, 0);
        let opened = ExtensionView { letter: c, entries: Seq::empty() };
        assert(open_extension(front, c) =~= front.push(opened)) by {
            assert(front.insert(front.len() as int, opened) =~= front.push(opened));
        }
        assert(step(s0, seq![c]) == Ok::<ParseState, Error>(
            with_entries(st, front, c, Seq::empty()),
        ));
        lemma_read_keywords(st, front, c, e.entries);
        assert(front.push(ExtensionView { letter: c, entries: e.entries }) =~= es.take(n));
        assert(with_entries(st, front, c, e.entries) == behind_extensions(st, es, n));
    }
}

/// Reading subtags under the singleton `x` adds them to the private-use
/// subtags.
proof fn lemma_read_private_tail(st: ParseState, p: Seq<Seq<u8>>)
    requires
        st.extension == Some(PRIVATE_USE),
        forall|i: int| 0 <= i < p.len() ==> is_subtag(#[trigger] p[i]),
    ensures
        read_all(st, p) == Ok::<ParseState, Error>(
            ParseState {
                locale: LocaleView { privateuse: st.locale.privateuse + p, ..st.locale },
                ..st
            },
        ),
    decreases p.len(),
{
    if p.len() == 0 {
        assert(st.locale.privateuse + p =~= st.locale.privateuse);
    } else {
        let front = p.drop_last();
        assert forall|i: int| 0 <= i < front.len() implies is_subtag(#[trigger] front[i]) by {
            assert(front[i] == p[i]);
        }
        lemma_read_private_tail(st, front);
        assert(is_subtag(p.last()));
        assert((st.locale.privateuse + front).push(p.last()) =~= st.locale.privateuse + p);
    }
}

/// Reading the private-use subtags of an identifier behind their singleton
/// gives them back.
proof fn lemma_read_private(st: ParseState, p: Seq<Seq<u8>>)
    requires
        st.extension matches Some(c) ==> c != PRIVATE_USE,
        !unfinished(st),
        st.locale.privateuse.len() == 0,
        forall|i: int| 0 <= i < p.len() ==> is_subtag(#[trigger] p[i]),
    ensures
        read_all(st, private_subtags(p)) matches Ok(next) && next.locale == (LocaleView {
            privateuse: p,
            ..st.locale
        }) && finish(next) == Ok::<LocaleView, Error>(next.locale),
{
    if p.len() == 0 {
        assert(st.locale.privateuse =~= p);
    } else {
        let x = seq![PRIVATE_USE];
        lemma_read_all_append(st, seq![x], p);
        lemma_read_one(st, x);
        let s1 = ParseState { extension: Some(PRIVATE_USE), pending: None, ..st };
        assert(step(st, x) == Ok::<ParseState, Error>(s1));
        lemma_read_private_tail(s1, p);
        assert(st.locale.privateuse + p =~= p);
    }
}

/// Reading the subtags that a canonical identifier is written with gives
/// the identifier back.
pub proof fn lemma_read_subtags(l: LocaleView)
    requires
        canonical(l),
    ensures
        read_all(initial(), subtags_of(l)) matches Ok(st) && st.locale == l && finish(st) == Ok::<
            LocaleView,
            Error,
        >(l),
{
    let head = head_subtags(l);
    let exts = extensions_subtags(l.extensions);
    let private = private_subtags(l.privateuse);
    lemma_read_head(l);
    let s1 = ParseState {
        locale: head_only(l),
        position: head_position(l),
        extension: None,
        pending: None,
    };
    lemma_read_all_append(initial(), head, l.variants);
    lemma_read_variants(s1, l.variants);
    let s2 = ParseState {
        locale: LocaleView { variants: l.variants, ..s1.locale },
        position: if l.variants.len() > 0 {
            4
        } else {
            s1.position
        },
        ..s1
    };
    assert(s1.locale.variants + l.variants =~= l.variants);
    assert(read_all(initial(), head + l.variants) == Ok::<ParseState, Error>(s2));
    lemma_read_all_append(initial(), head + l.variants, exts);
    let n = l.extensions.len() as int;
    assert(l.extensions.take(n) =~= l.extensions);
    lemma_read_extensions(s2, l.extensions, n);
    let s3 = behind_extensions(s2, l.extensions, n);
    if n > 0 {
        assert(l.extensions[n - 1].wf());
    }
    assert(!unfinished(s3));
    lemma_read_all_append(initial(), head + l.variants + exts, private);
    lemma_read_private(s3, l.privateuse);
}

/// The subtags that a well-formed identifier is written with are ASCII and
/// hold no separator, and the first of them is not empty.
pub proof fn lemma_subtags_plain(l: LocaleView)
    requires
        l.wf(),
    ensures
        subtags_of(l).len() > 0,
        subtags_of(l)[0].len() > 0,
        all_plain(subtags_of(l)),
{
    let head = head_subtags(l);
    assert forall|i: int| 0 <= i < head.len() implies no_separator(#[trigger] head[i])
        && all_ascii(head[i]) by {
        let t = head[i];
        assert(is_language(t) || t == und() || is_script(t) || is_region(t));
        assert forall|j: int| 0 <= j < t.len() implies !is_separator(#[trigger] t[j]) && t[j]
            < 0x80 by {
            if is_language(t) {
                assert(is_lower_alpha(t[j]));
            } else if is_script(t) {
                if j > 0 {
                    assert(is_lower_alpha(t[j]));
                }
            } else if is_region(t) {
                if t.len() == 2 {
                    assert(is_upper_alpha(t[j]));
                } else {
                    assert(is_digit(t[j]));
                }
            }
        }
    }
    assert forall|i: int| 0 <= i < l.variants.len() implies no_separator(
        #[trigger] l.variants[i],
    ) && all_ascii(l.variants[i]) by {
        assert(is_variant(l.variants[i]));
    }
    lemma_extensions_plain(l.extensions);
    let private = private_subtags(l.privateuse);
    assert forall|i: int| 0 <= i < private.len() implies no_separator(#[trigger] private[i])
        && all_ascii(private[i]) by {
        if i > 0 {
            assert(is_subtag(l.privateuse[i - 1]));
        }
    }
    lemma_plain_append(head, l.variants);
    lemma_plain_append(head + l.variants, extensions_subtags(l.extensions));
    lemma_plain_append(head + l.variants + extensions_subtags(l.extensions), private);
    assert(subtags_of(l)[0] == head[0]);
}

/// Every subtag of `ts` is ASCII and holds no separator.
pub open spec fn all_plain(ts: Seq<Seq<u8>>) -> bool {
    forall|i: int| 0 <= i < ts.len() ==> no_separator(#[trigger] ts[i]) && all_ascii(ts[i])
}

/// Two lists of plain subtags put together are a list of plain subtags.
proof fn lemma_plain_append(a: Seq<Seq<u8>>, b: Seq<Seq<u8>>)
    requires
        all_plain(a),
        all_plain(b),
    ensures
        all_plain(a + b),
{
    assert forall|i: int| 0 <= i < (a + b).len() implies no_separator(#[trigger] (a + b)[i])
        && all_ascii((a + b)[i]) by {
        if i < a.len() {
            assert((a + b)[i] == a[i]);
        } else {
            assert((a + b)[i] == b[i - a.len()]);
        }
    }
}

/// The subtags that well-formed keywords are written with are ASCII and
/// hold no separator.
proof fn lemma_keywords_plain(es: Seq<(Seq<u8>, Seq<u8>)>)
    requires
        forall|i: int| 0 <= i < es.len() ==> is_ext_key((#[trigger] es[i]).0) && is_ext_value(es[i].1),
    ensures
        all_plain(keyword_subtags(es)),
    decreases es.len(),
{
    if es.len() > 0 {
        let fr = es.drop_last();
        assert forall|i: int| 0 <= i < fr.len() implies is_ext_key((#[trigger] fr[i]).0)
            && is_ext_value(fr[i].1) by {
            assert(fr[i] == es[i]);
        }
        lemma_keywords_plain(fr);
        assert(is_ext_key(es[es.len() - 1].0) && is_ext_value(es[es.len() - 1].1));
        let pair = seq![es.last().0, es.last().1];
        assert(all_plain(pair));
        lemma_plain_append(keyword_subtags(fr), pair);
    }
}

/// The subtags that well-formed extensions are written with are ASCII and
/// hold no separator.
proof fn lemma_extensions_plain(es: Seq<ExtensionView>)
    requires
        forall|i: int| 0 <= i < es.len() ==> (#[trigger] es[i]).wf(),
    ensures
        all_plain(extensions_subtags(es)),
    decreases es.len(),
{
    if es.len() > 0 {
        let fr = es.drop_last();
        assert forall|i: int| 0 <= i < fr.len() implies (#[trigger] fr[i]).wf() by {
            assert(fr[i] == es[i]);
        }
        lemma_extensions_plain(fr);
        let e = es.last();
        assert(e == es[es.len() - 1]);
        assert(e.wf());
        lemma_keywords_plain(e.entries);
        let single = seq![seq![e.letter]];
        assert(all_plain(single));
        lemma_plain_append(single, keyword_subtags(e.entries));
        lemma_plain_append(extensions_subtags(fr), extension_subtags(e));
    }
}

/// Subtags that are ASCII join to a text that is ASCII, and what they join
/// to is not empty where the first of them is not.
pub proof fn lemma_join_ascii(ts: Seq<Seq<u8>>)
    requires
        forall|i: int| 0 <= i < ts.len() ==> all_ascii(#[trigger] ts[i]),
    ensures
        all_ascii(join(ts)),
        ts.len() > 0 ==> join(ts).len() >= ts[0].len(),
    decreases ts.len(),
{
    if ts.len() == 1 {
        assert(all_ascii(ts[0]));
    } else if ts.len() > 1 {
        let front = ts.drop_last();
        assert forall|i: int| 0 <= i < front.len() implies all_ascii(#[trigger] front[i]) by {
            assert(front[i] == ts[i]);
        }
        lemma_join_ascii(front);
        assert(all_ascii(ts.last()));
        assert(front[0] == ts[0]);
    }
}

/// The parser reads from the serialization of a canonical identifier the
/// identifier itself.
pub proof fn lemma_parse_rendered(l: LocaleView)
    requires
        canonical(l),
    ensures
        parse(to_chars(render(l))) == Ok::<LocaleView, Error>(l),
{
    let ts = subtags_of(l);
    lemma_subtags_plain(l);
    lemma_join_ascii(ts);
    lemma_parse_joined(initial(), ts);
    lemma_read_subtags(l);
    crate::ascii::lemma_bytes_chars(render(l));
}

/// What holds of every state of the parser: its first variant cannot be
/// mistaken for a script, and the position says which fields of the
/// identifier can still come.
pub open spec fn on_course(st: ParseState) -> bool {
    &&& st.wf()
    &&& unmistakable(st.locale)
    &&& st.position == 0 || st.position == 1 || st.position == 3 || st.position == 4
    &&& st.position <= 1 ==> st.locale.script is None && st.locale.variants.len() == 0
    &&& st.position == 3 ==> st.locale.script is Some && st.locale.variants.len() == 0
    &&& st.position == 4 <==> st.locale.region is Some || st.locale.variants.len() > 0
}

/// A step keeps the parser on course.
proof fn lemma_step_on_course(st: ParseState, t: Seq<u8>)
    requires
        on_course(st),
        all_ascii(t),
        no_separator(t),
    ensures
        step(st, t) matches Ok(next) ==> on_course(next),
{
    crate::locale::parser::lemma_step_wf(st, t);
    if let Ok(next) = step(st, t) {
        if st.extension is None && t.len() != 1 && st.position >= 1 {
            if next.locale.variants.len() > st.locale.variants.len() {
                assert(next.locale.variants == st.locale.variants.push(t));
                if st.locale.variants.len() > 0 {
                    assert(next.locale.variants[0] == st.locale.variants[0]);
                } else {
                    assert(next.locale.variants[0] == t);
                }
            }
        }
    }
}

/// The parser stays on course through a tag.
proof fn lemma_parse_on_course(st: ParseState, s: Seq<u8>, from: int)
    requires
        on_course(st),
        all_ascii(s),
        0 <= from <= s.len(),
    ensures
        parse_from(st, s, from) matches Ok(next) ==> on_course(next),
    decreases s.len() - from,
{
    lemma_run(s, from);
    let end = from + run(s, from);
    let t = s.subrange(from, end);
    lemma_step_on_course(st, t);
    if let Ok(next) = step(st, t) {
        if end < s.len() {
            lemma_parse_on_course(next, s, end + 1);
        }
    }
}

/// An identifier that the parser reads is canonical.
pub proof fn lemma_parsed_canonical(x: Seq<char>)
    ensures
        parse(x) matches Ok(l) ==> canonical(l),
{
    if let Ok(l) = parse(x) {
        let s = to_bytes(x);
        crate::ascii::lemma_chars_bytes(x);
        if s.len() > 0 {
            lemma_parse_on_course(initial(), s, 0);
            crate::locale::parser::lemma_finish_wf(parse_from(initial(), s, 0)->Ok_0);
        }
    }
}

/// The canonical form is a fixed point: the parser reads from the
/// serialization of an identifier that it has read the same identifier
/// again.
pub proof fn lemma_round_trip(x: Seq<char>)
    requires
        parse(x) is Ok,
    ensures
        parse(to_chars(render(parse(x)->Ok_0))) == parse(x),
{
    lemma_parsed_canonical(x);
    lemma_parse_rendered(parse(x)->Ok_0);
}

} // verus!
