use fluent_locale::locale::likely_subtags::{find_likely, lookup_binary};
use fluent_locale::locale::tables::{LANG_ONLY, LANG_REGION, LANG_SCRIPT, SCRIPT_REGION};
use fluent_locale::negotiate::likely_subtags::{LocaleExpander, TransformResult, SHORTCUTS};
use fluent_locale::Locale;

fn a(fr: &str, to: &str) {
    let mut loc = Locale::from_tag(fr);
    loc.add_likely_subtags();
    assert_eq!(loc.to_string(), to);
}

#[test]
fn add_likely() {
    a("en-Zzzz-US", "en-Latn-US");
    a("en-ZZ", "en-Latn-US");
    a("und-Arab-CC", "ms-Arab-CC");
    a("und-Hebr-GB", "yi-Hebr-GB");
    a("yi-GB", "yi-Hebr-GB");
    a("az", "az-Latn-AZ");
    a("az-IS", "az-Latn-IS");
    a("az-IQ", "az-Arab-IQ");
    a("az-RU", "az-Cyrl-RU");
    a("az-Arab", "az-Arab-IR");
    a("zh-CN", "zh-Hans-CN");
    a("zh-HK", "zh-Hant-HK");
    a("und-Adlm", "ff-Adlm-GN");
    a("und-Adlm-IS", "is-Adlm-IS");
    a("und-Adlm-IO", "ff-Adlm-IO");
    a("und-CN", "zh-Hans-CN");
    a("en-Shaw", "en-Shaw-GB");
    a("ZH-ZZZZ-SG", "zh-Hans-SG");
}

#[test]
fn add_likely_consistent_with_shortcuts() {
    a("az", "az-Latn-AZ");
    a("bg", "bg-Cyrl-BG");
    a("cs", "cs-Latn-CZ");
    a("de", "de-Latn-DE");
    a("en", "en-Latn-US");
    a("es", "es-Latn-ES");
    a("fi", "fi-Latn-FI");
    a("fr", "fr-Latn-FR");
    a("hu", "hu-Latn-HU");
    a("it", "it-Latn-IT");
    a("lt", "lt-Latn-LT");
    a("lv", "lv-Latn-LV");
    a("nl", "nl-Latn-NL");
    a("pl", "pl-Latn-PL");
    a("ro", "ro-Latn-RO");
    a("ru", "ru-Cyrl-RU");
    a("sr", "sr-Cyrl-RS");
    a("sr-RU", "sr-Latn-RU");
    a("az-IR", "az-Arab-IR");
    a("zh-GB", "zh-Hant-GB");
    a("zh-US", "zh-Hant-US");
}

fn ascending(table: &[(u64, u32, u32, u32)]) {
    for v in table.windows(2) {
        let (v1, v2) = (v[0], v[1]);
        assert!(v1.0 < v2.0, "Key \"{:x}\" is placed after \"{:x}\"", v1.0, v2.0);
    }
}

#[test]
fn test_region_matching_sort() {
    ascending(&SHORTCUTS);
    ascending(&SCRIPT_REGION);
    ascending(&LANG_REGION);
    ascending(&LANG_SCRIPT);
    ascending(&LANG_ONLY);
}

#[test]
fn add_likely_says_whether_a_lookup_succeeded() {
    let mut loc = Locale::from_tag("en");
    assert!(loc.add_likely_subtags());
    assert_eq!(loc.to_string(), "en-Latn-US");
    // The lookup succeeds again, though nothing is left to add.
    assert!(loc.add_likely_subtags());
    assert_eq!(loc.to_string(), "en-Latn-US");
    let mut unknown = Locale::from_tag("xx-Zzzz-ZZ");
    assert!(!unknown.add_likely_subtags());
    assert_eq!(unknown.to_string(), "xx-Zzzz-ZZ");
}

#[test]
fn add_likely_by_script_alone() {
    // No table knows the language; the script alone resolves the region.
    a("xx-Adlm", "xx-Adlm-GN");
    a("und", "en-Latn-US");
    a("und-GB", "en-Latn-GB");
}

#[test]
fn add_likely_keeps_variants_and_extensions() {
    a("de-1996x-u-hc-h12-x-abc", "de-Latn-DE-1996x-u-hc-h12-x-abc");
}

#[test]
fn lookup_binary_finds_exactly_the_rows_of_the_table() {
    let table = [(2u64, 1u32, 1u32, 1u32), (5, 2, 2, 2), (9, 3, 3, 3)];
    assert_eq!(lookup_binary(2, &table), Some((2, 1, 1, 1)));
    assert_eq!(lookup_binary(5, &table), Some((5, 2, 2, 2)));
    assert_eq!(lookup_binary(9, &table), Some((9, 3, 3, 3)));
    assert_eq!(lookup_binary(0, &table), None);
    assert_eq!(lookup_binary(4, &table), None);
    assert_eq!(lookup_binary(10, &table), None);
    assert_eq!(lookup_binary(1, &[]), None);
    for row in LANG_ONLY.iter() {
        assert_eq!(lookup_binary(row.0, &LANG_ONLY), Some(*row));
    }
}

#[test]
fn find_likely_goes_by_the_order_of_the_lookups() {
    // "und-Arab-CC": script and region together come first.
    let row = find_likely(0, 0x6261_7241, 0x4343).unwrap();
    assert_eq!((row.1, row.2, row.3), (0x736d, 0x6261_7241, 0x4343));
    // "az-IQ": language and region come before the language alone.
    let row = find_likely(0x7a61, 0, 0x5149).unwrap();
    assert_eq!((row.1, row.2, row.3), (0x7a61, 0x6261_7241, 0x5149));
    assert!(find_likely(0x7878, 0, 0).is_none());
}

fn maximize(tag: &str) -> (String, TransformResult) {
    let mut loc = Locale::from_tag(tag);
    let result = LocaleExpander::new().maximize(&mut loc);
    (loc.to_string(), result)
}

#[test]
fn maximize_takes_shortcuts_first() {
    assert_eq!(maximize("en"), ("en-Latn-US".to_string(), TransformResult::Modified));
    assert_eq!(maximize("fr"), ("fr-Latn-FR".to_string(), TransformResult::Modified));
    assert_eq!(maximize("sr"), ("sr-Cyrl-RS".to_string(), TransformResult::Modified));
    assert_eq!(maximize("sr-RU"), ("sr-Latn-RU".to_string(), TransformResult::Modified));
    assert_eq!(maximize("az-IR"), ("az-Arab-IR".to_string(), TransformResult::Modified));
    assert_eq!(maximize("zh-GB"), ("zh-Hant-GB".to_string(), TransformResult::Modified));
    assert_eq!(maximize("zh-US"), ("zh-Hant-US".to_string(), TransformResult::Modified));
    // A script or a variant keeps the shortcut away.
    assert_eq!(maximize("sr-Latn"), ("sr-Latn-RS".to_string(), TransformResult::Modified));
    assert_eq!(maximize("sr-ekavsk"), ("sr-Cyrl-RS-ekavsk".to_string(), TransformResult::Modified));
}

#[test]
fn maximize_agrees_with_add_likely_subtags() {
    for tag in ["en", "fr", "sr", "sr-RU", "az-IR", "zh-GB", "zh-US", "de", "und-CN", "xx", "en-GB"] {
        let mut loc = Locale::from_tag(tag);
        let resolved = loc.add_likely_subtags();
        let (maximized, result) = maximize(tag);
        assert_eq!(loc.to_string(), maximized, "{}", tag);
        assert_eq!(result == TransformResult::Modified, resolved, "{}", tag);
    }
}

#[test]
fn maximize_falls_back_to_the_tables() {
    assert_eq!(maximize("de"), ("de-Latn-DE".to_string(), TransformResult::Modified));
    assert_eq!(maximize("zh-HK"), ("zh-Hant-HK".to_string(), TransformResult::Modified));
    assert_eq!(maximize("xx"), ("xx".to_string(), TransformResult::Unmodified));
    assert_eq!(maximize("xx-ZZ"), ("xx-ZZ".to_string(), TransformResult::Unmodified));
}

#[test]
fn maximize_is_idempotent() {
    for tag in ["en", "sr-RU", "az-IR", "de", "und-Adlm-IO", "xx", "zh-Zzzz-SG", "und", "pl-PL"] {
        let (once, _) = maximize(tag);
        assert_eq!(maximize(&once), (once.clone(), TransformResult::Unmodified), "{}", tag);
    }
}
