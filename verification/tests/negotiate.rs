use fluent_locale::locale::parser::Error;
use fluent_locale::negotiate::filter_matches;
use fluent_locale::negotiation;
use fluent_locale::NegotiationStrategy::{Filtering, Lookup, Matching};
use fluent_locale::{
    convert_vec_str_to_langids, convert_vec_str_to_langids_lossy, negotiate_languages,
    parse_accepted_languages, Locale, NegotiationStrategy,
};

fn locales(tags: &[&str]) -> Vec<Locale> {
    tags.iter().map(|t| Locale::new(t, None).unwrap()).collect()
}

fn negotiate(
    requested: &[&str],
    available: &[&str],
    default: Option<&str>,
    strategy: NegotiationStrategy,
) -> Vec<String> {
    let requested = locales(requested);
    let available = locales(available);
    let default = default.map(|d| Locale::new(d, None).unwrap());
    negotiate_languages(&requested, &available, default.as_ref(), strategy)
        .iter()
        .map(|l| l.to_string())
        .collect()
}

fn check(
    requested: &[&str],
    available: &[&str],
    default: Option<&str>,
    strategy: NegotiationStrategy,
    expected: &[&str],
) {
    assert_eq!(
        negotiate(requested, available, default, strategy),
        expected.iter().map(|s| s.to_string()).collect::<Vec<String>>(),
        "{:?} * {:?}",
        requested,
        available
    );
}

#[test]
fn negotiate_filtering() {
    check(&["de", "it", "ru"], &["en-US", "de", "it", "ru", "pl"], None, Filtering, &["de", "it", "ru"]);
    // 1) exact match
    check(&["en-US"], &["en-US"], None, Filtering, &["en-US"]);
    check(&["en"], &["en"], None, Filtering, &["en"]);
    // 2) available as range
    check(&["en-US"], &["en"], None, Filtering, &["en"]);
    check(&["en-Latn-US-windows"], &["en-Latn"], None, Filtering, &["en-Latn"]);
    // 3) maximized requested
    check(&["en"], &["en-GB", "en-US"], None, Filtering, &["en-US", "en-GB"]);
    check(&["fr"], &["fr-CA", "fr-FR"], None, Filtering, &["fr-FR", "fr-CA"]);
    check(&["az-IR"], &["az-Latn", "az-Arab"], None, Filtering, &["az-Arab"]);
    check(&["zh-HK"], &["zh-Hans", "zh-Hant"], None, Filtering, &["zh-Hant"]);
    // 4) variants as a range
    check(&["ja-JP-windows"], &["ja-JP-macos"], None, Filtering, &["ja-JP-macos"]);
    // 5) the likely region
    check(&["en-CA"], &["en-ZA", "en-US"], None, Filtering, &["en-US", "en-ZA"]);
    // 6) the region as a range
    check(&["en-GB"], &["en-AU"], None, Filtering, &["en-AU"]);
    check(&["fr", "en"], &["en-US", "fr-FR", "en", "fr"], None, Filtering, &["fr", "fr-FR", "en", "en-US"]);
    // An available locale is taken once.
    check(&["en", "en-US", "en"], &["en-US", "en"], None, Filtering, &["en", "en-US"]);
    check(&["de"], &["fr"], None, Filtering, &[]);
    check(&[], &["fr"], None, Filtering, &[]);
    check(&["de"], &[], None, Filtering, &[]);
}

#[test]
fn negotiate_filtering_without_a_language() {
    // Only the first two stages are tried.
    check(&["und"], &["und", "en"], None, Filtering, &["und"]);
    check(&["und-US"], &["en-US", "und"], None, Filtering, &["und"]);
    check(&["und-US"], &["en-US"], None, Filtering, &[]);
}

#[test]
fn negotiate_default() {
    check(&["fr"], &["de"], Some("en-US"), Filtering, &["en-US"]);
    check(&["fr"], &["fr", "en-US"], Some("en-US"), Filtering, &["fr", "en-US"]);
    check(&["en", "fr"], &["fr", "en-US"], Some("en-US"), Filtering, &["en-US", "fr"]);
    check(&["fr"], &["fr-u-hc-h12"], Some("fr"), Filtering, &["fr-u-hc-h12", "fr"]);
    check(&["fr"], &["fr", "en-US"], Some("en-US"), Matching, &["fr", "en-US"]);
    check(&["fr"], &["fr", "en-US"], Some("en-US"), Lookup, &["fr"]);
    check(&["xx"], &["fr"], Some("fr"), Lookup, &["fr"]);
    check(&["xx"], &["fr"], None, Lookup, &[]);
}

#[test]
fn negotiate_matching() {
    check(&["en"], &["en-GB", "en-US"], None, Matching, &["en-US"]);
    check(&["fr", "en"], &["en-US", "fr-FR", "en", "fr"], None, Matching, &["fr", "en"]);
    check(&["en-US"], &["en"], None, Matching, &["en"]);
    check(&["de", "it", "ru"], &["en-US", "de", "it", "ru", "pl"], None, Matching, &["de", "it", "ru"]);
    check(&["en-CA", "en-ZA"], &["en-ZA", "en-US"], None, Matching, &["en-US", "en-ZA"]);
    check(&["sr-RU"], &["sr-Latn-SR", "sr-Latn-RU"], None, Matching, &["sr-Latn-RU"]);
}

#[test]
fn negotiate_lookup() {
    check(&["en"], &["en-GB", "en-US"], None, Lookup, &["en-US"]);
    check(&["fr", "en"], &["en-US", "fr-FR", "en", "fr"], None, Lookup, &["fr"]);
    check(&["xx", "de-AT"], &["fr", "de", "de-DE"], None, Lookup, &["de"]);
    check(&["xx", "yy"], &["fr"], Some("en"), Lookup, &["en"]);
}

#[test]
fn negotiate_gives_references_into_the_available() {
    let requested = locales(&["en", "pl"]);
    let available = locales(&["pl-PL", "de", "en-US"]);
    let found = filter_matches(&requested, &available, NegotiationStrategy::Filtering);
    assert_eq!(found.len(), 2);
    assert!(std::ptr::eq(found[0], &available[2]));
    assert!(std::ptr::eq(found[1], &available[0]));
}

#[test]
fn accepted_languages() {
    assert_eq!(
        parse_accepted_languages("de-AT;q=0.9,de-DE;q=0.8,de;q=0.7,en-US;q=0.5"),
        vec!["de-AT", "de-DE", "de", "en-US"]
    );
    assert_eq!(
        parse_accepted_languages("de-AT;0.9,de-DE;0.8,de;0.7;en-US;0.5"),
        vec!["de-AT", "de-DE", "de"]
    );
    assert_eq!(parse_accepted_languages("en-US, en;q=0.5 ,\tfr "), vec!["en-US", "en", "fr"]);
    assert_eq!(parse_accepted_languages(""), Vec::<&str>::new());
    assert_eq!(parse_accepted_languages(" , ;q=1,,"), Vec::<&str>::new());
    // The white space at the ends goes first, and what stands from the semicolon on second.
    assert_eq!(parse_accepted_languages(" de ;q=1"), vec!["de "]);
    assert_eq!(parse_accepted_languages("\u{3000}pl\u{a0},\u{e9}t\u{e9};q=1"), vec!["pl", "\u{e9}t\u{e9}"]);
    assert_eq!(parse_accepted_languages("en"), vec!["en"]);
}

#[test]
fn accepted_languages_feed_a_negotiation() {
    let requested: Vec<Locale> = parse_accepted_languages("de-AT;0.9,de-DE;0.8,de;0.7;en-US;0.5")
        .into_iter()
        .map(Locale::from)
        .collect();
    let available = locales(&["fr", "pl", "de", "en-US"]);
    let default = Locale::from("en-US");
    let supported =
        negotiate_languages(&requested, &available, Some(&default), NegotiationStrategy::Filtering);
    let supported: Vec<String> = supported.iter().map(|l| l.to_string()).collect();
    assert_eq!(supported, vec!["de", "en-US"]);
}

#[test]
fn convert_tags_to_locales() {
    let converted = convert_vec_str_to_langids(&["pl", "fr_ca", "en-latn-US"]).unwrap();
    let tags: Vec<String> = converted.iter().map(|l| l.to_string()).collect();
    assert_eq!(tags, vec!["pl", "fr-CA", "en-Latn-US"]);
    assert_eq!(convert_vec_str_to_langids(&["pl", "x1", "fr"]), Err(Error::InvalidLanguage));
    assert_eq!(convert_vec_str_to_langids(&["pl", "fr-!"]), Err(Error::InvalidSubtag));
    assert_eq!(convert_vec_str_to_langids(&[]), Ok(vec![]));
    // The variants of a language identifier are sorted, and each is kept once.
    let converted = convert_vec_str_to_langids(&["ca-valencia-aaaaa-valencia"]).unwrap();
    assert_eq!(converted[0].to_string(), "ca-aaaaa-valencia");
    // A language identifier has no extensions.
    assert_eq!(convert_vec_str_to_langids(&["en-u-hc-h12"]), Err(Error::InvalidSubtag));
    assert_eq!(convert_vec_str_to_langids(&["en-x-private"]), Err(Error::InvalidSubtag));
    let lossy = convert_vec_str_to_langids_lossy(&["it", "x1", "de", "fr-!", "en_US"]);
    let tags: Vec<String> = lossy.iter().map(|l| l.to_string()).collect();
    assert_eq!(tags, vec!["it", "de", "en-US"]);
}

#[test]
fn negotiate_by_language_alone() {
    assert_eq!(
        negotiation::filter_matches(vec!["en-GB", "pl", "und", "verybroken-tag"], vec!["en-us", "fr", "en", "pl-PL"]),
        vec!["en-US", "en", "pl-PL"]
    );
    assert_eq!(
        negotiation::negotiate_languages(vec!["de"], vec!["de-AT", "de", "verybroken-tag"]),
        vec!["de-AT", "de"]
    );
    assert_eq!(negotiation::negotiate_languages(vec![], vec!["de"]), Vec::<String>::new());
}

#[test]
fn negotiate_filtering_in_the_order_of_the_stages() {
    check(&["fr-FR"], &["de", "it", "fr-FR"], None, Filtering, &["fr-FR"]);
    check(&["fr", "pl", "de-DE"], &["pl", "en-US", "de-DE"], None, Filtering, &["pl", "de-DE"]);
    check(&["en-Latn-US"], &["en-US"], None, Filtering, &["en-US"]);
    check(&["fr-CA", "de-DE"], &["fr", "it", "de"], None, Filtering, &["fr", "de"]);
    check(&["ja-JP-windows"], &["ja"], None, Filtering, &["ja"]);
    check(&["en-Latn-GB", "en-Latn-IN"], &["en-IN", "en-GB"], None, Filtering, &["en-GB", "en-IN"]);
    check(&["en"], &["en-GB", "de", "en-US"], None, Filtering, &["en-US", "en-GB"]);
    check(&["en"], &["en-Latn-GB", "en-Latn-US"], None, Filtering, &["en-Latn-US", "en-Latn-GB"]);
    check(&["sr-RU"], &["sr-Cyrl", "sr-Latn"], None, Filtering, &["sr-Latn"]);
    check(&["sr"], &["sr-Latn", "sr-Cyrl"], None, Filtering, &["sr-Cyrl"]);
    check(&["zh-GB"], &["zh-Hans", "zh-Hant"], None, Filtering, &["zh-Hant"]);
    check(&["sr", "ru"], &["sr-Latn", "ru"], None, Filtering, &["ru"]);
    check(&["sr-RU"], &["sr-Latn-RO", "sr-Cyrl"], None, Filtering, &["sr-Latn-RO"]);
    check(&["en"], &["en-US"], None, Filtering, &["en-US"]);
    check(&["en-US"], &["en-GB"], None, Filtering, &["en-GB"]);
    check(&["en-Latn-US"], &["en-Latn-GB"], None, Filtering, &["en-Latn-GB"]);
    check(&["en-US-linux"], &["en-US-macos"], None, Filtering, &["en-US-macos"]);
    check(&["en", "en-US"], &["en-US", "en"], None, Filtering, &["en", "en-US"]);
    check(&["en-GB", "en"], &["en-US", "en", "en-GB"], None, Filtering, &["en-GB", "en", "en-US"]);
    check(&["fr", "en"], &["en-US", "fr-FR", "en", "fr"], None, Lookup, &["fr"]);
    check(&["fr-FR", "en"], &["en-US", "fr-FR", "en", "fr"], Some("en-US"), Lookup, &["fr-FR"]);
}
