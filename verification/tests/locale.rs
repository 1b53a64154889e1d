use fluent_locale::locale::options::{apply_options, option_key_for_name, option_name_for_key};
use fluent_locale::locale::parser::{
    ext_key_for_name, ext_name_for_key, parse_language_subtag, parse_language_tag,
    parse_region_subtag, parse_script_subtag, Error,
};
use fluent_locale::Locale;

fn canonical(tag: &str) -> String {
    parse_language_tag(tag).unwrap().to_string()
}

fn error(tag: &str) -> Error {
    parse_language_tag(tag).unwrap_err()
}

#[test]
fn parse_en_latn_us_in_any_case() {
    for tag in ["en-latn-us", "EN-LATN-US", "en_Latn_US", "En-lAtN-uS"] {
        let loc = parse_language_tag(tag).unwrap();
        assert_eq!(loc.get_language(), "en");
        assert_eq!(loc.get_script(), "Latn");
        assert_eq!(loc.get_region(), "US");
        assert!(loc.get_variants().is_empty());
        assert_eq!(loc.to_string(), "en-Latn-US");
        assert_eq!(loc, parse_language_tag("en-latn-us").unwrap());
    }
}

#[test]
fn parse_rejects_a_subtag_of_more_than_eight_characters() {
    assert_eq!(error("verybroken-tag"), Error::SubtagTooLong);
    assert_eq!(error("en-US-abcdefghi"), Error::SubtagTooLong);
    assert_eq!(error("en-x-abcdefghi"), Error::SubtagTooLong);
    assert_eq!(error("en-u-abcdefghi"), Error::SubtagTooLong);
}

#[test]
fn parse_the_empty_tag() {
    let loc = parse_language_tag("").unwrap();
    assert_eq!(loc.get_language(), "");
    assert_eq!(loc.get_script(), "");
    assert_eq!(loc.get_region(), "");
    assert!(loc.get_variants().is_empty());
    assert!(loc.get_extensions().is_empty());
    assert!(!loc.has_privateuse());
    assert_eq!(loc.to_string(), "und");
    assert_eq!(loc, Locale::default());
}

#[test]
fn parse_rejects_what_is_not_ascii() {
    assert_eq!(error("en-\u{e9}"), Error::InvalidLanguage);
    assert_eq!(error("\u{4000}"), Error::InvalidLanguage);
    assert_eq!(error("en-x-\u{e9}"), Error::InvalidLanguage);
}

#[test]
fn parse_the_language() {
    assert_eq!(canonical("EN"), "en");
    assert_eq!(canonical("fil"), "fil");
    assert_eq!(canonical("und"), "und");
    assert_eq!(canonical("UND-us"), "und-US");
    assert_eq!(parse_language_tag("Und").unwrap().get_language(), "");
    assert_eq!(error("e1"), Error::InvalidLanguage);
    assert_eq!(error("engl"), Error::InvalidLanguage);
    assert_eq!(error("english"), Error::InvalidLanguage);
    assert_eq!(error("-en"), Error::InvalidLanguage);
    assert_eq!(error("12"), Error::InvalidLanguage);
}

#[test]
fn parse_drops_extended_language_subtags() {
    assert_eq!(canonical("zh-cmn-Hans-CN"), "zh-Hans-CN");
    assert_eq!(canonical("zh-cmn-yue-us"), "zh-US");
    // Behind the script there is no place for one.
    assert_eq!(error("zh-Hans-cmn"), Error::InvalidSubtag);
}

#[test]
fn parse_script_before_region_before_variant() {
    assert_eq!(canonical("sr-cyrl"), "sr-Cyrl");
    assert_eq!(canonical("es-419"), "es-419");
    assert_eq!(canonical("de-at"), "de-AT");
    assert_eq!(canonical("sr-latn-rs-ekavsk"), "sr-Latn-RS-ekavsk");
    // Four letters behind the script or the region are a variant.
    let loc = parse_language_tag("sr-latn-abcd").unwrap();
    assert_eq!(loc.get_script(), "Latn");
    assert_eq!(loc.get_variants(), vec!["abcd".to_string()]);
    let loc = parse_language_tag("sr-rs-abcd").unwrap();
    assert_eq!(loc.get_script(), "");
    assert_eq!(loc.get_variants(), vec!["abcd".to_string()]);
    // A second script or region is none.
    assert_eq!(error("en-US-GB"), Error::InvalidSubtag);
    assert_eq!(error("en-Latn-GB-US"), Error::InvalidSubtag);
    // Behind the region four letters are no script any more.
    let loc = parse_language_tag("en-Latn-US-Cyrl").unwrap();
    assert_eq!(loc.get_script(), "Latn");
    assert_eq!(loc.get_variants(), vec!["Cyrl".to_string()]);
}

#[test]
fn parse_variants_by_their_first_character() {
    assert_eq!(canonical("ca-valencia"), "ca-valencia");
    assert_eq!(canonical("sl-rozaj-biske"), "sl-rozaj-biske");
    assert_eq!(canonical("de-19960"), "de-19960");
    assert_eq!(canonical("en-ab1d"), "en-ab1d");
    // Variants keep their case and their order, and may come twice.
    let loc = parse_language_tag("de-DE-Variant-other-Variant").unwrap();
    assert_eq!(
        loc.get_variants(),
        vec!["Variant".to_string(), "other".to_string(), "Variant".to_string()]
    );
    assert_eq!(error("de-1996"), Error::InvalidSubtag);
    assert_eq!(error("de-!abcd"), Error::InvalidSubtag);
    assert_eq!(error("de-DE-abc"), Error::InvalidSubtag);
    assert_eq!(error("de-DE-"), Error::InvalidSubtag);
    assert_eq!(error("de--DE"), Error::InvalidSubtag);
}

#[test]
fn parse_extensions() {
    let loc = parse_language_tag("en-US-u-nu-latn-hc-h12-ca-buddhist-t-k0-qwerty").unwrap();
    assert_eq!(
        loc.get_extensions(),
        vec![
            ("t".to_string(), vec![("k0".to_string(), "qwerty".to_string())]),
            (
                "unicode".to_string(),
                vec![
                    ("calendar".to_string(), "buddhist".to_string()),
                    ("hour-cycle".to_string(), "h12".to_string()),
                    ("nu".to_string(), "latn".to_string())
                ]
            )
        ]
    );
    assert_eq!(loc.to_string(), "en-US-t-k0-qwerty-u-ca-buddhist-hc-h12-nu-latn");
    // Keys are stored in lower case, values as they are.
    assert_eq!(canonical("en-U-HC-H12"), "en-u-hc-H12");
    // The last value of a key stays.
    assert_eq!(canonical("en-u-hc-h12-hc-h23"), "en-u-hc-h23");
    // Behind a keyword, a key without a value is dropped.
    assert_eq!(canonical("en-u-hc-h12-ca"), "en-u-hc-h12");
    assert_eq!(canonical("en-u-hc-h12-ca-t-k0-qwerty"), "en-t-k0-qwerty-u-hc-h12");
    // A singleton ends the extension before it.
    assert_eq!(canonical("en-t-k0-qwerty-a-aa-bb-u-hc-h12"), "en-a-aa-bb-t-k0-qwerty-u-hc-h12");
    assert_eq!(canonical("u-hc-h12"), "und-u-hc-h12");
    // An extension does not end without a keyword.
    assert_eq!(error("en-u"), Error::EmptyExtension);
    assert_eq!(error("en-u-t-k0-qwerty"), Error::EmptyExtension);
    assert_eq!(error("en-u-hc"), Error::EmptyExtension);
    assert_eq!(error("en-u-hc-t-k0-qwerty"), Error::EmptyExtension);
    assert_eq!(error("en-t-k0-qwerty-u"), Error::EmptyExtension);
    assert_eq!(error("en-u-x-abc"), Error::EmptyExtension);
    assert_eq!(error("en-u-u-hc-h12"), Error::EmptyExtension);
    assert_eq!(error("en-u-hc-h12-u-ca-buddhist"), Error::DuplicateExtension);
    assert_eq!(error("en-u-hc-h12-U-ca-buddhist"), Error::DuplicateExtension);
    assert_eq!(error("en-1-abc"), Error::InvalidSubtag);
    assert_eq!(error("en-u-hc-1"), Error::InvalidSubtag);
    // No subtag is empty.
    assert_eq!(error("en-u-hc-h12-"), Error::InvalidSubtag);
    assert_eq!(error("en-u--h12"), Error::InvalidSubtag);
    assert_eq!(error("en-x-"), Error::InvalidSubtag);
    assert_eq!(error("en-x-a--b"), Error::InvalidSubtag);
}

#[test]
fn parse_private_use() {
    let loc = parse_language_tag("en-x-Foo-x-1-u").unwrap();
    assert!(loc.has_privateuse());
    assert!(loc.get_extensions().is_empty());
    assert_eq!(loc.to_string(), "en-x-Foo-x-1-u");
    assert_eq!(canonical("x-whatever"), "und-x-whatever");
    assert_eq!(canonical("en-u-hc-h12-X-abc"), "en-u-hc-h12-x-abc");
    assert_eq!(error("en-x"), Error::EmptyPrivateUse);
    assert_eq!(error("x"), Error::EmptyPrivateUse);
    assert_eq!(error("en-u-hc-h12-x"), Error::EmptyPrivateUse);
}

#[test]
fn parse_and_serialize_round_trip() {
    for tag in [
        "",
        "en",
        "und",
        "EN-latn-us",
        "zh-cmn-Hans-CN",
        "sr-Latn-abcd",
        "ca-ES-valencia-Variant",
        "de-19960",
        "en-u-hc-h12-ca-buddhist-t-k0-qwerty",
        "en-u-hc-h12-ca",
        "x-private",
        "en-x-a-1-b",
        "he-IL-u-ca-hebrew-tz-jeruslm-x-abc-def",
    ] {
        let first = parse_language_tag(tag).unwrap();
        let second = parse_language_tag(&first.to_string()).unwrap();
        assert_eq!(first, second, "{}", tag);
        assert_eq!(first.to_string(), second.to_string(), "{}", tag);
    }
}

#[test]
fn parse_subtags_alone() {
    assert_eq!(parse_language_subtag("EN").unwrap().as_str(), "en");
    assert_eq!(parse_language_subtag("und").unwrap().as_str(), "und");
    assert_eq!(parse_language_subtag("e"), Err(Error::InvalidLanguage));
    assert_eq!(parse_language_subtag("engl"), Err(Error::InvalidLanguage));
    assert_eq!(parse_language_subtag("e1"), Err(Error::InvalidLanguage));
    assert_eq!(parse_language_subtag("\u{e9}"), Err(Error::InvalidLanguage));
    assert_eq!(parse_script_subtag("lATN").unwrap().as_str(), "Latn");
    assert_eq!(parse_script_subtag("Lat"), Err(Error::InvalidSubtag));
    assert_eq!(parse_script_subtag("Lat1"), Err(Error::InvalidSubtag));
    assert_eq!(parse_region_subtag("us").unwrap().as_str(), "US");
    assert_eq!(parse_region_subtag("419").unwrap().as_str(), "419");
    assert_eq!(parse_region_subtag("41"), Err(Error::InvalidSubtag));
    assert_eq!(parse_region_subtag("usa"), Err(Error::InvalidSubtag));
    assert_eq!(parse_region_subtag("u"), Err(Error::InvalidSubtag));
}

#[test]
fn names_of_extensions_and_options() {
    assert_eq!(ext_name_for_key("u"), "unicode");
    assert_eq!(ext_name_for_key("t"), "t");
    assert_eq!(ext_key_for_name("unicode"), "u");
    assert_eq!(ext_key_for_name("t"), "t");
    assert_eq!(option_name_for_key("hc"), "hour-cycle");
    assert_eq!(option_name_for_key("ca"), "calendar");
    assert_eq!(option_key_for_name("hour-cycle"), "hc");
    assert_eq!(option_key_for_name("calendar"), "ca");
}

#[test]
fn descriptions_of_errors() {
    assert_eq!(Error::SubtagTooLong.description(), "A subtag may be eight characters in length at maximum");
    assert_eq!(Error::InvalidLanguage.description(), "The given language subtag is invalid");
    assert_eq!(
        Error::InvalidSubtag.description(),
        "A subtag fails to parse, it does not match any other subtags"
    );
    assert_eq!(
        Error::DuplicateExtension.description(),
        "The same extension subtag is only allowed once in a tag"
    );
    assert_eq!(Error::EmptyExtension.description(), "If an extension subtag is present, it must not be empty");
    assert_eq!(Error::EmptyPrivateUse.description(), "If the `x` subtag is present, it must not be empty");
    assert_eq!(Error::ForbiddenChar.description(), "The langtag contains a char not allowed");
    assert_eq!(Error::TooManyExtlangs.description(), "At maximum three extlangs are allowed");
}

#[test]
fn locale_from_a_tag_is_lossy() {
    assert_eq!(Locale::from("en-latn-us").to_string(), "en-Latn-US");
    assert_eq!(Locale::from("verybroken-tag").to_string(), "und");
    assert_eq!(Locale::from("de-AT".to_string()).to_string(), "de-AT");
    assert_eq!(Locale::from_tag("en-1").to_string(), "und");
}

#[test]
fn locale_with_options() {
    let loc = Locale::new("en", Some(vec![("hour-cycle", "h12")])).unwrap();
    assert_eq!(loc.to_string(), "en-u-hc-h12");
    let loc = Locale::new("en-Latn-US-u-hc-h23", Some(vec![("hour-cycle", "h12")])).unwrap();
    assert_eq!(loc.to_string(), "en-Latn-US-u-hc-h12");
    let loc = Locale::new(
        "it-IT",
        Some(vec![
            ("calendar", "gregory"),
            ("language", "DE"),
            ("script", "latn"),
            ("region", "at"),
            ("nu", "latn"),
        ]),
    )
    .unwrap();
    assert_eq!(loc.to_string(), "de-Latn-AT-u-ca-gregory-nu-latn");
    // A subtag that is none leaves the field absent; a keyword that is none is left out.
    let loc = Locale::new(
        "it-Latn-IT",
        Some(vec![("language", "1"), ("script", "x"), ("region", "Italy"), ("toolongkey", "v")]),
    )
    .unwrap();
    assert_eq!(loc.to_string(), "und");
    assert_eq!(Locale::new("verybroken-tag", None).unwrap_err(), Error::SubtagTooLong);
    let mut loc = Locale::from("pl");
    apply_options(&mut loc, vec![("region", "PL"), ("region", "DE")]);
    assert_eq!(loc.to_string(), "pl-DE");
}

#[test]
fn locale_setters_validate() {
    let mut loc = Locale::from("en-Latn-US");
    loc.set_region("GB").unwrap();
    assert_eq!(loc.to_string(), "en-Latn-GB");
    assert_eq!(loc.set_region("G"), Err(Error::InvalidSubtag));
    assert_eq!(loc.to_string(), "en-Latn-GB");
    loc.set_region("").unwrap();
    assert_eq!(loc.to_string(), "en-Latn");
    loc.set_script("CYRL").unwrap();
    assert_eq!(loc.get_script(), "Cyrl");
    assert_eq!(loc.set_script("Cyr"), Err(Error::InvalidSubtag));
    loc.set_script("").unwrap();
    assert_eq!(loc.to_string(), "en");
    loc.set_language("DE").unwrap();
    assert_eq!(loc.get_language(), "de");
    assert_eq!(loc.set_language("d"), Err(Error::InvalidLanguage));
    assert_eq!(loc.get_language(), "de");
    loc.set_language("und").unwrap();
    assert_eq!(loc.get_language(), "");
    loc.set_language("pl").unwrap();
    loc.set_language("").unwrap();
    assert_eq!(loc.to_string(), "und");
}

#[test]
fn locale_variants() {
    let mut loc = Locale::from("ca-ES");
    loc.add_variant("valencia".to_string()).unwrap();
    loc.add_variant("12345".to_string()).unwrap();
    loc.add_variant("valencia".to_string()).unwrap();
    assert_eq!(loc.to_string(), "ca-ES-valencia-12345-valencia");
    assert_eq!(loc.add_variant("abc".to_string()), Err(Error::InvalidSubtag));
    assert_eq!(loc.add_variant("1996".to_string()), Err(Error::InvalidSubtag));
    assert_eq!(loc.add_variant("ab-cd".to_string()), Err(Error::InvalidSubtag));
    assert_eq!(loc.add_variant("valenci\u{e0}".to_string()), Err(Error::SubtagTooLong));
    assert_eq!(loc.add_variant("vale\u{e0}".to_string()), Err(Error::InvalidSubtag));
    assert_eq!(loc.add_variant("valencian".to_string()), Err(Error::SubtagTooLong));
    loc.remove_variant("valencia".to_string());
    assert_eq!(loc.get_variants(), vec!["12345".to_string(), "valencia".to_string()]);
    loc.remove_variant("absent".to_string());
    assert_eq!(loc.get_variants().len(), 2);
    assert!(loc.has_variants());
    loc.clear_variants();
    assert!(!loc.has_variants());
    assert_eq!(loc.to_string(), "ca-ES");
}

#[test]
fn locale_extensions() {
    let mut loc = Locale::from("en");
    loc.add_extension("unicode".to_string(), "HC".to_string(), "h12".to_string()).unwrap();
    loc.add_extension("t".to_string(), "k0".to_string(), "qwerty".to_string()).unwrap();
    loc.add_extension("unicode".to_string(), "calendar".to_string(), "gregory".to_string()).unwrap();
    loc.add_extension("u".to_string(), "hour-cycle".to_string(), "h23".to_string()).unwrap();
    assert_eq!(loc.to_string(), "en-t-k0-qwerty-u-ca-gregory-hc-h23");
    assert_eq!(
        loc.add_extension("x".to_string(), "aa".to_string(), "bb".to_string()),
        Err(Error::InvalidSubtag)
    );
    assert_eq!(
        loc.add_extension("uni".to_string(), "aa".to_string(), "bb".to_string()),
        Err(Error::InvalidSubtag)
    );
    assert_eq!(
        loc.add_extension("u".to_string(), "a".to_string(), "bb".to_string()),
        Err(Error::InvalidSubtag)
    );
    assert_eq!(
        loc.add_extension("u".to_string(), "aa".to_string(), "b_b".to_string()),
        Err(Error::InvalidSubtag)
    );
    assert_eq!(
        loc.add_extension("u".to_string(), "aa".to_string(), "toolongvalue".to_string()),
        Err(Error::SubtagTooLong)
    );
    assert_eq!(loc.to_string(), "en-t-k0-qwerty-u-ca-gregory-hc-h23");
    assert_eq!(loc, Locale::from("en-u-hc-h23-ca-gregory-t-k0-qwerty"));
}

#[test]
fn locale_matches() {
    let en = Locale::from("en");
    let en_us = Locale::from("en-US");
    assert!(!en.matches(&en_us, false, false));
    assert!(en.matches(&en_us, true, false));
    assert!(!en.matches(&en_us, false, true));
    assert!(en.matches(&en_us, true, true));
    assert!(en_us.matches(&en, false, true));
    assert!(!en_us.matches(&en, true, false));
    assert!(en_us.matches(&en_us, false, false));
    let und = Locale::from("");
    assert!(und.matches(&en_us, true, false));
    assert!(!und.matches(&en_us, false, true));
    // Lists of variants are held against each other as wholes.
    let one = Locale::from("ca-valencia");
    let two = Locale::from("ca-valencia-other");
    assert!(!one.matches(&two, true, true));
    assert!(Locale::from("ca").matches(&two, true, false));
    // Extensions do not count; private-use subtags match nothing.
    assert!(Locale::from("en-u-hc-h12").matches(&en, false, false));
    let private = Locale::from("en-x-abc");
    assert!(!private.matches(&private.clone(), true, true));
    assert!(!en.matches(&private, true, true));
    assert!(private.fields_match(&en, false, false));
}
