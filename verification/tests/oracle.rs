use fluent_locale::locale::tables::LANG_ONLY;
use fluent_locale::locale::tinystr::TinyStr4;
use fluent_locale::Locale;
use icu_locid::LanguageIdentifier;
use icu_locid_transform::LocaleExpander;

fn by_icu(tag: &str) -> String {
    let mut id: LanguageIdentifier = tag.parse().unwrap();
    LocaleExpander::new().maximize(&mut id);
    id.to_string()
}

fn by_tables(tag: &str) -> String {
    let mut loc = Locale::from_tag(tag);
    loc.add_likely_subtags();
    loc.to_string()
}

#[test]
fn likely_subtags_of_languages_agree_with_icu() {
    let mut seen = 0;
    for row in LANG_ONLY.iter() {
        if row.0 == 0 {
            continue;
        }
        let language = TinyStr4::from_word(row.0 as u32).unwrap().as_str();
        // Yiddish is not in the data that an expander of ICU starts with.
        if language == "yi" {
            continue;
        }
        assert_eq!(by_tables(&language), by_icu(&language), "{}", language);
        seen += 1;
    }
    assert!(seen > 100);
}

#[test]
fn likely_subtags_of_chosen_tags_agree_with_icu() {
    for tag in [
        "en", "en-GB", "zh-HK", "zh-TW", "zh-Hant", "sr-RU", "sr-Latn", "az-IR", "az-Arab", "und-CN",
        "und-Cyrl", "und-Arab-CC", "und-Hant", "pa-PK", "kk-Arab", "xx", "und", "und-419",
    ] {
        assert_eq!(by_tables(tag), by_icu(tag), "{}", tag);
    }
}

#[test]
fn parser_agrees_with_icu_on_chosen_tags() {
    for tag in ["en", "EN-latn-us", "sr-Cyrl-RS", "es-419", "ca-ES-valencia", "und", "zh_Hant_TW"] {
        let id: LanguageIdentifier = tag.parse().unwrap();
        assert_eq!(Locale::new(tag, None).unwrap().to_string(), id.to_string(), "{}", tag);
    }
}
