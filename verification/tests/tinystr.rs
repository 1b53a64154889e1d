use fluent_locale::locale::tinystr::{str_to_le, Error, TinyStr4, TinyStr8};

#[test]
fn tiny4_basic() {
    let s = TinyStr4::new("abc").unwrap();
    assert_eq!(s.as_str(), "abc");
}

#[test]
fn tiny4_size() {
    assert_eq!(TinyStr4::new(""), Err(Error::InvalidSize));
    assert!(TinyStr4::new("1").is_ok());
    assert!(TinyStr4::new("12").is_ok());
    assert!(TinyStr4::new("123").is_ok());
    assert!(TinyStr4::new("1234").is_ok());
    assert_eq!(TinyStr4::new("12345"), Err(Error::InvalidSize));
    assert_eq!(TinyStr4::new("123456789"), Err(Error::InvalidSize));
}

#[test]
fn tiny4_null() {
    assert_eq!(TinyStr4::new("a\u{0}b"), Err(Error::InvalidNull));
}

#[test]
fn tiny4_nonascii() {
    assert_eq!(TinyStr4::new("\u{4000}"), Err(Error::NonAscii));
}

#[test]
fn tiny4_alpha() {
    let s = TinyStr4::new("@aZ[").unwrap();
    assert!(!s.is_all_ascii_alpha());
    assert_eq!(s.to_ascii_uppercase().as_str(), "@AZ[");
    assert_eq!(s.to_ascii_lowercase().as_str(), "@az[");

    assert!(TinyStr4::new("abYZ").unwrap().is_all_ascii_alpha());
}

#[test]
fn tiny4_titlecase() {
    assert_eq!(TinyStr4::new("abcd").unwrap().to_ascii_titlecase().as_str(), "Abcd");
    assert_eq!(TinyStr4::new("ABCD").unwrap().to_ascii_titlecase().as_str(), "Abcd");
    assert_eq!(TinyStr4::new("aBCD").unwrap().to_ascii_titlecase().as_str(), "Abcd");
    assert_eq!(TinyStr4::new("A123").unwrap().to_ascii_titlecase().as_str(), "A123");
    assert_eq!(TinyStr4::new("123a").unwrap().to_ascii_titlecase().as_str(), "123a");
}

#[test]
fn tiny8_basic() {
    let s = TinyStr8::new("abcde").unwrap();
    assert_eq!(s.as_str(), "abcde");
}

#[test]
fn tiny8_size() {
    assert_eq!(TinyStr8::new(""), Err(Error::InvalidSize));
    assert!(TinyStr8::new("1").is_ok());
    assert!(TinyStr8::new("12").is_ok());
    assert!(TinyStr8::new("123").is_ok());
    assert!(TinyStr8::new("1234").is_ok());
    assert!(TinyStr8::new("12345").is_ok());
    assert!(TinyStr8::new("123456").is_ok());
    assert!(TinyStr8::new("1234567").is_ok());
    assert!(TinyStr8::new("12345678").is_ok());
    assert_eq!(TinyStr8::new("123456789"), Err(Error::InvalidSize));
}

#[test]
fn tiny8_null() {
    assert_eq!(TinyStr8::new("a\u{0}b"), Err(Error::InvalidNull));
}

#[test]
fn tiny8_nonascii() {
    assert_eq!(TinyStr8::new("\u{4000}"), Err(Error::NonAscii));
}

#[test]
fn tiny8_alpha() {
    let s = TinyStr8::new("@abcXYZ[").unwrap();
    assert!(!s.is_all_ascii_alpha());
    assert_eq!(s.to_ascii_uppercase().as_str(), "@ABCXYZ[");
    assert_eq!(s.to_ascii_lowercase().as_str(), "@abcxyz[");

    assert!(TinyStr8::new("abcXYZ").unwrap().is_all_ascii_alpha());
}

#[test]
fn tiny_nonascii_is_judged_before_null() {
    assert_eq!(TinyStr4::new("\u{0}\u{e9}"), Err(Error::NonAscii));
    assert_eq!(TinyStr8::new("a\u{0}\u{e9}"), Err(Error::NonAscii));
}

#[test]
fn tiny_words_pack_the_first_byte_lowest() {
    assert_eq!(TinyStr4::new("en").unwrap().word(), 0x6e65);
    assert_eq!(TinyStr4::new("Latn").unwrap().word(), 0x6e74_614c);
    assert_eq!(TinyStr8::new("valencia").unwrap().word(), 0x6169_636e_656c_6176);
    assert_eq!(TinyStr4::from_word(0x6e65).unwrap().as_str(), "en");
    assert_eq!(TinyStr8::from_word(0x6e65).unwrap().len(), 2);
    assert!(TinyStr4::from_word(0).is_none());
    assert!(TinyStr4::from_word(0x6e00).is_none());
    assert!(TinyStr4::from_word(0x6e80).is_none());
    assert_eq!(TinyStr4::new("abc").unwrap().len(), 3);
    assert_eq!(TinyStr4::new("abc").unwrap().bytes(), vec![0x61, 0x62, 0x63]);
}

#[test]
fn str_to_le_packs_or_saturates() {
    assert_eq!(str_to_le(""), 0);
    assert_eq!(str_to_le("en"), 0x6e65);
    assert_eq!(str_to_le("Zzzz"), 0x7a7a_7a5a);
    assert_eq!(str_to_le("ZZ"), 0x5a5a);
    assert_eq!(str_to_le("abcde"), u32::MAX);
}

#[test]
fn tiny_order_is_that_of_the_words() {
    let b = TinyStr4::new("b").unwrap();
    let ab = TinyStr4::new("ab").unwrap();
    let ba = TinyStr4::new("ba").unwrap();
    assert!(b < ab);
    assert!(ba < ab);
    assert!(TinyStr4::new("AB").unwrap() != ab);
    assert_eq!(TinyStr4::new("AB").unwrap().to_ascii_lowercase(), ab);
    assert!(TinyStr8::new("zz").unwrap() < TinyStr8::new("aaa").unwrap());
}
