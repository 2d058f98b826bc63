use nextcloud_analytics_rs::fraction::{
    exceeds_fraction_reach, reach_prefix, read_char, Place, Scan, HIGHEST_EXPONENT,
    LOWEST_EXPONENT,
};

fn scan(text: &str) -> Scan {
    let mut scan = Scan { place: Place::Between, mantissa: 0, exponent: 0, too_low: false };
    for c in text.chars() {
        scan = read_char(scan, c);
    }
    scan
}

fn parts(text: &str) -> (u64, i16) {
    let (_, mantissa, exponent) = json::parse(text).unwrap().as_number().unwrap().as_parts();
    (mantissa, exponent)
}

#[test]
fn exponent_bounds_are_those_of_sixteen_bits() {
    assert_eq!(LOWEST_EXPONENT, i16::MIN as i32);
    assert_eq!(HIGHEST_EXPONENT, i16::MAX as i32);
}

#[test]
fn scan_follows_strings_and_escapes() {
    assert_eq!(scan("").place, Place::Between);
    assert_eq!(scan("{\"a").place, Place::Text);
    assert_eq!(scan("{\"a\\").place, Place::Escape);
    assert_eq!(scan("{\"a\\\"").place, Place::Text);
    assert_eq!(scan("{\"a\\\\\"").place, Place::Between);
    assert_eq!(scan("{\"a\\u00e9\"").place, Place::Between);
    assert_eq!(scan("\"12.5").place, Place::Text);
}

#[test]
fn scan_follows_the_parts_of_a_number() {
    assert_eq!(scan("[12").place, Place::Whole);
    assert_eq!(scan("[12.").place, Place::Fraction);
    assert_eq!(scan("[12.5").place, Place::Fraction);
    assert_eq!(scan("[12.5,").place, Place::Between);
    assert_eq!(scan("[12.5e").place, Place::Between);
    assert_eq!(scan("[.").place, Place::Between);
    assert_eq!(scan("[.5").place, Place::Whole);
    assert_eq!(scan("[-0").place, Place::Whole);
}

#[test]
fn scan_keeps_mantissa_and_exponent_as_the_parser_does() {
    for text in [
        "0",
        "7",
        "120",
        "0.5",
        "12.25",
        "0.000125",
        "18446744073709551615",
        "18446744073709551616",
        "184467440737095516150",
        "99999999999999999999999",
        "1.8446744073709551615",
        "1.8446744073709551616",
        "0.18446744073709551620",
        "576460752303423500.5",
        "123456789012345678901234567890.123",
        "1844674407370955161.60",
        "1844674407370955161.90",
    ] {
        let ours = scan(text);
        let (mantissa, exponent) = parts(text);
        assert_eq!((ours.mantissa, ours.exponent), (mantissa, exponent as i32), "{}", text);
        assert!(!ours.too_low);
    }
}

#[test]
fn scan_reaches_the_lowest_exponent_with_the_parser() {
    let zeros = format!("0.{}", "0".repeat(32_768));
    assert_eq!(scan(&zeros).exponent, LOWEST_EXPONENT);
    assert_eq!(parts(&zeros), (0, i16::MIN));
    assert!(!exceeds_fraction_reach(&zeros));

    let tail = format!("0.{}12345678901234567890123", "0".repeat(32_748));
    assert_eq!(scan(&tail).mantissa, 12345678901234567890);
    assert_eq!(scan(&tail).exponent, LOWEST_EXPONENT);
    assert_eq!(parts(&tail), (12345678901234567890, i16::MIN));
    assert!(!exceeds_fraction_reach(&tail));

    let late = format!("0.{}1844674407370955161999990", "0".repeat(32_748));
    assert_eq!(scan(&late).mantissa, 18446744073709551610);
    assert_eq!(scan(&late).exponent, LOWEST_EXPONENT);
    assert_eq!(parts(&late), (18446744073709551610, i16::MIN));
    assert!(!exceeds_fraction_reach(&late));
}

#[test]
fn one_digit_more_is_beyond_reach() {
    assert!(exceeds_fraction_reach(&format!("0.{}", "0".repeat(32_769))));
    assert!(exceeds_fraction_reach(&format!("-0.{}", "0".repeat(32_769))));
    assert!(exceeds_fraction_reach(&format!("0.{}1", "0".repeat(32_768))));
    assert!(exceeds_fraction_reach(&format!("0.{}12345678901234567890123", "0".repeat(32_749))));
    assert!(exceeds_fraction_reach(&format!("[1, 0.{}e5, 2]", "0".repeat(32_769))));
    assert!(exceeds_fraction_reach(&format!("{{\"a\": \"x\", \"b\": 0.{}}}", "0".repeat(40_000))));
}

#[test]
fn what_follows_does_not_undo_it() {
    let text = format!("[0.{}, \"text\", 1.5]", "0".repeat(32_769));
    assert!(exceeds_fraction_reach(&text));
}

#[test]
fn digits_elsewhere_are_within_reach() {
    assert!(!exceeds_fraction_reach(""));
    assert!(!exceeds_fraction_reach("{\"success\": true}"));
    assert!(!exceeds_fraction_reach(&"0".repeat(40_000)));
    assert!(!exceeds_fraction_reach(&"9".repeat(40_000)));
    assert!(!exceeds_fraction_reach(&format!("1.{}", "0".repeat(40_000))));
    assert!(!exceeds_fraction_reach(&format!("0.1{}", "0".repeat(40_000))));
    assert!(!exceeds_fraction_reach(&format!("\"0.{}\"", "0".repeat(40_000))));
    assert!(!exceeds_fraction_reach(&format!(".{}", "0".repeat(40_000))));
    assert!(!exceeds_fraction_reach(&format!("0.{} 0.{}", "0".repeat(32_768), "0".repeat(32_768))));
    assert!(!exceeds_fraction_reach(&format!("0.{}x{}", "0".repeat(32_768), "0".repeat(32_768))));
    assert!(!exceeds_fraction_reach(&format!("٠.{}", "٠".repeat(40_000))));
}

#[test]
fn text_within_reach_is_its_own_prefix() {
    assert_eq!(reach_prefix(""), "");
    assert_eq!(reach_prefix("{\"success\": true}"), "{\"success\": true}");
    let text = format!("[0.{}, é]", "0".repeat(32_768));
    assert_eq!(reach_prefix(&text), text);
}

#[test]
fn prefix_ends_before_the_first_digit_too_many() {
    let within = format!("[\"é\", 0.{}", "0".repeat(32_768));
    assert_eq!(reach_prefix(&format!("{}0", within)), within);
    assert_eq!(reach_prefix(&format!("{}7", within)), within);
    assert_eq!(reach_prefix(&format!("{}000, 0.{}]", within, "0".repeat(40_000))), within);
    assert!(!exceeds_fraction_reach(&within));
}
