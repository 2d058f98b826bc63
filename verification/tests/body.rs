use nextcloud_analytics_rs::escape::{push_escaped, push_escaped_char, push_quoted};
use nextcloud_analytics_rs::number::{is_decimal_text, Decimal};
use nextcloud_analytics_rs::request::{request_body, SyncClient, CONTENT_TYPE};

fn escaped(s: &str) -> String {
    let mut out = String::new();
    push_escaped(&mut out, s);
    out
}

#[test]
fn plain_text_is_written_unchanged() {
    assert_eq!(escaped("speed_kmh"), "speed_kmh");
    assert_eq!(escaped(""), "");
    assert_eq!(escaped("Sat, 1 Jul 2023 10:52:37 +0000"), "Sat, 1 Jul 2023 10:52:37 +0000");
}

#[test]
fn quotation_mark_and_backslash_get_a_backslash() {
    assert_eq!(escaped("say \"hi\""), "say \\\"hi\\\"");
    assert_eq!(escaped("a\\b"), "a\\\\b");
    assert_eq!(escaped("\\\""), "\\\\\\\"");
}

#[test]
fn line_breaks_and_tabs_are_written_by_letter() {
    assert_eq!(escaped("a\nb\rc\td"), "a\\nb\\rc\\td");
}

#[test]
fn other_control_characters_are_written_in_hexadecimal() {
    assert_eq!(escaped("\u{0}"), "\\u0000");
    assert_eq!(escaped("\u{1}\u{8}\u{c}"), "\\u0001\\u0008\\u000c");
    assert_eq!(escaped("\u{1b}[0m\u{1f}"), "\\u001b[0m\\u001f");
}

#[test]
fn characters_from_the_space_on_stand_for_themselves() {
    assert_eq!(escaped(" ~\u{7f}"), " ~\u{7f}");
    assert_eq!(escaped("größe 速度 🚀 /'"), "größe 速度 🚀 /'");
}

#[test]
fn one_character_is_appended_escaped() {
    let mut out = String::from("x");
    push_escaped_char(&mut out, '"');
    push_escaped_char(&mut out, 'y');
    push_escaped_char(&mut out, '\u{2}');
    assert_eq!(out, "x\\\"y\\u0002");
}

#[test]
fn quoted_text_stands_between_quotation_marks() {
    let mut out = String::from("k: ");
    push_quoted(&mut out, "a\"b");
    assert_eq!(out, "k: \"a\\\"b\"");
    let mut out = String::new();
    push_quoted(&mut out, "");
    assert_eq!(out, "\"\"");
}

#[test]
fn escaped_text_reads_back_with_the_json_crate() {
    let text = "a \"quoted\" \\ back\nline\ttab\r \u{1}\u{1f} größe 🚀";
    let mut out = String::new();
    push_quoted(&mut out, text);
    let value = json::parse(&out).unwrap();
    assert_eq!(value.as_str(), Some(text));
}

#[test]
fn decimal_numerals_are_accepted() {
    for text in ["0", "25", "007", "1.5", "-1.5", "-0", "0.0000001", "1000000000000000000000", "-12.340"] {
        assert!(is_decimal_text(text), "{}", text);
        assert_eq!(Decimal::parse(text).unwrap().as_str(), text);
    }
}

#[test]
fn other_text_is_no_decimal_numeral() {
    for text in [
        "", "-", ".", "-.", "1.", ".5", "-.5", "1.2.3", "1..2", "--1", "1-", "+1", "1e5", "1E5", " 1", "1 ",
        "NaN", "inf", "-inf", "1,5", "0x10", "1_000", "٣", "1\"", "1.-2", "-1.", "1.5-",
    ] {
        assert!(!is_decimal_text(text), "{}", text);
        assert_eq!(Decimal::parse(text), None);
    }
}

#[test]
fn integers_are_rendered_in_decimal() {
    assert_eq!(Decimal::from_i64(0).as_str(), "0");
    assert_eq!(Decimal::from_i64(25).as_str(), "25");
    assert_eq!(Decimal::from_i64(-1).as_str(), "-1");
    assert_eq!(Decimal::from_i64(9001).as_str(), "9001");
    assert_eq!(Decimal::from_i64(-180).as_str(), "-180");
    assert_eq!(Decimal::from_i64(i64::MAX).as_str(), "9223372036854775807");
    assert_eq!(Decimal::from_i64(i64::MIN).as_str(), "-9223372036854775808");
}

#[test]
fn rendered_integer_equals_parsed_numeral() {
    assert_eq!(Some(Decimal::from_i64(-42)), Decimal::parse("-42"));
    assert_eq!(Decimal::from_i64(7).clone(), Decimal::from_i64(7));
}

#[test]
fn body_has_the_three_members_in_the_fixed_layout() {
    let body = request_body("age", "alice", &Decimal::from_i64(25));
    assert_eq!(
        body,
        "{\n    \"dimension1\": \"age\",\n    \"dimension2\": \"alice\",\n    \"dimension3\": \"25\"\n}"
    );
}

#[test]
fn body_quotes_the_number() {
    let body = request_body("t", "x", &Decimal::parse("-1.5").unwrap());
    assert!(body.ends_with("\"dimension3\": \"-1.5\"\n}"));
    assert!(!body.contains("\"dimension3\": -1.5"));
}

#[test]
fn body_escapes_the_two_text_dimensions() {
    let body = request_body("a\"b", "c\\d\ne", &Decimal::from_i64(1));
    assert_eq!(
        body,
        "{\n    \"dimension1\": \"a\\\"b\",\n    \"dimension2\": \"c\\\\d\\ne\",\n    \"dimension3\": \"1\"\n}"
    );
}

#[test]
fn body_parses_to_exactly_the_three_members() {
    let body = request_body("key \"k\"", "line\nbreak \u{3}", &Decimal::parse("180.25").unwrap());
    let value = json::parse(&body).unwrap();
    assert!(value.is_object());
    assert_eq!(value.len(), 3);
    assert_eq!(value["dimension1"].as_str(), Some("key \"k\""));
    assert_eq!(value["dimension2"].as_str(), Some("line\nbreak \u{3}"));
    assert_eq!(value["dimension3"].as_str(), Some("180.25"));
    let names: Vec<&str> = value.entries().map(|(name, _)| name).collect();
    assert_eq!(names, vec!["dimension1", "dimension2", "dimension3"]);
}

#[test]
fn request_carries_address_credentials_and_body() {
    let client = SyncClient::new("https://example.com/nextcloud/", 3, "myself", "hunter2");
    let request = client.data_request("age", "bob", &Decimal::from_i64(20));
    assert_eq!(request.url, "https://example.com/nextcloud/apps/analytics/api/1.0/adddata/3");
    assert_eq!(request.user, "myself");
    assert_eq!(request.passwd, "hunter2");
    assert_eq!(request.body, request_body("age", "bob", &Decimal::from_i64(20)));
}

#[test]
fn every_request_of_a_client_carries_the_same_credentials() {
    let client = SyncClient::new("http://host", 1, "user name", "pass:word");
    let first = client.data_request("a", "b", &Decimal::from_i64(1));
    let second = client.data_request("c", "d", &Decimal::from_i64(2));
    assert_eq!((first.user.as_str(), first.passwd.as_str()), ("user name", "pass:word"));
    assert_eq!((second.user.as_str(), second.passwd.as_str()), ("user name", "pass:word"));
    assert_eq!(first.url, second.url);
    assert_ne!(first.body, second.body);
}

#[test]
fn content_type_is_json() {
    assert_eq!(CONTENT_TYPE, "application/json");
}
