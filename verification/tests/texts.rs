use cartero::json::compact;
use cartero::service::{body_text, shell_escape};
use cartero::entities::{RawEncoding, RequestPayload};
use cartero::text::{chars_of, placement, string_of, trim_bounds, Placement};

fn chars(s: &str) -> Vec<char> {
    s.chars().collect()
}

#[test]
fn compact_drops_insignificant_whitespace() {
    assert_eq!(compact("{ \"a\" : 1 }"), Some("{\"a\":1}".to_string()));
    assert_eq!(compact(" [ ] "), Some("[]".to_string()));
    assert_eq!(compact("\"a b\""), Some("\"a b\"".to_string()));
}

#[test]
fn compact_refuses_text_that_is_no_json() {
    assert_eq!(compact("not json"), None);
    assert_eq!(compact(""), None);
    assert_eq!(compact("{\"a\":1} x"), None);
    assert_eq!(compact("{'a':1}"), None);
}

#[test]
fn shell_escape_rewrites_single_quotes_only() {
    assert_eq!(shell_escape(""), "");
    assert_eq!(shell_escape("plain \"text\" \\ $x"), "plain \"text\" \\ $x");
    assert_eq!(shell_escape("'"), "'\\''");
    assert_eq!(shell_escape("a'b''c"), "a'\\''b'\\'''\\''c");
}

#[test]
fn body_text_is_the_compact_json_of_raw_bytes() {
    let body = RequestPayload::Raw { encoding: RawEncoding::Json, content: b" { } ".to_vec() };
    assert_eq!(body_text(&body), Some("{}".to_string()));
    let body = RequestPayload::Raw { encoding: RawEncoding::Xml, content: b"<a/>".to_vec() };
    assert_eq!(body_text(&body), None);
    assert_eq!(body_text(&RequestPayload::Empty), None);
}

#[test]
fn characters_and_strings_convert_both_ways() {
    assert_eq!(chars_of("a\u{e9}\u{1f600}"), vec!['a', '\u{e9}', '\u{1f600}']);
    assert_eq!(string_of(&chars("hello"), 1, 4), "ell");
    assert_eq!(string_of(&chars("hello"), 2, 2), "");
}

#[test]
fn trimming_takes_blanks_from_both_ends() {
    assert_eq!(trim_bounds(&chars("  a b \t\n")), (2, 5));
    assert_eq!(trim_bounds(&chars("ab")), (0, 2));
    assert_eq!(trim_bounds(&chars("")), (0, 0));
    let (start, end) = trim_bounds(&chars(" \r\n\x0b\x0c "));
    assert_eq!(start, end);
}

#[test]
fn texts_are_ordered_by_code_point() {
    assert_eq!(placement(&chars("a"), &chars("b")), Placement::Before);
    assert_eq!(placement(&chars("b"), &chars("a")), Placement::After);
    assert_eq!(placement(&chars("ab"), &chars("ab")), Placement::Same);
    assert_eq!(placement(&chars("a"), &chars("ab")), Placement::Before);
    assert_eq!(placement(&chars("ab"), &chars("a")), Placement::After);
    assert_eq!(placement(&chars(""), &chars("")), Placement::Same);
    assert_eq!(placement(&chars("Z"), &chars("a")), Placement::Before);
    assert_eq!(placement(&chars("z"), &chars("\u{e9}")), Placement::Before);
}
