use cartero::entities::{EndpointData, Header, RawEncoding, RequestPayload};
use cartero::error::RequestError;
use cartero::service::CurlService;

fn endpoint(method: &str, url: &str, headers: Vec<Header>, body: RequestPayload) -> EndpointData {
    EndpointData { method: method.to_string(), url: url.to_string(), headers, body }
}

fn raw(encoding: RawEncoding, content: &[u8]) -> RequestPayload {
    RequestPayload::Raw { encoding, content: content.to_vec() }
}

#[test]
fn exports_the_documented_command() {
    let data = endpoint(
        "GET",
        "https://api.example.com/v1",
        vec![Header::new("Accept", "application/json"), Header::new("X-Token", "abc")],
        RequestPayload::Empty,
    );
    let command = CurlService::new(data).generate();
    assert_eq!(
        command,
        Ok("curl -X GET https://api.example.com/v1 \\\n  -H 'Accept: application/json' \\\n  -H 'X-Token: abc'".to_string())
    );
}

#[test]
fn no_headers_and_no_body_give_the_bare_request_line() {
    let data = endpoint("POST", "http://localhost:8080/items", vec![], RequestPayload::Empty);
    assert_eq!(
        CurlService::new(data).generate(),
        Ok("curl -X POST http://localhost:8080/items".to_string())
    );
}

#[test]
fn headers_come_out_in_ascending_order_of_name() {
    let data = endpoint(
        "GET",
        "https://example.com/",
        vec![
            Header::new("X-Token", "abc"),
            Header::new("Accept", "*/*"),
            Header::new("Content-Type", "text/plain"),
        ],
        RequestPayload::Empty,
    );
    assert_eq!(
        CurlService::new(data).generate(),
        Ok("curl -X GET https://example.com/ \\\n  -H 'Accept: */*' \\\n  -H 'Content-Type: text/plain' \\\n  -H 'X-Token: abc'".to_string())
    );
}

#[test]
fn capitals_sort_before_small_letters() {
    let data = endpoint(
        "GET",
        "https://example.com/",
        vec![Header::new("accept", "1"), Header::new("Zeta", "2"), Header::new("Acc", "3")],
        RequestPayload::Empty,
    );
    assert_eq!(
        CurlService::new(data).generate(),
        Ok("curl -X GET https://example.com/ \\\n  -H 'Acc: 3' \\\n  -H 'Zeta: 2' \\\n  -H 'accept: 1'".to_string())
    );
}

#[test]
fn the_order_of_writing_does_not_change_the_command() {
    let one = endpoint(
        "GET",
        "https://example.com/",
        vec![Header::new("B", "2"), Header::new("A", "1")],
        RequestPayload::Empty,
    );
    let other = endpoint(
        "GET",
        "https://example.com/",
        vec![Header::new("A", "1"), Header::new("B", "2")],
        RequestPayload::Empty,
    );
    assert_eq!(CurlService::new(one).generate(), CurlService::new(other).generate());
}

#[test]
fn exporting_twice_gives_the_same_text() {
    let data = endpoint(
        "PUT",
        "https://example.com/a?b=c",
        vec![Header::new("If-Match", "\"x\""), Header::new("Accept", "*/*")],
        raw(RawEncoding::Json, b"{\"b\": [1, 2], \"a\": null}"),
    );
    let service = CurlService::new(data);
    let first = service.generate();
    let second = service.generate();
    assert!(first.is_ok());
    assert_eq!(first, second);
}

#[test]
fn json_body_is_sent_in_compact_form() {
    let data = endpoint(
        "POST",
        "https://example.com/",
        vec![],
        raw(RawEncoding::Json, b"{\"a\":1}"),
    );
    assert_eq!(
        CurlService::new(data).generate(),
        Ok("curl -X POST https://example.com/ \\\n  -d '{\"a\":1}'".to_string())
    );
}

#[test]
fn json_body_loses_its_layout() {
    let data = endpoint(
        "POST",
        "https://example.com/",
        vec![Header::new("Content-Type", "application/json")],
        raw(RawEncoding::Json, b"{\n  \"a\" : [ 1, 2 ],\n  \"b\" : \"x y\"\n}\n"),
    );
    assert_eq!(
        CurlService::new(data).generate(),
        Ok("curl -X POST https://example.com/ \\\n  -H 'Content-Type: application/json' \\\n  -d '{\"a\":[1,2],\"b\":\"x y\"}'".to_string())
    );
}

#[test]
fn json_in_a_body_of_another_encoding_is_sent_too() {
    let data = endpoint(
        "POST",
        "https://example.com/",
        vec![],
        raw(RawEncoding::Plain, b"[true, false]"),
    );
    assert_eq!(
        CurlService::new(data).generate(),
        Ok("curl -X POST https://example.com/ \\\n  -d '[true,false]'".to_string())
    );
}

#[test]
fn single_quotes_in_the_body_are_escaped() {
    let data = endpoint(
        "POST",
        "https://example.com/",
        vec![],
        raw(RawEncoding::Json, b"{\"name\": \"it's\"}"),
    );
    assert_eq!(
        CurlService::new(data).generate(),
        Ok("curl -X POST https://example.com/ \\\n  -d '{\"name\":\"it'\\''s\"}'".to_string())
    );
}

#[test]
fn body_that_is_no_json_is_left_out() {
    let data = endpoint(
        "POST",
        "https://example.com/",
        vec![],
        raw(RawEncoding::OctetStream, b"not json"),
    );
    let command = CurlService::new(data).generate().unwrap();
    assert_eq!(command, "curl -X POST https://example.com/");
    assert!(!command.contains("-d"));
}

#[test]
fn empty_raw_body_is_left_out() {
    let data = endpoint("POST", "https://example.com/", vec![], raw(RawEncoding::Json, b""));
    assert_eq!(
        CurlService::new(data).generate(),
        Ok("curl -X POST https://example.com/".to_string())
    );
}

#[test]
fn bytes_that_are_no_utf8_are_replaced_before_the_body_is_read() {
    let data = endpoint(
        "POST",
        "https://example.com/",
        vec![],
        raw(RawEncoding::Json, b"\"a\xffb\""),
    );
    assert_eq!(
        CurlService::new(data).generate(),
        Ok("curl -X POST https://example.com/ \\\n  -d '\"a\u{fffd}b\"'".to_string())
    );
}

#[test]
fn form_bodies_are_left_out() {
    let fields = vec![Header::new("a", "1")];
    let form = endpoint(
        "POST",
        "https://example.com/",
        vec![],
        RequestPayload::Urlencoded(fields.clone()),
    );
    let multipart =
        endpoint("POST", "https://example.com/", vec![], RequestPayload::Multipart(fields));
    assert_eq!(
        CurlService::new(form).generate(),
        Ok("curl -X POST https://example.com/".to_string())
    );
    assert_eq!(
        CurlService::new(multipart).generate(),
        Ok("curl -X POST https://example.com/".to_string())
    );
}

#[test]
fn invalid_url_is_passed_on_and_no_text_is_made() {
    for url in ["", "not a url", "/v1/users", "api/v1", "   "] {
        let data = endpoint("GET", url, vec![], raw(RawEncoding::Json, b"{}"));
        assert_eq!(CurlService::new(data).generate(), Err(RequestError::InvalidUrl));
    }
}

#[test]
fn unsupported_method_is_passed_on() {
    let data = endpoint("FETCH", "https://example.com/", vec![], RequestPayload::Empty);
    assert_eq!(CurlService::new(data).generate(), Err(RequestError::UnsupportedMethod));
}

#[test]
fn invalid_header_is_passed_on() {
    let data = endpoint(
        "GET",
        "https://example.com/",
        vec![Header::new("X", "a\nb")],
        RequestPayload::Empty,
    );
    assert_eq!(CurlService::new(data).generate(), Err(RequestError::InvalidHeader));
}

#[test]
fn method_is_written_in_capitals() {
    let data = endpoint("delete", "https://example.com/1", vec![], RequestPayload::Empty);
    assert_eq!(
        CurlService::new(data).generate(),
        Ok("curl -X DELETE https://example.com/1".to_string())
    );
}
