use cartero::entities::RawEncoding;
use cartero::export::ExportType;
use cartero::json::pretty;
use cartero::response::{media_type, StatusClass};
use cartero::search::{occurrence_label, OccurrenceLabel};
use cartero::entities::RequestExportType;
use cartero::entities::EndpointData;

#[test]
fn status_codes_get_their_marks() {
    assert_eq!(StatusClass::of(199), StatusClass::Neutral);
    assert_eq!(StatusClass::of(200), StatusClass::Success);
    assert_eq!(StatusClass::of(204), StatusClass::Success);
    assert_eq!(StatusClass::of(299), StatusClass::Success);
    assert_eq!(StatusClass::of(300), StatusClass::Neutral);
    assert_eq!(StatusClass::of(399), StatusClass::Neutral);
    assert_eq!(StatusClass::of(400), StatusClass::Warning);
    assert_eq!(StatusClass::of(404), StatusClass::Warning);
    assert_eq!(StatusClass::of(499), StatusClass::Warning);
    assert_eq!(StatusClass::of(500), StatusClass::Error);
    assert_eq!(StatusClass::of(599), StatusClass::Error);
    assert_eq!(StatusClass::of(600), StatusClass::Neutral);
    assert_eq!(StatusClass::of(0), StatusClass::Neutral);
    assert_eq!(StatusClass::of(u16::MAX), StatusClass::Neutral);
}

#[test]
fn marks_have_their_names() {
    let names: Vec<&str> = StatusClass::all().iter().map(|c| c.css_class()).collect();
    assert_eq!(names, vec!["success", "warning", "error", "neutral"]);
}

#[test]
fn media_type_ends_at_the_first_semicolon() {
    assert_eq!(media_type("text/html; charset=utf-8"), "text/html");
    assert_eq!(media_type("application/json"), "application/json");
    assert_eq!(media_type("a;b;c"), "a");
    assert_eq!(media_type(";x"), "");
    assert_eq!(media_type(""), "");
    assert_eq!(media_type("text/plain;"), "text/plain");
}

#[test]
fn pretty_json_is_indented() {
    assert_eq!(pretty("{\"a\":[1,2]}"), Some("{\n  \"a\": [\n    1,\n    2\n  ]\n}".to_string()));
    assert_eq!(pretty("nope"), None);
}

#[test]
fn search_label_follows_the_occurrences() {
    assert_eq!(occurrence_label(3, 2), OccurrenceLabel::Position { current: 2, total: 3 });
    assert_eq!(occurrence_label(1, 1), OccurrenceLabel::Position { current: 1, total: 1 });
    assert_eq!(occurrence_label(3, -1), OccurrenceLabel::Count { results: 3 });
    assert_eq!(occurrence_label(3, 0), OccurrenceLabel::Count { results: 3 });
    assert_eq!(occurrence_label(i32::MAX, 0), OccurrenceLabel::Count { results: 2147483647 });
    assert_eq!(occurrence_label(0, 0), OccurrenceLabel::Blank);
    assert_eq!(occurrence_label(0, 1), OccurrenceLabel::Blank);
    assert_eq!(occurrence_label(-1, -1), OccurrenceLabel::Blank);
}

#[test]
fn editor_languages_and_encodings_agree() {
    assert_eq!(RawEncoding::of_language(Some("JSON")), RawEncoding::Json);
    assert_eq!(RawEncoding::of_language(Some("XML")), RawEncoding::Xml);
    assert_eq!(RawEncoding::of_language(Some("json")), RawEncoding::OctetStream);
    assert_eq!(RawEncoding::of_language(Some("Rust")), RawEncoding::OctetStream);
    assert_eq!(RawEncoding::of_language(None), RawEncoding::OctetStream);
    assert_eq!(RawEncoding::Json.language_id(), Some("json"));
    assert_eq!(RawEncoding::Xml.language_id(), Some("xml"));
    assert_eq!(RawEncoding::Plain.language_id(), None);
    assert_eq!(RawEncoding::OctetStream.language_id(), None);
}

#[test]
fn export_formats_have_their_pages() {
    assert_eq!(ExportType::Nothing.page(), "none");
    assert_eq!(ExportType::Curl.page(), "code");
    assert_eq!(ExportType::Nothing.language_id(), None);
    assert_eq!(ExportType::Curl.language_id(), Some("shellscript"));
}

#[test]
fn panes_hand_back_a_blank_envelope() {
    assert_eq!(ExportType::Nothing.blank_request(), RequestExportType::Nothing);
    assert_eq!(
        ExportType::Curl.blank_request(),
        RequestExportType::Curl(EndpointData::default())
    );
}
