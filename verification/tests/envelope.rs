use cartero::entities::{EndpointData, Header, RawEncoding, RequestExportType, RequestPayload};
use cartero::export::{from_export_type, to_export_type, ExportType};
use cartero::service::{CurlService, Exporter};

fn sample() -> EndpointData {
    EndpointData {
        method: "POST".to_string(),
        url: "https://example.com/items".to_string(),
        headers: vec![Header::new("X-B", "2"), Header::new("X-A", "1")],
        body: RequestPayload::Raw { encoding: RawEncoding::Json, content: b"[1, 2]".to_vec() },
    }
}

#[test]
fn envelope_carries_a_copy_of_the_endpoint() {
    let data = sample();
    assert_eq!(to_export_type(&data), RequestExportType::Curl(sample()));
    assert_eq!(data, sample());
}

#[test]
fn envelope_with_an_endpoint_gives_its_command() {
    assert_eq!(
        from_export_type(&to_export_type(&sample())),
        Some(
            "curl -X POST https://example.com/items \\\n  -H 'X-A: 1' \\\n  -H 'X-B: 2' \\\n  -d '[1,2]'"
                .to_string()
        )
    );
}

#[test]
fn empty_envelope_gives_nothing() {
    assert_eq!(from_export_type(&RequestExportType::Nothing), None);
}

#[test]
fn envelope_whose_endpoint_does_not_bind_gives_nothing() {
    let mut data = sample();
    data.url = "not a url".to_string();
    assert_eq!(from_export_type(&to_export_type(&data)), None);
    let mut data = sample();
    data.method = "SEND".to_string();
    assert_eq!(from_export_type(&to_export_type(&data)), None);
    let mut data = sample();
    data.headers.push(Header::new("", ""));
    assert_eq!(from_export_type(&to_export_type(&data)), None);
}

#[test]
fn default_endpoint_does_not_export() {
    let data = EndpointData::default();
    assert_eq!(data.method, "GET");
    assert_eq!(data.url, "");
    assert!(data.headers.is_empty());
    assert_eq!(data.body, RequestPayload::Empty);
    assert_eq!(from_export_type(&RequestExportType::Curl(data)), None);
}

#[test]
fn formats_are_listed_in_order() {
    assert_eq!(ExportType::types(), [ExportType::Nothing, ExportType::Curl]);
    assert_eq!(ExportType::default(), ExportType::Nothing);
}

#[test]
fn formats_and_positions_agree() {
    for (position, format) in ExportType::types().iter().enumerate() {
        assert_eq!(ExportType::at(position as u32), Some(*format));
        assert_eq!(format.position(), position as u32);
    }
    assert_eq!(ExportType::at(2), None);
    assert_eq!(ExportType::at(u32::MAX), None);
}

#[test]
fn envelope_asks_for_its_format() {
    assert_eq!(ExportType::of_request(&RequestExportType::Nothing), ExportType::Nothing);
    assert_eq!(ExportType::of_request(&to_export_type(&sample())), ExportType::Curl);
}

#[test]
fn only_a_format_has_code_to_show() {
    assert!(!ExportType::Nothing.shows_code());
    assert!(ExportType::Curl.shows_code());
}

#[test]
fn service_exports_through_the_exporter_interface() {
    let service = CurlService::new(sample());
    assert_eq!(Exporter::generate(&service), service.generate());
    assert!(Exporter::generate(&service).is_ok());
}
