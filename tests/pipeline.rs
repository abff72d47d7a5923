use komootgpx::document::{decode_payload, parse_document};
use komootgpx::error::PipelineError;
use komootgpx::locate::{find_from, locate_payload};
use komootgpx::pipeline::track_from_html;
use komootgpx::track::{coordinate, json_to_track, Track};

const RIDE_PAGE: &str = r#"<html><script>kmtBoot.setProps("{\"page\":{\"_embedded\":{\"tour\":{\"name\":\"Ride\",\"_embedded\":{\"coordinates\":{\"items\":[{\"lat\":48.1,\"lng\":11.5,\"alt\":520.0},{\"lat\":48.2,\"lng\":11.6,\"alt\":530.0}]}}}}}}");</script></html>"#;

fn page(payload: &str) -> String {
    format!("<html><script>kmtBoot.setProps(\"{}\");</script></html>", payload)
}

fn doc(text: &str) -> serde_json::Value {
    serde_json::from_str(text).unwrap()
}

fn with_items(items: &str) -> serde_json::Value {
    doc(&format!(
        "{{\"page\":{{\"_embedded\":{{\"tour\":{{\"name\":\"T\",\"_embedded\":{{\"coordinates\":{{\"items\":{}}}}}}}}}}}}}",
        items
    ))
}

fn coords(track: &Track) -> Vec<(f64, f64, f64)> {
    track
        .points
        .iter()
        .map(|p| {
            (
                p.longitude.as_f64().unwrap(),
                p.latitude.as_f64().unwrap(),
                p.elevation.as_f64().unwrap(),
            )
        })
        .collect()
}

fn invalid_field(r: Result<Track, PipelineError>) -> (String, Option<usize>) {
    match r {
        Err(PipelineError::InvalidField(f, i)) => (f, i),
        other => panic!("expected InvalidField, got {:?}", other),
    }
}

#[test]
fn round_trip_named_ride() {
    let track = track_from_html(RIDE_PAGE).unwrap();
    assert_eq!(track.name.as_deref(), Some("Ride"));
    assert_eq!(coords(&track), vec![(11.5, 48.1, 520.0), (11.6, 48.2, 530.0)]);
}

#[test]
fn missing_opening_marker() {
    let r = track_from_html("<html>setProps(\"{}\");</html>");
    assert!(matches!(r, Err(PipelineError::MarkerNotFound)));
}

#[test]
fn missing_closing_marker() {
    let r = track_from_html("<html>kmtBoot.setProps(\"{}\")</html>");
    assert!(matches!(r, Err(PipelineError::MarkerNotFound)));
}

#[test]
fn closing_marker_only_before_opening() {
    let r = track_from_html("\"); kmtBoot.setProps(\"{}");
    assert!(matches!(r, Err(PipelineError::MarkerNotFound)));
}

#[test]
fn empty_page_has_no_embedding() {
    assert!(matches!(locate_payload(""), Err(PipelineError::MarkerNotFound)));
}

#[test]
fn payload_between_markers() {
    let html = "a kmtBoot.setProps(\"xyz\"); b \"); kmtBoot.setProps(\"other\");";
    assert_eq!(locate_payload(html).unwrap(), "xyz");
}

#[test]
fn empty_payload() {
    assert_eq!(locate_payload("kmtBoot.setProps(\"\");").unwrap(), "");
}

#[test]
fn payload_keeps_non_ascii_text() {
    let html = "é kmtBoot.setProps(\"Ünïcödé ✓\"); ü";
    assert_eq!(locate_payload(html).unwrap(), "Ünïcödé ✓");
}

#[test]
fn find_from_first_occurrence() {
    assert_eq!(find_from(b"abcabc", b"bc", 0), Some(1));
    assert_eq!(find_from(b"abcabc", b"bc", 2), Some(4));
    assert_eq!(find_from(b"abcabc", b"bc", 5), None);
    assert_eq!(find_from(b"ab", b"abc", 0), None);
}

#[test]
fn malformed_escape_is_unescape_error() {
    let r = track_from_html(&page("{\\q}"));
    assert!(matches!(r, Err(PipelineError::UnescapeError)));
}

#[test]
fn unescape_reverses_quotes() {
    let v = decode_payload("{\\\"a\\\":1}").unwrap();
    assert_eq!(v, doc("{\"a\":1}"));
}

#[test]
fn invalid_json_is_malformed_document() {
    let r = track_from_html(&page("{not json"));
    match r {
        Err(PipelineError::MalformedDocument(msg)) => assert!(!msg.is_empty()),
        other => panic!("expected MalformedDocument, got {:?}", other),
    }
}

#[test]
fn parse_document_reads_json() {
    assert_eq!(parse_document("[1, 2]").unwrap(), doc("[1,2]"));
    assert!(matches!(parse_document("[1,"), Err(PipelineError::MalformedDocument(_))));
}

#[test]
fn decoding_twice_gives_same_document() {
    let payload = "{\\\"page\\\":{\\\"x\\\":[1,2.5,\\\"s\\\"]}}";
    assert_eq!(decode_payload(payload).unwrap(), decode_payload(payload).unwrap());
}

#[test]
fn points_follow_record_order() {
    let items: Vec<String> = (0..5)
        .map(|i| format!("{{\"lat\":{},\"lng\":{},\"alt\":{}}}", i, 10 + i, 100 + i))
        .collect();
    let track = json_to_track(&with_items(&format!("[{}]", items.join(",")))).unwrap();
    let expected: Vec<(f64, f64, f64)> =
        (0..5).map(|i| ((10 + i) as f64, i as f64, (100 + i) as f64)).collect();
    assert_eq!(coords(&track), expected);
}

#[test]
fn empty_coordinate_list_gives_empty_track() {
    let track = json_to_track(&with_items("[]")).unwrap();
    assert!(track.points.is_empty());
    assert_eq!(track.name.as_deref(), Some("T"));
}

#[test]
fn non_numeric_lat_names_its_index() {
    let items = r#"[{"lat":1,"lng":2,"alt":3},{"lat":"x","lng":2,"alt":3},{"lng":2}]"#;
    let r = json_to_track(&with_items(items));
    assert_eq!(invalid_field(r), ("lat".to_string(), Some(1)));
}

#[test]
fn first_invalid_record_wins() {
    let items = r#"[{"lat":1,"lng":2},{"lat":"x","lng":2,"alt":3}]"#;
    let r = json_to_track(&with_items(items));
    assert_eq!(invalid_field(r), ("alt".to_string(), Some(0)));
}

#[test]
fn missing_lng_is_invalid() {
    let r = json_to_track(&with_items(r#"[{"lat":1,"alt":3}]"#));
    assert_eq!(invalid_field(r), ("lng".to_string(), Some(0)));
}

#[test]
fn null_alt_is_invalid() {
    let r = json_to_track(&with_items(r#"[{"lat":1,"lng":2,"alt":null}]"#));
    assert_eq!(invalid_field(r), ("alt".to_string(), Some(0)));
}

#[test]
fn missing_path_is_path_not_found() {
    let r = json_to_track(&doc(r#"{"page":{}}"#));
    assert!(matches!(r, Err(PipelineError::PathNotFound(k)) if k == "_embedded"));
    let r = json_to_track(&doc(r#"{"page":{"_embedded":{"tour":{"_embedded":{"coordinates":{}}}}}}"#));
    assert!(matches!(r, Err(PipelineError::PathNotFound(k)) if k == "items"));
}

#[test]
fn non_object_on_path_is_path_not_found() {
    let r = json_to_track(&doc(r#"{"page":[1,2]}"#));
    assert!(matches!(r, Err(PipelineError::PathNotFound(k)) if k == "_embedded"));
    let r = json_to_track(&doc("3"));
    assert!(matches!(r, Err(PipelineError::PathNotFound(k)) if k == "page"));
}

#[test]
fn object_items_is_not_an_array() {
    let r = json_to_track(&with_items(r#"{"lat":1,"lng":2,"alt":3}"#));
    assert!(matches!(r, Err(PipelineError::NotAnArray)));
}

#[test]
fn absent_name_gives_unnamed_track() {
    let d = doc(r#"{"page":{"_embedded":{"tour":{"_embedded":{"coordinates":{"items":[{"lat":1,"lng":2,"alt":3}]}}}}}}"#);
    let track = json_to_track(&d).unwrap();
    assert_eq!(track.name, None);
    assert_eq!(coords(&track), vec![(2.0, 1.0, 3.0)]);
}

#[test]
fn non_string_name_is_invalid() {
    let d = doc(r#"{"page":{"_embedded":{"tour":{"name":7,"_embedded":{"coordinates":{"items":[]}}}}}}"#);
    assert_eq!(invalid_field(json_to_track(&d)), ("name".to_string(), None));
}

#[test]
fn coordinate_reads_numbers_only() {
    let item = doc(r#"{"lat":48.5,"lng":"11","alt":7}"#);
    assert_eq!(coordinate(&item, "lat").unwrap().as_f64(), Some(48.5));
    assert_eq!(coordinate(&item, "alt").unwrap().as_i64(), Some(7));
    assert!(coordinate(&item, "lng").is_none());
    assert!(coordinate(&item, "elev").is_none());
}
