use repo_executor::marker::{marker_json, parse_marker, Admin, Revision};

#[test]
fn encode_exact_wire_form() {
    let m = Revision {
        admin: Admin {
            revision: String::from("abc123"),
            previous: String::from("abc000"),
            branch: String::from("master"),
        },
    };
    assert_eq!(
        marker_json(&m),
        "{\"admin\":{\"revision\":\"abc123\",\"previous\":\"abc000\",\"branch\":\"master\"}}"
    );
}

#[test]
fn bootstrap_marker_repeats_revision() {
    let m = Revision::new("abc123", "master");
    assert_eq!(m.admin.revision, "abc123");
    assert_eq!(m.admin.previous, "abc123");
    assert_eq!(m.admin.branch, "master");
}

#[test]
fn round_trip_keeps_all_fields() {
    let m = Revision {
        admin: Admin {
            revision: String::from("0f9e8d7c"),
            previous: String::from("11223344"),
            branch: String::from("release/2024"),
        },
    };
    let encoded = marker_json(&m);
    let decoded = parse_marker(encoded.as_str()).expect("wire form must parse");
    assert_eq!(decoded.admin.revision, "0f9e8d7c");
    assert_eq!(decoded.admin.previous, "11223344");
    assert_eq!(decoded.admin.branch, "release/2024");
}

#[test]
fn round_trip_empty_fields() {
    let m = Revision::new("", "");
    let encoded = marker_json(&m);
    let decoded = parse_marker(encoded.as_str()).expect("wire form must parse");
    assert_eq!(decoded.admin.revision, "");
    assert_eq!(decoded.admin.previous, "");
    assert_eq!(decoded.admin.branch, "");
}

#[test]
fn parse_rejects_garbage() {
    assert!(parse_marker("").is_none());
    assert!(parse_marker("not json at all").is_none());
    assert!(parse_marker("{\"admin\":{}}").is_none());
    assert!(parse_marker("{\"admin\":{\"revision\":\"abc\"").is_none());
    assert!(parse_marker(
        "{\"admin\":{\"revision\":\"abc\",\"previous\":\"abc\",\"branch\":\"m\"}} trailing"
    )
    .is_none());
}

#[test]
fn parse_accepts_exact_wire_form() {
    let decoded = parse_marker(
        "{\"admin\":{\"revision\":\"abc123\",\"previous\":\"abc123\",\"branch\":\"master\"}}",
    )
    .expect("wire form must parse");
    assert_eq!(decoded.admin.revision, "abc123");
    assert_eq!(decoded.admin.previous, "abc123");
    assert_eq!(decoded.admin.branch, "master");
}
