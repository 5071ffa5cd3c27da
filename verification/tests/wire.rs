//! The envelope wire codec: canonical JSON output and byte-identical
//! re-rendering after a decode.

use plexus::codec::{decode_stream_item, encode_stream_item};
use plexus::envelope::{PlexusStreamItem, StreamMetadata};

fn meta(provenance: &[&str], hash: &str, timestamp: i64) -> StreamMetadata {
    StreamMetadata {
        provenance: provenance.iter().map(|s| s.to_string()).collect(),
        plexus_hash: hash.to_string(),
        timestamp,
    }
}

#[test]
fn test_stream_item_data_serialization() {
    let metadata = meta(&["plexus", "health"], "abc123", 1735052400);
    let item = PlexusStreamItem::data(
        metadata,
        "health.status".to_string(),
        "{\"status\":\"healthy\",\"uptime\":123}".to_string(),
    );

    let json = encode_stream_item(&item);
    assert!(json.contains("\"type\":\"data\""));
    assert!(json.contains("\"content_type\":\"health.status\""));
    assert!(json.contains("\"plexus_hash\":\"abc123\""));
    assert!(json.contains("\"provenance\":[\"plexus\",\"health\"]"));
    assert!(json.contains("\"timestamp\":1735052400"));

    let value: serde_json::Value = serde_json::from_str(&json).expect("canonical JSON parses");
    assert_eq!(value["content"]["status"], "healthy");
    assert_eq!(value["content"]["uptime"], 123);
}

#[test]
fn test_stream_item_error_serialization() {
    let metadata = meta(&["plexus"], "hash", 7);
    let item = PlexusStreamItem::error(
        metadata,
        "Something went wrong".to_string(),
        Some("E001".to_string()),
        false,
    );

    let json = encode_stream_item(&item);
    assert!(json.contains("\"type\":\"error\""));
    assert!(json.contains("\"message\":\"Something went wrong\""));
    assert!(json.contains("\"code\":\"E001\""));
    assert!(json.contains("\"recoverable\":false"));
}

#[test]
fn test_stream_item_progress_serialization() {
    let metadata = meta(&["plexus"], "hash", 7);
    let item = PlexusStreamItem::progress(metadata, "Processing...".to_string(), Some(50));

    let json = encode_stream_item(&item);
    assert!(json.contains("\"type\":\"progress\""));
    assert!(json.contains("\"message\":\"Processing...\""));
    assert!(json.contains("\"percentage\":50.0"));
}

#[test]
fn test_stream_item_done_serialization() {
    let metadata = meta(&["plexus"], "hash", 7);
    let item = PlexusStreamItem::done(metadata);

    let json = encode_stream_item(&item);
    assert!(json.contains("\"type\":\"done\""));
}

#[test]
fn request_serialization_places_payload_verbatim() {
    let item = PlexusStreamItem::Request {
        request_id: "id-1".to_string(),
        request_data: "{\"type\":\"confirm\",\"message\":\"ok?\"}".to_string(),
        timeout_ms: 100,
    };
    let json = encode_stream_item(&item);
    let value: serde_json::Value = serde_json::from_str(&json).unwrap();
    assert_eq!(value["type"], "request");
    assert_eq!(value["request_id"], "id-1");
    assert_eq!(value["timeout_ms"], 100);
    assert_eq!(value["request_data"]["type"], "confirm");
    assert_eq!(value["request_data"]["message"], "ok?");
}

#[test]
fn string_escaping_survives_the_json_layer() {
    let metadata = meta(&["a\"b", "c\\d"], "h", -3);
    let item = PlexusStreamItem::error(
        metadata,
        "line1\nline2\ttabbed".to_string(),
        None,
        true,
    );
    let json = encode_stream_item(&item);
    let value: serde_json::Value = serde_json::from_str(&json).unwrap();
    assert_eq!(value["message"], "line1\nline2\ttabbed");
    assert_eq!(value["metadata"]["provenance"][0], "a\"b");
    assert_eq!(value["metadata"]["provenance"][1], "c\\d");
    assert_eq!(value["metadata"]["timestamp"], -3);
}

#[test]
fn serialize_deserialize_serialize_is_byte_identical() {
    let items = vec![
        PlexusStreamItem::done(meta(&["plexus"], "deadbeef00000000", 1735052400)),
        PlexusStreamItem::error(
            meta(&["plexus", "bash"], "h", 0),
            "boom\nboom".to_string(),
            Some("E1".to_string()),
            false,
        ),
        PlexusStreamItem::error(meta(&["p"], "h", 7), "soft".to_string(), None, true),
        PlexusStreamItem::progress(meta(&["p"], "h", 7), "working".to_string(), Some(50)),
        PlexusStreamItem::progress(meta(&["p"], "h", 7), "working".to_string(), None),
        PlexusStreamItem::data(
            meta(&[], "h", -1),
            "bash.event".to_string(),
            "{\"line\":\"hi\"}".to_string(),
        ),
        PlexusStreamItem::Request {
            request_id: "id-1".to_string(),
            request_data: "{\"type\":\"confirm\"}".to_string(),
            timeout_ms: 100,
        },
    ];
    for item in items {
        let first = encode_stream_item(&item);
        let decoded = decode_stream_item(&first).expect("canonical text decodes");
        assert_eq!(decoded, item);
        let second = encode_stream_item(&decoded);
        assert_eq!(first, second);
    }
}

#[test]
fn decode_rejects_malformed_text() {
    assert!(decode_stream_item("").is_none());
    assert!(decode_stream_item("{}").is_none());
    assert!(decode_stream_item("{\"type\":\"data\"}").is_none());
    assert!(decode_stream_item("{\"type\":\"nonsense\",\"metadata\":{}}").is_none());
}
