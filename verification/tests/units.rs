use http_source::config::{DataType, Resource, SimpleHttpConfig};
use http_source::decode::{decode_body, Encoding};
use http_source::notification::{LogEventNotification, LogEventNotificationType};
use http_source::record::Record;
use http_source::server::handle_request;
use http_source::source::SimpleHttpSource;
use http_source::value::LogValue;

#[test]
fn text_empty_body_yields_zero_records() {
    let r = decode_body(&Vec::new(), Encoding::Text).unwrap();
    assert!(r.is_empty());
}

#[test]
fn text_blank_lines_yield_zero_records() {
    let r = decode_body(&b"\n\n\n".to_vec(), Encoding::Text).unwrap();
    assert!(r.is_empty());
}

#[test]
fn ndjson_one_bad_line_aborts_all() {
    let body = b"{\"a\":\"1\"}\nnot json".to_vec();
    let e = decode_body(&body, Encoding::Ndjson).unwrap_err();
    assert_eq!(400, e.code);
    assert!(e.message.starts_with("Bad JSON: Error parsing Ndjson:"));
}

#[test]
fn json_malformed_names_parse_error() {
    let e = decode_body(&b"{".to_vec(), Encoding::Json).unwrap_err();
    assert_eq!(400, e.code);
    assert!(e.message.starts_with("Bad JSON: Error parsing Json:"));
}

#[test]
fn json_array_of_non_objects_names_kind() {
    let e = decode_body(&b"[1]".to_vec(), Encoding::Json).unwrap_err();
    assert_eq!(400, e.code);
    assert_eq!("Bad JSON: Expected Object, got Number", e.message);
}

#[test]
fn json_other_shape_names_kind() {
    let e = decode_body(&b"\"x\"".to_vec(), Encoding::Json).unwrap_err();
    assert_eq!(400, e.code);
    assert_eq!("Bad JSON: Expected Array or Object, got String.", e.message);
}

#[test]
fn json_number_kept_as_decimal_text() {
    let r = decode_body(&b"{\"a\":1}".to_vec(), Encoding::Json).unwrap();
    assert_eq!(r[0].get("a"), Some(&LogValue::Num("1".to_string())));
}

#[test]
fn json_record_starts_with_timestamp_entry() {
    let r = decode_body(&b"{\"key1\":\"value1\"}".to_vec(), Encoding::Ndjson).unwrap();
    assert_eq!(1, r.len());
    assert_eq!("timestamp", r[0].key_at(0));
    assert_eq!("key1", r[0].key_at(1));
    assert!(matches!(r[0].value_at(0), LogValue::Timestamp(_)));
}

#[test]
fn json_user_timestamp_field_wins() {
    let r = decode_body(&b"{\"timestamp\":\"user\"}".to_vec(), Encoding::Json).unwrap();
    assert_eq!(r[0].get("timestamp"), Some(&LogValue::Str("user".to_string())));
    assert_eq!(1, r[0].len());
}

#[test]
fn record_insert_replaces_and_keeps_order() {
    let mut rec = Record::new();
    rec.insert("a", LogValue::Str("1".to_string()));
    rec.insert("b", LogValue::Null);
    rec.insert("a", LogValue::Str("2".to_string()));
    assert_eq!(2, rec.len());
    assert_eq!("a", rec.key_at(0));
    assert_eq!("b", rec.key_at(1));
    assert_eq!(rec.get("a"), Some(&LogValue::Str("2".to_string())));
    rec.try_insert("a", LogValue::Str("3".to_string()));
    assert_eq!(rec.get("a"), Some(&LogValue::Str("2".to_string())));
    rec.try_insert("c", LogValue::Bool(true));
    assert_eq!(rec.get("c"), Some(&LogValue::Bool(true)));
    assert_eq!(rec.get("missing"), None);
}

#[test]
fn unsupported_content_encoding_rejected() {
    let src = SimpleHttpSource {
        encoding: Encoding::Text,
        headers: vec![],
        query_parameters: vec![],
        path_key: "path".to_string(),
    };
    let headers: Vec<(String, Vec<u8>)> =
        vec![("Content-Encoding".to_string(), b"br".to_vec())];
    let resp = handle_request(&src, true, "/", "/", &headers, &Vec::new(), b"x".to_vec());
    assert_eq!(415, resp.status);
    assert_eq!("Unsupported encoding", resp.message);
    assert!(resp.events.is_empty());
}

#[test]
fn corrupt_gzip_body_rejected() {
    let src = SimpleHttpSource {
        encoding: Encoding::Text,
        headers: vec![],
        query_parameters: vec![],
        path_key: "path".to_string(),
    };
    let headers: Vec<(String, Vec<u8>)> =
        vec![("Content-Encoding".to_string(), b"gzip".to_vec())];
    let resp = handle_request(
        &src,
        true,
        "/",
        "/",
        &headers,
        &Vec::new(),
        b"not gzip at all".to_vec(),
    );
    assert_eq!(400, resp.status);
    assert_eq!("Failed decompressing payload", resp.message);
    assert!(resp.events.is_empty());
}

#[test]
fn header_lookup_ignores_ascii_case() {
    let src = SimpleHttpSource {
        encoding: Encoding::Text,
        headers: vec!["User-Agent".to_string()],
        query_parameters: vec![],
        path_key: "path".to_string(),
    };
    let headers: Vec<(String, Vec<u8>)> =
        vec![("user-agent".to_string(), b"client".to_vec())];
    let resp = handle_request(&src, true, "/", "/", &headers, &Vec::new(), b"hi".to_vec());
    assert_eq!(200, resp.status);
    assert_eq!(
        resp.events[0].get("User-Agent"),
        Some(&LogValue::Bytes(b"client".to_vec()))
    );
}

#[test]
fn text_mode_is_deterministic() {
    let src = SimpleHttpSource {
        encoding: Encoding::Text,
        headers: vec!["h".to_string()],
        query_parameters: vec!["q".to_string()],
        path_key: "path".to_string(),
    };
    let headers: Vec<(String, Vec<u8>)> = vec![("h".to_string(), b"v".to_vec())];
    let query: Vec<(String, String)> = vec![("q".to_string(), "w".to_string())];
    let a = handle_request(&src, true, "/", "/", &headers, &query, b"one\ntwo".to_vec());
    let b = handle_request(&src, true, "/", "/", &headers, &query, b"one\ntwo".to_vec());
    assert_eq!(200, a.status);
    assert_eq!(a.events, b.events);
}

#[test]
fn config_accessors() {
    let c = SimpleHttpConfig::default();
    assert_eq!("http", c.source_type());
    assert_eq!(DataType::Log, c.output_type());
    let r = c.resources();
    assert_eq!(1, r.len());
    assert_eq!(Resource::Tcp("0.0.0.0:80".to_string()), r[0]);
    let s = c.build_source();
    assert_eq!(Encoding::Text, s.encoding);
    assert!(s.headers.is_empty());
    assert_eq!("path", s.path_key);
}

#[test]
fn notification_new_keeps_fields() {
    let n = LogEventNotification::new("tail", LogEventNotificationType::ComponentNotReady);
    assert_eq!("tail", n.component_name);
    assert_eq!(LogEventNotificationType::ComponentNotReady, n.notification);
}

#[test]
fn ndjson_redecode_equal_modulo_timestamp() {
    let body = b"{\"a\":\"x\"}\n{\"b\":\"y\"}".to_vec();
    let r1 = decode_body(&body, Encoding::Ndjson).unwrap();
    let r2 = decode_body(&body, Encoding::Ndjson).unwrap();
    assert_eq!(r1.len(), r2.len());
    for (a, b) in r1.iter().zip(r2.iter()) {
        assert_eq!(a.len(), b.len());
        for i in 0..a.len() {
            assert_eq!(a.key_at(i), b.key_at(i));
            if a.key_at(i) != "timestamp" {
                assert_eq!(a.value_at(i), b.value_at(i));
            }
        }
    }
}
