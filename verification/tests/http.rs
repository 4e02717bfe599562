use http_source::config::SimpleHttpConfig;
use http_source::decode::Encoding;
use http_source::server::{handle_request, HttpResponse};
use http_source::source::SimpleHttpSource;
use http_source::value::LogValue;
use std::io::Write;

fn source(
    encoding: Encoding,
    headers: Vec<String>,
    query_parameters: Vec<String>,
    path_key: &str,
) -> SimpleHttpSource {
    SimpleHttpSource {
        encoding,
        headers,
        query_parameters,
        path_key: path_key.to_string(),
    }
}

fn send(src: &SimpleHttpSource, strict: bool, url_path: &str, path: &str, body: &str) -> HttpResponse {
    handle_request(
        src,
        strict,
        url_path,
        path,
        &Vec::new(),
        &Vec::new(),
        body.as_bytes().to_vec(),
    )
}

#[test]
fn generate_config() {
    let c = SimpleHttpConfig::default();
    assert_eq!(c.address, "0.0.0.0:80");
    assert_eq!(c.encoding, Encoding::Text);
    assert!(c.headers.is_empty());
    assert!(c.query_parameters.is_empty());
    assert!(c.strict_path);
    assert_eq!(c.url_path, "/");
    assert_eq!(c.path_key, "path");
}

#[test]
fn http_multiline_text() {
    let body = "test body\n\ntest body 2";
    let src = source(Encoding::default(), vec![], vec![], "http_path");
    let resp = send(&src, true, "/", "/", body);
    assert_eq!(200, resp.status);
    assert_eq!(2, resp.events.len());
    {
        let log = &resp.events[0];
        assert_eq!(log.get("message"), Some(&LogValue::Bytes(b"test body".to_vec())));
        assert_eq!(log.get("source_type"), Some(&LogValue::Str("http".to_string())));
        assert_eq!(log.get("http_path"), Some(&LogValue::Str("/".to_string())));
    }
    {
        let log = &resp.events[1];
        assert_eq!(log.get("message"), Some(&LogValue::Bytes(b"test body 2".to_vec())));
        assert_eq!(log.get("source_type"), Some(&LogValue::Str("http".to_string())));
        assert_eq!(log.get("http_path"), Some(&LogValue::Str("/".to_string())));
    }
}

#[test]
fn http_multiline_text2() {
    // Same as the previous test but with a newline at the end.
    let body = "test body\n\ntest body 2\n";
    let src = source(Encoding::default(), vec![], vec![], "http_path");
    let resp = send(&src, true, "/", "/", body);
    assert_eq!(200, resp.status);
    assert_eq!(2, resp.events.len());
    {
        let log = &resp.events[0];
        assert_eq!(log.get("message"), Some(&LogValue::Bytes(b"test body".to_vec())));
        assert_eq!(log.get("source_type"), Some(&LogValue::Str("http".to_string())));
        assert_eq!(log.get("http_path"), Some(&LogValue::Str("/".to_string())));
    }
    {
        let log = &resp.events[1];
        assert_eq!(log.get("message"), Some(&LogValue::Bytes(b"test body 2".to_vec())));
        assert_eq!(log.get("source_type"), Some(&LogValue::Str("http".to_string())));
        assert_eq!(log.get("http_path"), Some(&LogValue::Str("/".to_string())));
    }
}

#[test]
fn http_json_parsing() {
    let src = source(Encoding::Json, vec![], vec![], "http_path");
    assert_eq!(400, send(&src, true, "/", "/", "{").status);
    assert_eq!(400, send(&src, true, "/", "/", r#"{"key"}"#).status);

    let one = send(&src, true, "/", "/", "{}");
    assert_eq!(200, one.status);
    assert_eq!(1, one.events.len());
    assert!(one.events[0].get("timestamp").is_some());

    let three = send(&src, true, "/", "/", "[{},{},{}]");
    assert_eq!(200, three.status);
    assert_eq!(3, three.events.len());
    assert!(three.events[0].get("timestamp").is_some());
    assert!(three.events[2].get("timestamp").is_some());
}

#[test]
fn http_json_values() {
    let src = source(Encoding::Json, vec![], vec![], "http_path");
    let a = send(&src, true, "/", "/", r#"[{"key":"value"}]"#);
    let b = send(&src, true, "/", "/", r#"{"key2":"value2"}"#);
    assert_eq!(200, a.status);
    assert_eq!(200, b.status);
    {
        let log = &a.events[0];
        assert_eq!(log.get("key"), Some(&LogValue::Str("value".to_string())));
        assert!(log.get("timestamp").is_some());
        assert_eq!(log.get("source_type"), Some(&LogValue::Str("http".to_string())));
        assert_eq!(log.get("http_path"), Some(&LogValue::Str("/".to_string())));
    }
    {
        let log = &b.events[0];
        assert_eq!(log.get("key2"), Some(&LogValue::Str("value2".to_string())));
        assert!(log.get("timestamp").is_some());
        assert_eq!(log.get("source_type"), Some(&LogValue::Str("http".to_string())));
        assert_eq!(log.get("http_path"), Some(&LogValue::Str("/".to_string())));
    }
}

#[test]
fn http_json_dotted_keys() {
    let src = source(Encoding::Json, vec![], vec![], "http_path");
    let a = send(&src, true, "/", "/", r#"[{"dotted.key":"value"}]"#);
    assert_eq!(200, a.status);
    assert_eq!(
        a.events[0].get("dotted.key"),
        Some(&LogValue::Str("value".to_string()))
    );

    let b = send(&src, true, "/", "/", r#"{"nested":{"dotted.key2":"value2"}}"#);
    assert_eq!(200, b.status);
    assert_eq!(
        b.events[0].get("nested"),
        Some(&LogValue::Obj(vec![(
            "dotted.key2".to_string(),
            LogValue::Str("value2".to_string())
        )]))
    );
}

#[test]
fn http_ndjson() {
    let src = source(Encoding::Ndjson, vec![], vec![], "http_path");

    // One object per line: a whole array is rejected.
    assert_eq!(400, send(&src, true, "/", "/", r#"[{"key":"value"}]"#).status);

    let resp = send(&src, true, "/", "/", "{\"key1\":\"value1\"}\n\n{\"key2\":\"value2\"}");
    assert_eq!(200, resp.status);
    assert_eq!(2, resp.events.len());
    {
        let log = &resp.events[0];
        assert_eq!(log.get("key1"), Some(&LogValue::Str("value1".to_string())));
        assert!(log.get("timestamp").is_some());
        assert_eq!(log.get("source_type"), Some(&LogValue::Str("http".to_string())));
        assert_eq!(log.get("http_path"), Some(&LogValue::Str("/".to_string())));
    }
    {
        let log = &resp.events[1];
        assert_eq!(log.get("key2"), Some(&LogValue::Str("value2".to_string())));
        assert!(log.get("timestamp").is_some());
        assert_eq!(log.get("source_type"), Some(&LogValue::Str("http".to_string())));
        assert_eq!(log.get("http_path"), Some(&LogValue::Str("/".to_string())));
    }
}

#[test]
fn http_headers() {
    let req_headers: Vec<(String, Vec<u8>)> = vec![
        ("User-Agent".to_string(), b"test_client".to_vec()),
        ("Upgrade-Insecure-Requests".to_string(), b"false".to_vec()),
    ];
    let src = source(
        Encoding::Ndjson,
        vec![
            "User-Agent".to_string(),
            "Upgrade-Insecure-Requests".to_string(),
            "AbsentHeader".to_string(),
        ],
        vec![],
        "http_path",
    );
    let resp = handle_request(
        &src,
        true,
        "/",
        "/",
        &req_headers,
        &Vec::new(),
        b"{\"key1\":\"value1\"}".to_vec(),
    );
    assert_eq!(200, resp.status);
    assert_eq!(1, resp.events.len());
    let log = &resp.events[0];
    assert_eq!(log.get("key1"), Some(&LogValue::Str("value1".to_string())));
    assert_eq!(log.get("User-Agent"), Some(&LogValue::Bytes(b"test_client".to_vec())));
    assert_eq!(
        log.get("Upgrade-Insecure-Requests"),
        Some(&LogValue::Bytes(b"false".to_vec()))
    );
    assert_eq!(log.get("AbsentHeader"), Some(&LogValue::Null));
    assert_eq!(log.get("http_path"), Some(&LogValue::Str("/".to_string())));
    assert!(log.get("timestamp").is_some());
    assert_eq!(log.get("source_type"), Some(&LogValue::Str("http".to_string())));
}

#[test]
fn http_query() {
    let query: Vec<(String, String)> = vec![
        ("source".to_string(), "staging".to_string()),
        ("region".to_string(), "gb".to_string()),
    ];
    let src = source(
        Encoding::Ndjson,
        vec![],
        vec![
            "source".to_string(),
            "region".to_string(),
            "absent".to_string(),
        ],
        "http_path",
    );
    let resp = handle_request(
        &src,
        true,
        "/",
        "/",
        &Vec::new(),
        &query,
        b"{\"key1\":\"value1\"}".to_vec(),
    );
    assert_eq!(200, resp.status);
    assert_eq!(1, resp.events.len());
    let log = &resp.events[0];
    assert_eq!(log.get("key1"), Some(&LogValue::Str("value1".to_string())));
    assert_eq!(log.get("source"), Some(&LogValue::Str("staging".to_string())));
    assert_eq!(log.get("region"), Some(&LogValue::Str("gb".to_string())));
    assert_eq!(log.get("absent"), Some(&LogValue::Null));
    assert_eq!(log.get("http_path"), Some(&LogValue::Str("/".to_string())));
    assert!(log.get("timestamp").is_some());
    assert_eq!(log.get("source_type"), Some(&LogValue::Str("http".to_string())));
}

#[test]
fn http_gzip_deflate() {
    let body = "test body";

    let mut encoder = flate2::write::GzEncoder::new(Vec::new(), flate2::Compression::default());
    encoder.write_all(body.as_bytes()).unwrap();
    let body = encoder.finish().unwrap();

    let mut encoder =
        flate2::write::DeflateEncoder::new(Vec::new(), flate2::Compression::default());
    encoder.write_all(body.as_slice()).unwrap();
    let body = encoder.finish().unwrap();

    let req_headers: Vec<(String, Vec<u8>)> =
        vec![("Content-Encoding".to_string(), b"gzip, deflate".to_vec())];

    let src = source(Encoding::default(), vec![], vec![], "http_path");
    let resp = handle_request(&src, true, "/", "/", &req_headers, &Vec::new(), body);
    assert_eq!(200, resp.status);
    assert_eq!(1, resp.events.len());
    let log = &resp.events[0];
    assert_eq!(log.get("message"), Some(&LogValue::Bytes(b"test body".to_vec())));
    assert_eq!(log.get("source_type"), Some(&LogValue::Str("http".to_string())));
    assert_eq!(log.get("http_path"), Some(&LogValue::Str("/".to_string())));
}

#[test]
fn http_path() {
    let src = source(Encoding::Ndjson, vec![], vec![], "vector_http_path");
    let resp = send(
        &src,
        true,
        "/event/path",
        "/event/path",
        "{\"key1\":\"value1\"}",
    );
    assert_eq!(200, resp.status);
    let log = &resp.events[0];
    assert_eq!(log.get("key1"), Some(&LogValue::Str("value1".to_string())));
    assert_eq!(
        log.get("vector_http_path"),
        Some(&LogValue::Str("/event/path".to_string()))
    );
    assert!(log.get("timestamp").is_some());
    assert_eq!(log.get("source_type"), Some(&LogValue::Str("http".to_string())));
}

#[test]
fn http_path_no_restriction() {
    let src = source(Encoding::Ndjson, vec![], vec![], "vector_http_path");
    let a = send(&src, false, "/event", "/event/path1", "{\"key1\":\"value1\"}");
    let b = send(&src, false, "/event", "/event/path2", "{\"key2\":\"value2\"}");
    assert_eq!(200, a.status);
    assert_eq!(200, b.status);
    {
        let log = &a.events[0];
        assert_eq!(log.get("key1"), Some(&LogValue::Str("value1".to_string())));
        assert_eq!(
            log.get("vector_http_path"),
            Some(&LogValue::Str("/event/path1".to_string()))
        );
        assert!(log.get("timestamp").is_some());
        assert_eq!(log.get("source_type"), Some(&LogValue::Str("http".to_string())));
    }
    {
        let log = &b.events[0];
        assert_eq!(log.get("key2"), Some(&LogValue::Str("value2".to_string())));
        assert_eq!(
            log.get("vector_http_path"),
            Some(&LogValue::Str("/event/path2".to_string()))
        );
        assert!(log.get("timestamp").is_some());
        assert_eq!(log.get("source_type"), Some(&LogValue::Str("http".to_string())));
    }
}

#[test]
fn http_wrong_path() {
    let src = source(Encoding::Ndjson, vec![], vec![], "vector_http_path");
    let resp = send(&src, true, "/", "/event/path", "{\"key1\":\"value1\"}");
    assert_eq!(405, resp.status);
    assert!(resp.events.is_empty());
}
