use presentation::errors::HttpError;
use presentation::etag::{etag_after_update, format_etag, parse_if_match};
use presentation::observability::{
    extract_or_generate_request_id, plan_request_metrics, status_class, ConfigError,
    ObservabilityConfig, ObservabilitySettings,
};
use presentation::payload::PathUuid;
use presentation::text::{is_blank, trim_str};

fn bad_request_detail(r: Result<i32, HttpError>) -> (u16, Option<String>, String) {
    match r.unwrap_err() {
        HttpError::Problem(p) => (p.status, p.title, p.detail.unwrap()),
        HttpError::PlainText(..) => panic!("expected a problem"),
    }
}

#[test]
fn formats_etags_as_quoted_decimals() {
    assert_eq!(format_etag(0), "\"0\"");
    assert_eq!(format_etag(7), "\"7\"");
    assert_eq!(format_etag(1234567), "\"1234567\"");
    assert_eq!(format_etag(-15), "\"-15\"");
    assert_eq!(format_etag(i32::MAX), "\"2147483647\"");
    assert_eq!(format_etag(i32::MIN), "\"-2147483648\"");
    assert_eq!(etag_after_update(4), "\"5\"");
    assert_eq!(etag_after_update(-1), "\"0\"");
}

#[test]
fn parses_if_match_versions() {
    assert_eq!(parse_if_match(Some(b"\"5\"")).ok(), Some(5));
    assert_eq!(parse_if_match(Some(b"5")).ok(), Some(5));
    assert_eq!(parse_if_match(Some(b"  \"12\"\t")).ok(), Some(12));
    assert_eq!(parse_if_match(Some(b"W/\"3\"")).ok(), Some(3));
    assert_eq!(parse_if_match(Some(b"W/ \"3\"")).ok(), Some(3));
    assert_eq!(parse_if_match(Some(b"\"\"\"9\"\"")).ok(), Some(9));
    assert_eq!(parse_if_match(Some(b"+8")).ok(), Some(8));
    assert_eq!(parse_if_match(Some(b"\"-2147483648\"")).ok(), Some(i32::MIN));
    assert_eq!(parse_if_match(Some(b"\"2147483647\"")).ok(), Some(i32::MAX));
    assert_eq!(parse_if_match(Some(b"007")).ok(), Some(7));
}

#[test]
fn etags_round_trip_through_if_match() {
    for v in [0, 1, 9, 10, 99, 100, 4096, -1, -10, 65535, i32::MAX, i32::MIN, i32::MIN + 1] {
        let tag = format_etag(v);
        assert_eq!(parse_if_match(Some(tag.as_bytes())).ok(), Some(v));
        let weak = format!("W/{tag}");
        assert_eq!(parse_if_match(Some(weak.as_bytes())).ok(), Some(v));
    }
}

#[test]
fn missing_if_match_requires_a_precondition() {
    let (status, title, detail) = bad_request_detail(parse_if_match(None));
    assert_eq!(status, 428);
    assert_eq!(title.as_deref(), Some("Precondition Required"));
    assert_eq!(detail, "missing If-Match header");
}

#[test]
fn rejects_unusable_if_match_values() {
    let (status, title, detail) = bad_request_detail(parse_if_match(Some(b"\"5\"\x80")));
    assert_eq!((status, title), (400, None));
    assert_eq!(detail, "If-Match header must be valid ASCII");

    let (status, _, detail) = bad_request_detail(parse_if_match(Some(b" * ")));
    assert_eq!(status, 400);
    assert_eq!(detail, "If-Match '*' is not supported for optimistic locking");

    for bad in [
        &b"abc"[..],
        b"\"\"",
        b"",
        b"-",
        b"+",
        b"\"2147483648\"",
        b"\"-2147483649\"",
        b"\"99999999999999999999\"",
        b"1 2",
        b"w/\"3\"",
        b"\"*\"x",
        b"+-1",
    ] {
        let (status, _, detail) = bad_request_detail(parse_if_match(Some(bad)));
        assert_eq!(status, 400);
        assert_eq!(detail, "If-Match header must contain an integer ETag");
    }
}

#[test]
fn groups_status_codes_into_classes() {
    assert_eq!(status_class(200), "2xx");
    assert_eq!(status_class(299), "2xx");
    assert_eq!(status_class(301), "3xx");
    assert_eq!(status_class(404), "4xx");
    assert_eq!(status_class(503), "5xx");
    assert_eq!(status_class(199), "other");
    assert_eq!(status_class(600), "other");
}

#[test]
fn extract_or_generate_request_id_preserves_header_value() {
    let request_id = extract_or_generate_request_id(Some(b"abc-123"));
    assert_eq!(request_id, "abc-123");
    assert_eq!(extract_or_generate_request_id(Some(b"  abc-123\t")), "abc-123");
}

fn is_v4_uuid(s: &str) -> bool {
    let b = s.as_bytes();
    b.len() == 36
        && b.iter().enumerate().all(|(i, c)| {
            if [8, 13, 18, 23].contains(&i) {
                *c == b'-'
            } else {
                c.is_ascii_digit() || (b'a'..=b'f').contains(c)
            }
        })
        && b[14] == b'4'
        && [b'8', b'9', b'a', b'b'].contains(&b[19])
}

#[test]
fn extract_or_generate_request_id_generates_for_blank_or_missing() {
    let missing_id = extract_or_generate_request_id(None);
    assert!(!missing_id.is_empty());
    assert!(is_v4_uuid(&missing_id));

    let blank_id = extract_or_generate_request_id(Some(b" "));
    assert!(!blank_id.is_empty());
    assert_ne!(blank_id, " ");
    assert!(is_v4_uuid(&blank_id));

    let non_ascii = extract_or_generate_request_id(Some("id-\u{e9}".as_bytes()));
    assert!(is_v4_uuid(&non_ascii));
    assert_ne!(extract_or_generate_request_id(None), missing_id);
}

fn settings(header: &str, enabled: bool) -> ObservabilitySettings {
    ObservabilitySettings {
        request_id_header: header.to_string(),
        metrics_enabled: enabled,
        metrics_path: "/metrics".to_string(),
        log_level: "info".to_string(),
    }
}

#[test]
fn validates_and_normalizes_the_request_id_header() {
    let config = match ObservabilityConfig::from_settings(&settings("  X-Request-Id ", true)) {
        Ok(c) => c,
        Err(_) => panic!("a valid header name"),
    };
    assert_eq!(config.request_id_header_name, "x-request-id");
    assert_eq!(config.request_id_response_name, "x-request-id");
    assert!(config.metrics_enabled);
    assert_eq!(config.metrics_path, "/metrics");

    for bad in ["bad header", "", "   ", "x:y", "caf\u{e9}"] {
        match ObservabilityConfig::from_settings(&settings(bad, true)) {
            Ok(_) => panic!("{bad:?} is not a header name"),
            Err(err) => {
                let ConfigError::InvalidRequestIdHeader(h) = &err;
                assert_eq!(h, bad.trim());
                assert_eq!(err.message(), format!("invalid request id header name: {}", bad.trim()));
            }
        }
    }
}

#[test]
fn plans_request_metrics() {
    let config = ObservabilityConfig::from_settings(&settings("x-request-id", true)).ok().unwrap();
    let m = plan_request_metrics(&config, Some("/api/v1/to-do-items/{id}".to_string()), "/api/v1/to-do-items/1".to_string(), 404);
    assert!(m.record && m.record_error);
    assert_eq!(m.route, "/api/v1/to-do-items/{id}");
    assert_eq!(m.status_class, "4xx");

    let m = plan_request_metrics(&config, None, "/nowhere".to_string(), 200);
    assert!(m.record && !m.record_error);
    assert_eq!(m.route, "/nowhere");
    assert_eq!(m.status_class, "2xx");

    let m = plan_request_metrics(&config, Some("/metrics".to_string()), "/metrics".to_string(), 500);
    assert!(!m.record && !m.record_error);

    let off = ObservabilityConfig::from_settings(&settings("x-request-id", false)).ok().unwrap();
    let m = plan_request_metrics(&off, None, "/api".to_string(), 500);
    assert!(!m.record && !m.record_error);
    assert_eq!(m.status_class, "5xx");
}

#[test]
fn reads_uuid_path_segments() {
    let id = PathUuid::from_segment("67e55044-10b1-426f-9247-bb680e5fe0c8").ok().unwrap();
    assert_eq!(id.0, 0x67e5504410b1426f9247bb680e5fe0c8);
    let simple = PathUuid::from_segment("67e5504410b1426f9247bb680e5fe0c8").ok().unwrap();
    assert_eq!(simple.0, id.0);
    match PathUuid::from_segment("not-a-uuid") {
        Ok(_) => panic!("not a uuid"),
        Err(HttpError::PlainText(status, body)) => {
            assert_eq!(status, 404);
            assert!(body.starts_with("UUID parsing failed"));
        }
        Err(HttpError::Problem(_)) => panic!("expected plain text"),
    }
    match PathUuid::from_parsed(Err("boom".to_string())) {
        Err(HttpError::PlainText(404, body)) => assert_eq!(body, "boom"),
        _ => panic!("expected a plain 404"),
    }
    assert_eq!(PathUuid::from_parsed(Ok(7)).ok().unwrap().0, 7);
}

#[test]
fn trims_unicode_whitespace() {
    assert_eq!(trim_str(" \u{3000}\tab c\u{2028}\n"), "ab c");
    assert_eq!(trim_str("x"), "x");
    assert!(is_blank("\u{a0} \u{85}"));
    assert!(is_blank(""));
    assert!(!is_blank(" a "));
}
