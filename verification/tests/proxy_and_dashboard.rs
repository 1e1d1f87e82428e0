use std::io::Write;

use openai_proxy::access::{
    is_authorized, origin_allowed, socket_step, SocketAction, SocketEvent,
};
use openai_proxy::fragments::{
    detail_view, format_timestamp, new_tx_card, newest_first_order, stats_labels, stats_window_label,
    status_class, tx_card, DetailParams, DetailSection, TransactionSummary,
};
use openai_proxy::logging::{
    headers_to_pairs, log_file_name, log_timestamp, redact_authorization, redact_headers,
};
use openai_proxy::proxy::{
    body_for_log, forward_request_header, forward_response_header, is_gzip_encoded, is_hop_by_hop, logged_body,
    LoggedBody,
};
use openai_proxy::store::{has_json_extension, is_tx_file};

#[test]
fn hop_by_hop_names_ignore_case() {
    for name in [
        "connection",
        "Keep-Alive",
        "proxy-authenticate",
        "PROXY-AUTHORIZATION",
        "proxy-connection",
        "te",
        "Trailer",
        "transfer-encoding",
        "upgrade",
    ] {
        assert!(is_hop_by_hop(name), "{name}");
    }
    assert!(!is_hop_by_hop("content-type"));
    assert!(!is_hop_by_hop("tE "));
    assert!(!is_hop_by_hop("ţe"));
}

#[test]
fn request_headers_forwarded() {
    assert!(forward_request_header("authorization"));
    assert!(forward_request_header("content-type"));
    assert!(!forward_request_header("host"));
    assert!(!forward_request_header("Content-Length"));
    assert!(!forward_request_header("connection"));
}

#[test]
fn response_headers_forwarded() {
    assert!(forward_response_header("host"));
    assert!(forward_response_header("content-encoding"));
    assert!(!forward_response_header("content-length"));
    assert!(!forward_response_header("Transfer-Encoding"));
}

#[test]
fn hop_by_hop_headers_never_cross_the_proxy() {
    for name in ["connection", "upgrade", "TE", "keep-alive"] {
        assert!(!forward_request_header(name));
        assert!(!forward_response_header(name));
    }
}

#[test]
fn gzip_detection() {
    assert!(is_gzip_encoded(Some("gzip")));
    assert!(is_gzip_encoded(Some("x-gzip, br")));
    assert!(!is_gzip_encoded(Some("GZIP")));
    assert!(!is_gzip_encoded(Some("br")));
    assert!(!is_gzip_encoded(None));
}

fn gzip(data: &[u8]) -> Vec<u8> {
    let mut enc = flate2::write::GzEncoder::new(Vec::new(), flate2::Compression::default());
    enc.write_all(data).unwrap();
    enc.finish().unwrap()
}

#[test]
fn logged_body_decompresses_gzip() {
    let plain = b"{\"model\":\"gpt-4o\"}".to_vec();
    let packed = gzip(&plain);
    assert_ne!(packed, plain);
    assert_eq!(logged_body(&packed, true), plain);
    assert_eq!(logged_body(&packed, false), packed);
    let broken = b"not gzip at all".to_vec();
    assert_eq!(logged_body(&broken, true), broken);
}

#[test]
fn header_object_last_value_wins() {
    let entries = vec![
        ("accept".to_string(), Some("a".to_string())),
        ("x-bin".to_string(), None),
        ("accept".to_string(), Some("b".to_string())),
    ];
    let pairs = headers_to_pairs(&entries);
    assert_eq!(
        pairs,
        vec![
            ("accept".to_string(), "b".to_string()),
            ("x-bin".to_string(), "<binary>".to_string()),
        ]
    );
    assert!(headers_to_pairs(&vec![]).is_empty());
}

#[test]
fn authorization_redaction() {
    assert_eq!(redact_authorization("Bearer sk-1234567890abcd"), "Bearer sk-1...abcd");
    assert_eq!(redact_authorization("Bearer 12345678"), "Bearer [REDACTED]");
    assert_eq!(redact_authorization("Bearer 123456789"), "Bearer 1234...6789");
    assert_eq!(redact_authorization("Basic abc"), "[REDACTED]");
    assert_eq!(redact_authorization("bearer sk-1234567890abcd"), "[REDACTED]");
    assert_eq!(redact_authorization("Bearer é12345é"), "Bearer é12...45é");
}

#[test]
fn redacted_value_stays_short() {
    let long = format!("Bearer {}", "s".repeat(200));
    let r = redact_authorization(&long);
    assert!(r.len() <= 18);
    assert!(!r.contains(&"s".repeat(5)));
}

#[test]
fn only_authorization_is_redacted() {
    let headers = vec![
        ("authorization".to_string(), "Bearer sk-secretsecret".to_string()),
        ("Authorization".to_string(), "kept".to_string()),
        ("accept".to_string(), "x".to_string()),
    ];
    let r = redact_headers(&headers);
    assert_eq!(r[0], ("authorization".to_string(), "Bearer sk-s...cret".to_string()));
    assert_eq!(r[1], headers[1]);
    assert_eq!(r[2], headers[2]);
}

#[test]
fn log_file_names() {
    let ts = "2026-03-26T12:00:00.123+00:00";
    let id = "550e8400-e29b-41d4-a716-446655440000";
    let name = log_file_name(ts, id);
    assert_eq!(
        name,
        "log/tx_2026-03-26T12-00-00.123+00-00_550e8400-e29b-41d4-a716-446655440000.json"
    );
    let file = name.trim_start_matches("log/");
    assert!(is_tx_file(file, id));
    assert!(has_json_extension(file));
}

#[test]
fn dashboard_bearer_auth() {
    assert!(is_authorized(None, None));
    assert!(is_authorized(None, Some("anything")));
    assert!(is_authorized(Some("tok"), Some("Bearer tok")));
    assert!(!is_authorized(Some("tok"), Some("Bearer tok2")));
    assert!(!is_authorized(Some("tok"), Some("bearer tok")));
    assert!(!is_authorized(Some("tok"), Some("tok")));
    assert!(!is_authorized(Some("tok"), None));
    assert!(is_authorized(Some(""), Some("Bearer ")));
}

#[test]
fn websocket_origin_check() {
    assert!(origin_allowed(false, None, None));
    assert!(origin_allowed(true, Some("localhost:3000"), Some("http://localhost:3000")));
    assert!(origin_allowed(true, Some("localhost:3000"), Some("https://localhost:3000")));
    assert!(origin_allowed(true, Some("h"), Some("https://https://http://h")));
    assert!(!origin_allowed(true, Some("h"), Some("http://https://h")));
    assert!(!origin_allowed(true, Some("localhost:3000"), Some("http://evil.com")));
    assert!(!origin_allowed(true, Some("h"), None));
    assert!(origin_allowed(true, None, Some("http://")));
}

#[test]
fn websocket_steps() {
    assert!(socket_step(SocketEvent::Transaction) == SocketAction::SendCard);
    assert!(socket_step(SocketEvent::UnreadableTransaction) == SocketAction::Wait);
    assert!(socket_step(SocketEvent::Lagged) == SocketAction::Wait);
    assert!(socket_step(SocketEvent::ClientMessage) == SocketAction::Wait);
    assert!(socket_step(SocketEvent::ChannelClosed) == SocketAction::Stop);
    assert!(socket_step(SocketEvent::ClientClosed) == SocketAction::Stop);
    assert!(socket_step(SocketEvent::SendFailed) == SocketAction::Stop);
}

#[test]
fn timestamps_for_display() {
    assert_eq!(format_timestamp("2026-03-26T12:00:00.123+00:00"), "2026-03-26 12:00:00");
    assert_eq!(format_timestamp("2026-03-26T12:00:00+02:00"), "2026-03-26 12:00:00");
    assert_eq!(format_timestamp("2026-03-26T12:00:00Z"), "2026-03-26 12:00:00");
    assert_eq!(format_timestamp("2026-03-26T12:00:00"), "2026-03-26 12:00:00");
    assert_eq!(format_timestamp("aTbTc"), "a bTc");
    assert_eq!(format_timestamp(""), "");
}

fn summary(status: Option<u16>, latency: Option<u64>, method: Option<&str>) -> TransactionSummary {
    TransactionSummary {
        id: "abc".to_string(),
        timestamp: "2026-01-02T03:04:05.6Z".to_string(),
        method: method.map(|m| m.to_string()),
        status,
        latency_ms: latency,
    }
}

#[test]
fn transaction_cards() {
    let c = tx_card(&summary(Some(200), Some(42), Some("POST")));
    assert_eq!(c.id, "abc");
    assert_eq!(c.time, "2026-01-02 03:04:05");
    assert_eq!(c.method, "POST");
    assert_eq!(c.status_text, "200");
    assert_eq!(c.status_class, "status-ok");
    assert_eq!(c.latency_text, "42 ms");
    assert_eq!(c.response_url, "/fragments/tx/abc?section=response");
    assert_eq!(c.request_url, "/fragments/tx/abc?section=request");

    let d = tx_card(&summary(None, None, None));
    assert_eq!(d.method, "?");
    assert_eq!(d.status_text, "?");
    assert_eq!(d.status_class, "status-err");
    assert_eq!(d.latency_text, "");
}

#[test]
fn status_classes() {
    assert_eq!(status_class(Some(199)), "status-err");
    assert_eq!(status_class(Some(200)), "status-ok");
    assert_eq!(status_class(Some(299)), "status-ok");
    assert_eq!(status_class(Some(300)), "status-err");
    assert_eq!(status_class(None), "status-err");
}

#[test]
fn summaries_from_log_fields() {
    let s = TransactionSummary::from_log_fields(None, Some("t"), Some("GET"), Some(65536 + 201), Some(7));
    assert_eq!(s.id, "");
    assert_eq!(s.timestamp, "t");
    assert_eq!(s.method.as_deref(), Some("GET"));
    assert_eq!(s.status, Some(201));
    assert_eq!(s.latency_ms, Some(7));
    let n = TransactionSummary::from_log_fields(Some("i"), None, None, None, None);
    assert_eq!((n.id.as_str(), n.timestamp.as_str()), ("i", ""));
    assert!(n.method.is_none() && n.status.is_none() && n.latency_ms.is_none());
}

#[test]
fn detail_sections() {
    assert!(DetailSection::from_param(Some("request")) == DetailSection::Request);
    assert!(DetailSection::from_param(Some("response")) == DetailSection::Response);
    assert!(DetailSection::from_param(Some("Request")) == DetailSection::Response);
    assert!(DetailSection::from_param(None) == DetailSection::Response);
    let p = DetailParams { section: Some("request".to_string()) };
    assert!(p.section() == DetailSection::Request);
}

#[test]
fn detail_download_actions() {
    let v = detail_view(Some("abc"), Some("2026-01-02T03:04:05.6Z"), DetailSection::Response);
    assert_eq!(v.download_url, "/api/transactions/abc/response");
    assert_eq!(v.file_name, "response_2026-01-02T03-04-05-6Z.md");
    assert_eq!(v.button_label, "⬇ Response.md");
    assert_eq!(
        v.download_script,
        "on click\n  set link to document.createElement('a') then\n  set link.href to '/api/transactions/abc/response' then\n  set link.download to 'response_2026-01-02T03-04-05-6Z.md' then\n  call document.body.appendChild(link) then\n  call link.click() then\n  call document.body.removeChild(link)"
    );
    assert_eq!(v.copy_script, "on click call navigator.clipboard.writeText(my.textContent)");

    let r = detail_view(None, None, DetailSection::Request);
    assert_eq!(r.download_url, "/api/transactions//conversation");
    assert_eq!(r.file_name, "conversation_unknown.md");
    assert_eq!(r.button_label, "⬇ Conversation.md");
}

#[test]
fn stats_labels_follow_window() {
    assert_eq!(stats_window_label("15m"), "15 minutes");
    assert_eq!(stats_window_label("24h"), "24 hours");
    assert_eq!(stats_window_label("3d"), "3d");
    let l = stats_labels("1h");
    assert_eq!(l.refresh_url, "/fragments/stats?window=1h");
    assert_eq!(l.requests_label, "Requests (1 hour)");
    assert_eq!(l.cost_label, "Cost (1 hour)");
}

#[test]
fn newest_transactions_first() {
    let ts: Vec<String> = ["2026-01-01", "2026-03-01", "2026-01-01", "", "2026-02-01"]
        .iter()
        .map(|s| s.to_string())
        .collect();
    assert_eq!(newest_first_order(&ts), vec![1, 4, 0, 2, 3]);
    assert_eq!(newest_first_order(&vec![]), Vec::<usize>::new());
    let same: Vec<String> = vec!["a".into(), "a".into(), "a".into()];
    assert_eq!(newest_first_order(&same), vec![0, 1, 2]);
}

#[test]
fn log_timestamps() {
    assert_eq!(log_timestamp(0, 0).as_deref(), Some("1970-01-01T00:00:00+00:00"));
    assert_eq!(
        log_timestamp(1_774_526_400, 123_000_000).as_deref(),
        Some("2026-03-26T12:00:00.123+00:00")
    );
    assert!(log_timestamp(i64::MAX, 0).is_none());
}

#[test]
fn json_bodies_are_logged_as_json() {
    let body = br#"{"model":"gpt-4o","stream":false}"#;
    match body_for_log(body) {
        LoggedBody::Json(v) => {
            assert_eq!(v["model"], serde_json::Value::String("gpt-4o".to_string()));
            assert_eq!(v["stream"], serde_json::Value::Bool(false));
        }
        LoggedBody::Text(_) => panic!("a JSON body must be logged as JSON"),
    }
}

#[test]
fn other_bodies_are_logged_as_text() {
    match body_for_log(b"plain text, not json") {
        LoggedBody::Text(t) => assert_eq!(t, "plain text, not json"),
        LoggedBody::Json(_) => panic!("text is not JSON"),
    }
    match body_for_log(b"") {
        LoggedBody::Text(t) => assert_eq!(t, ""),
        LoggedBody::Json(_) => panic!("an empty body is not JSON"),
    }
}

#[test]
fn invalid_utf8_is_logged_with_replacement_characters() {
    match body_for_log(&[b'o', b'k', 0xff, b'!']) {
        LoggedBody::Text(t) => assert_eq!(t, "ok\u{fffd}!"),
        LoggedBody::Json(_) => panic!("invalid UTF-8 is not JSON"),
    }
}

#[test]
fn announced_cards_match_listed_cards() {
    let fields = (
        Some("abc"),
        Some("2026-01-02T03:04:05.678+00:00"),
        Some("POST"),
        Some(70_000u64),
        Some(9u64),
    );
    let announced = new_tx_card(fields.0, fields.1, fields.2, fields.3, fields.4);
    let listed = tx_card(&TransactionSummary::from_log_fields(
        fields.0, fields.1, fields.2, fields.3, fields.4,
    ));
    assert_eq!(announced.id, listed.id);
    assert_eq!(announced.time, listed.time);
    assert_eq!(announced.method, listed.method);
    assert_eq!(announced.status_text, listed.status_text);
    assert_eq!(announced.status_class, listed.status_class);
    assert_eq!(announced.latency_text, listed.latency_text);
    assert_eq!(announced.response_url, listed.response_url);
    assert_eq!(announced.request_url, listed.request_url);
    assert_eq!(announced.time, "2026-01-02 03:04:05");
    assert_eq!(announced.status_text, "4464");
    assert_eq!(announced.latency_text, "9 ms");

    let empty = new_tx_card(None, None, None, None, None);
    assert_eq!(empty.id, "");
    assert_eq!(empty.method, "?");
    assert_eq!(empty.status_text, "?");
}
