use webhook::client::{classify_response, requests_url, status_error, FetchError, ResponseKind};
use webhook::color_control::{init, is_color_enabled, ColorState};
use webhook::commands::{
    find_record, generate_token, monitor_banner, poll_once, show_logs, show_request_details,
    token_report, DetailError, DETAIL_WINDOW,
};
use webhook::config::{Config, WebhookConfig};
use webhook::filter::{filter_requests, method_matches};
use webhook::model::{MessageObject, RenderOptions, WebhookRequest};
use webhook::monitor::MonitorState;
use webhook::output::Piece;
use webhook::text::decimal;

fn request(id: &str, method: &str) -> WebhookRequest {
    WebhookRequest {
        id: id.to_string(),
        date: "2024-05-06T07:08:09Z".to_string(),
        token_id: "tok".to_string(),
        message_object: MessageObject {
            method: method.to_string(),
            value: "/tok/path".to_string(),
            headers: vec![],
            query_parameters: vec![],
            body: Some(format!("body of {}", id)),
        },
    }
}

fn ids(reqs: &[WebhookRequest]) -> Vec<String> {
    reqs.iter().map(|r| r.id.clone()).collect()
}

fn text(pieces: &[Piece]) -> String {
    pieces.iter().map(|p| p.text.as_str()).collect()
}

fn options() -> RenderOptions {
    RenderOptions { show_headers: false, full_body: false, body_preview_length: 20, parse_paths: vec![] }
}

fn config(base: &str) -> Config {
    Config {
        webhook: WebhookConfig {
            base_url: base.to_string(),
            default_count: 10,
            default_interval: 3,
            show_headers_by_default: false,
            show_full_body_by_default: false,
            body_preview_length: 80,
        },
    }
}

#[test]
fn filter_none_matches_every_method() {
    for m in ["GET", "post", "WeIrD", ""] {
        assert!(method_matches(&request("1", m), None));
    }
}

#[test]
fn filter_ignores_case() {
    for m in ["GET", "Get", "get"] {
        assert!(method_matches(&request("1", m), Some("get")));
        assert!(method_matches(&request("1", m), Some("GET")));
    }
    assert!(!method_matches(&request("1", "POST"), Some("get")));
    assert!(!method_matches(&request("1", "GETX"), Some("get")));
}

#[test]
fn filter_keeps_fetch_order() {
    let reqs = vec![request("a", "GET"), request("b", "POST"), request("c", "get")];
    assert_eq!(filter_requests(&reqs, Some("Get")), vec![0, 2]);
    assert_eq!(filter_requests(&reqs, None), vec![0, 1, 2]);
}

#[test]
fn tracker_baseline_then_only_new() {
    let mut s = MonitorState::new();
    assert!(s.is_first_run());
    let first = vec!["a".to_string(), "b".to_string()];
    assert_eq!(s.classify(&first), vec![0, 1]);
    assert!(!s.is_first_run());
    let second = vec!["c".to_string(), "a".to_string(), "b".to_string()];
    assert_eq!(s.classify(&second), vec![0]);
    assert_eq!(s.classify(&vec!["c".to_string()]), Vec::<usize>::new());
    let dup = vec!["d".to_string(), "d".to_string()];
    assert_eq!(s.classify(&dup), vec![0]);
    assert!(s.has_seen(&"d".to_string()));
    assert!(!s.has_seen(&"e".to_string()));
}

#[test]
fn poll_baseline_is_not_marked_new() {
    let mut s = MonitorState::new();
    let batch = vec![request("a", "GET"), request("b", "POST")];
    let out = text(&poll_once(&mut s, &Ok(batch), None, &options()));
    assert!(out.starts_with("Found 2 recent requests:\n"));
    assert!(!out.contains("NEW REQUEST"));
    assert!(out.contains("(a) [BODY] body of a"));
}

#[test]
fn poll_marks_each_new_record_once() {
    let mut s = MonitorState::new();
    poll_once(&mut s, &Ok(vec![request("a", "GET")]), None, &options());
    let out = text(&poll_once(
        &mut s,
        &Ok(vec![request("b", "GET"), request("a", "GET")]),
        None,
        &options(),
    ));
    assert_eq!(out.matches("NEW REQUEST").count(), 1);
    assert!(out.contains("(b)\n[BODY] body of b\n"));
    assert!(!out.contains("(a)"));
    let again = poll_once(&mut s, &Ok(vec![request("b", "GET"), request("a", "GET")]), None, &options());
    assert!(again.is_empty());
}

#[test]
fn poll_empty_baseline_waits() {
    let mut s = MonitorState::new();
    let out = text(&poll_once(&mut s, &Ok(vec![request("a", "POST")]), Some("get"), &options()));
    assert_eq!(out, "No requests yet. Waiting for incoming webhooks...\n");
    assert!(!s.is_first_run());
}

#[test]
fn poll_failure_changes_nothing() {
    let mut s = MonitorState::new();
    let err = status_error(500, "boom".to_string());
    let out = text(&poll_once(&mut s, &Err(err), None, &options()));
    assert_eq!(out, "Error: HTTP 500 Internal Server Error: boom\n");
    assert!(s.is_first_run());
    let out = text(&poll_once(&mut s, &Ok(vec![request("a", "GET")]), None, &options()));
    assert!(out.starts_with("Found 1 recent requests:"));
}

#[test]
fn poll_with_full_body_renders_body_section() {
    let mut s = MonitorState::new();
    poll_once(&mut s, &Ok(vec![]), None, &options());
    let mut o = options();
    o.full_body = true;
    o.show_headers = true;
    let out = text(&poll_once(&mut s, &Ok(vec![request("z", "GET")]), None, &o));
    assert!(out.starts_with("NEW REQUEST\n"));
    assert!(out.contains("REQUEST BODY\n"));
    assert!(out.contains("body of z\n"));
    assert!(!out.contains("[BODY]"));
}

#[test]
fn logs_listing_with_filter() {
    let reqs = vec![request("a", "GET"), request("b", "POST")];
    let out = text(&show_logs(&reqs, "tok", Some("get"), &options()));
    assert!(out.starts_with("Found 1 requests for token tok\nFiltered by method: GET\n"));
    assert!(out.contains("(a)"));
    assert!(!out.contains("(b)"));
    assert!(out.ends_with("Use 'webhook show --token <token> --request-id <id>' for full details\n"));
}

#[test]
fn logs_listing_empty() {
    let out = text(&show_logs(&vec![], "tok", None, &options()));
    assert_eq!(out, "No requests found.\n");
}

#[test]
fn detail_absent_id_is_record_not_found() {
    let reqs = vec![request("a", "GET")];
    match show_request_details(&reqs, "zzz", &vec![]) {
        Err(DetailError::RecordNotFound { id }) => assert_eq!(id, "zzz"),
        Ok(_) => panic!("expected RecordNotFound"),
    }
    let e = DetailError::RecordNotFound { id: "zzz".to_string() };
    assert_eq!(e.message(), "Request with ID zzz not found");
    assert_eq!(DETAIL_WINDOW, 100);
}

#[test]
fn detail_present_id_renders_that_record() {
    let mut reqs = vec![request("a", "GET"), request("b", "DELETE")];
    reqs[1].message_object.query_parameters = vec!["q=1".to_string()];
    let out = text(&show_request_details(&reqs, "b", &vec![]).unwrap());
    assert!(out.contains("ID: b\n"));
    assert!(out.contains("Method: DELETE\n"));
    assert!(out.contains("QUERY PARAMETERS\n"));
    assert!(out.contains("body of b\n"));
    assert!(!out.contains("ID: a\n"));
    assert_eq!(find_record(&reqs, "b"), Some(1));
    assert_eq!(find_record(&reqs, "c"), None);
}

#[test]
fn response_kinds() {
    assert_eq!(classify_response(200, "[]"), ResponseKind::Records);
    assert_eq!(classify_response(299, "[{}]"), ResponseKind::Records);
    assert_eq!(classify_response(200, ""), ResponseKind::NoRecords);
    assert_eq!(classify_response(204, "  \n"), ResponseKind::NoRecords);
    assert_eq!(classify_response(404, "nothing"), ResponseKind::NoRecords);
    assert_eq!(classify_response(302, ""), ResponseKind::Failure);
    assert_eq!(classify_response(500, "[]"), ResponseKind::Failure);
}

#[test]
fn error_messages() {
    assert_eq!(status_error(503, "down".to_string()).message(), "HTTP 503 Service Unavailable: down");
    assert_eq!(status_error(599, "x".to_string()).message(), "HTTP 599 Unknown: x");
    let t = FetchError::Transport { url: "http://h/x".to_string(), detail: "refused".to_string() };
    assert_eq!(t.message(), "Failed to fetch requests from http://h/x: refused");
    let d = FetchError::Decode { raw: "<html>".to_string(), detail: "bad".to_string() };
    assert_eq!(d.message(), "Failed to parse response as JSON. Response body: <html>: bad");
}

#[test]
fn request_url_joins_segments() {
    assert_eq!(requests_url(&config("https://svc.example/"), "tok", 50), "https://svc.example/tok/log/50");
}

#[test]
fn join_url_segments_single_slashes() {
    assert_eq!(Config::join_url_segments("https://a.b//", &["x", "", "y"]), "https://a.b/x/y");
    assert_eq!(Config::join_url_segments("https://a.b", &[]), "https://a.b");
}

#[test]
fn config_defaults_and_getters() {
    let c = Config::default();
    assert_eq!(c.get_base_url(), "https://your-webhook-service.com");
    assert_eq!(c.get_body_preview_length(), 80);
    assert_eq!(c.webhook.default_count, 10);
    assert_eq!(c.webhook.default_interval, 3);
    assert_eq!(config("u").get_base_url(), "u");
}

#[test]
fn color_first_choice_wins() {
    let mut s = ColorState::new();
    assert!(is_color_enabled(&s));
    assert!(init(&mut s, true));
    assert!(!is_color_enabled(&s));
    assert!(!init(&mut s, false));
    assert!(!is_color_enabled(&s));
    let mut t = ColorState::new();
    init(&mut t, false);
    assert!(is_color_enabled(&t));
}

#[test]
fn generated_token_and_url() {
    let r = generate_token(&config("https://svc.example/"));
    assert_eq!(r.token.len(), 36);
    assert_eq!(r.token.chars().nth(8), Some('-'));
    assert_eq!(r.url, format!("https://svc.example/{}", r.token));
    assert!(text(&r.lines).contains(&format!("  webhook logs --token {}\n", r.token)));
    let other = generate_token(&config("https://svc.example/"));
    assert_ne!(r.token, other.token);
}

#[test]
fn token_report_lines() {
    let r = token_report(&config("https://h"), "abc".to_string());
    assert_eq!(
        text(&r.lines),
        "New webhook token generated!\n\nToken: abc\nWebhook URL: https://h/abc\n\nUsage examples:\n  webhook monitor --token abc\n  webhook logs --token abc\n\n"
    );
}

#[test]
fn banner_names_filter_in_uppercase() {
    let t = text(&monitor_banner("tok", Some("post")));
    assert!(t.contains("Token: tok\nFilter: POST requests only\nPress Ctrl+C to quit\n"));
    assert!(!text(&monitor_banner("tok", None)).contains("Filter"));
}

#[test]
fn decimal_numbers() {
    assert_eq!(decimal(0), "0");
    assert_eq!(decimal(7), "7");
    assert_eq!(decimal(1234567890), "1234567890");
    assert_eq!(decimal(u64::MAX), "18446744073709551615");
}

#[test]
fn logs_filter_spellings_render_identically() {
    let reqs = vec![
        request("r1", "GET"),
        request("r2", "Get"),
        request("r3", "get"),
        request("r4", "POST"),
        request("r5", "GETX"),
    ];
    let lower = text(&show_logs(&reqs, "tok", Some("get"), &options()));
    assert!(lower.starts_with("Found 3 requests for token tok\n"));
    assert!(lower.contains("(r1)") && lower.contains("(r2)") && lower.contains("(r3)"));
    assert!(lower.find("(r1)") < lower.find("(r2)") && lower.find("(r2)") < lower.find("(r3)"));
    assert!(!lower.contains("(r4)") && !lower.contains("(r5)"));
    assert_eq!(lower, text(&show_logs(&reqs, "tok", Some("GET"), &options())));
    assert_eq!(lower, text(&show_logs(&reqs, "tok", Some("Get"), &options())));
}

#[test]
fn generated_token_shape() {
    let r = generate_token(&config("https://svc.example"));
    for (i, c) in r.token.chars().enumerate() {
        if i == 8 || i == 13 || i == 18 || i == 23 {
            assert_eq!(c, '-');
        } else if i == 14 {
            assert_eq!(c, '4');
        } else {
            assert!(c.is_ascii_digit() || ('a'..='f').contains(&c));
        }
    }
}
