use webhook::display::{
    extract_path, format_method, get_body_preview, print_full_request_body, print_request_details,
    print_request_headers, print_request_summary, BodyFormat, classify_body,
};
use webhook::clock::format_date;
use webhook::form::format_form_data;
use webhook::model::{Header, MessageObject, WebhookRequest};
use webhook::output::{Piece, Tone};

fn request(id: &str, method: &str, body: Option<&str>) -> WebhookRequest {
    WebhookRequest {
        id: id.to_string(),
        date: "yesterday".to_string(),
        token_id: "tok123".to_string(),
        message_object: MessageObject {
            method: method.to_string(),
            value: "https://hooks.example/tok123/orders?x=1".to_string(),
            headers: vec![
                Header {
                    name: "Accept".to_string(),
                    values: vec!["a/b".to_string(), "c/d".to_string()],
                },
                Header { name: "X-Id".to_string(), values: vec!["7".to_string()] },
            ],
            query_parameters: vec!["x=1".to_string()],
            body: body.map(|b| b.to_string()),
        },
    }
}

fn text(pieces: &[Piece]) -> String {
    pieces.iter().map(|p| p.text.as_str()).collect()
}

fn paths(ps: &[&str]) -> Vec<String> {
    ps.iter().map(|p| p.to_string()).collect()
}

#[test]
fn extract_path_token_at_end_is_root() {
    assert_eq!(extract_path("https://hooks.example/tok123", "tok123"), "/");
}

#[test]
fn extract_path_keeps_rest_after_token() {
    assert_eq!(extract_path("https://hooks.example/tok123/orders?x=1", "tok123"), "/orders?x=1");
}

#[test]
fn extract_path_without_token_is_unchanged() {
    assert_eq!(extract_path("/somewhere/else", "tok123"), "/somewhere/else");
}

#[test]
fn extract_path_uses_first_occurrence() {
    assert_eq!(extract_path("/abc/abc", "abc"), "/abc");
}

#[test]
fn extract_path_empty_token() {
    assert_eq!(extract_path("/x", ""), "/x");
    assert_eq!(extract_path("", ""), "/");
}

#[test]
fn preview_absent_and_blank_bodies() {
    assert_eq!(get_body_preview(&None, 10), "[BODY] (empty)");
    assert_eq!(get_body_preview(&Some("  \n\t ".to_string()), 10), "[BODY] (empty)");
    assert_eq!(get_body_preview(&Some(String::new()), 10), "[BODY] (empty)");
}

#[test]
fn preview_trims_and_keeps_short_bodies() {
    assert_eq!(get_body_preview(&Some("  hello  ".to_string()), 5), "[BODY] hello");
    assert_eq!(get_body_preview(&Some("hello".to_string()), 80), "[BODY] hello");
}

#[test]
fn preview_cuts_on_characters_not_bytes() {
    assert_eq!(get_body_preview(&Some("héllo wörld".to_string()), 4), "[BODY] héll…");
    assert_eq!(get_body_preview(&Some("ééé".to_string()), 2), "[BODY] éé…");
    assert_eq!(get_body_preview(&Some("日本語テキスト".to_string()), 3), "[BODY] 日本語…");
    assert_eq!(get_body_preview(&Some("abc".to_string()), 0), "[BODY] …");
}

#[test]
fn method_tones_ignore_case() {
    assert_eq!(format_method("GET").tone, Tone::Get);
    assert_eq!(format_method("get").tone, Tone::Get);
    assert_eq!(format_method("Get").text, "Get");
    assert_eq!(format_method("post").tone, Tone::Post);
    assert_eq!(format_method("PUT").tone, Tone::Put);
    assert_eq!(format_method("delete").tone, Tone::Delete);
    assert_eq!(format_method("Patch").tone, Tone::Patch);
    assert_eq!(format_method("OPTIONS").tone, Tone::OtherMethod);
}

#[test]
fn form_data_two_pairs() {
    assert_eq!(format_form_data("a=1&b=2"), "a: 1\nb: 2");
}

#[test]
fn form_data_percent_decodes_keys_and_values() {
    assert_eq!(format_form_data("na%20me=J%C3%BCrgen&x=a+b"), "na me: Jürgen\nx: a+b");
}

#[test]
fn form_data_pairs_without_equals_kept() {
    assert_eq!(format_form_data("flag&a=1"), "flag\na: 1");
    assert_eq!(format_form_data("k=v=w"), "k: v=w");
}

#[test]
fn form_data_undecodable_component_kept() {
    assert_eq!(format_form_data("%FF=1&b=2"), "%FF: 1\nb: 2");
}

#[test]
fn classify_body_order() {
    assert_eq!(classify_body(&None, false), BodyFormat::Absent);
    assert_eq!(classify_body(&Some("  ".to_string()), true), BodyFormat::Blank);
    assert_eq!(classify_body(&Some("{}".to_string()), true), BodyFormat::Json);
    assert_eq!(classify_body(&Some("a=1&b=2".to_string()), false), BodyFormat::Form);
    assert_eq!(classify_body(&Some("a&b".to_string()), false), BodyFormat::Raw);
    assert_eq!(classify_body(&Some("a=1".to_string()), false), BodyFormat::Raw);
    assert_eq!(
        classify_body(&Some("application/x-www-form-urlencoded".to_string()), false),
        BodyFormat::Form
    );
}

#[test]
fn body_json_is_pretty_printed() {
    let r = request("1", "POST", Some("{\"a\":1}"));
    let out = print_full_request_body(&r, &vec![], false);
    assert_eq!(out[0].text, "REQUEST BODY");
    assert_eq!(out[0].tone, Tone::Heading);
    let json: Vec<&Piece> = out.iter().filter(|p| p.tone == Tone::Json).collect();
    assert_eq!(json.len(), 1);
    assert_eq!(json[0].text, "{\n  \"a\": 1\n}");
}

#[test]
fn body_form_renders_one_line_per_pair() {
    let r = request("1", "POST", Some("a=1&b=2"));
    let out = print_full_request_body(&r, &vec![], false);
    let t = text(&out);
    assert!(t.ends_with("a: 1\nb: 2\n"));
    assert!(t.starts_with("REQUEST BODY\n"));
}

#[test]
fn body_raw_is_verbatim() {
    let r = request("1", "POST", Some("not json, not form"));
    let out = print_full_request_body(&r, &vec![], false);
    let last = &out[out.len() - 2];
    assert_eq!(last.text, "not json, not form");
    assert_eq!(last.tone, Tone::Bright);
}

#[test]
fn body_empty_marker_regardless_of_paths() {
    let r = request("1", "POST", Some(""));
    let plain = text(&print_full_request_body(&r, &vec![], false));
    assert!(plain.starts_with("REQUEST BODY\n"));
    assert!(plain.ends_with("(empty)\n"));
    let parsed = text(&print_full_request_body(&r, &paths(&["/a"]), false));
    assert_eq!(parsed, "PARSED JSON FIELDS\n(empty body)\n");
}

#[test]
fn body_absent_marker() {
    let r = request("1", "GET", None);
    assert!(text(&print_full_request_body(&r, &vec![], false)).ends_with("(no body)\n"));
    assert_eq!(
        text(&print_full_request_body(&r, &paths(&["/a"]), true)),
        "PARSED JSON FIELDS\n(no body)\n"
    );
}

#[test]
fn json_pointer_found_and_missing() {
    let r = request("1", "POST", Some("{\"user\":{\"id\":42}}"));
    let out = print_full_request_body(&r, &paths(&["/user/id", "/missing", "/user"]), false);
    let t = text(&out);
    assert_eq!(
        t,
        "PARSED JSON FIELDS\n/user/id:\n42\n/missing: null (path not found)\n/user:\n{\n  \"id\": 42\n}\n"
    );
    assert!(out.iter().any(|p| p.tone == Tone::Alert && p.text == "null"));
}

#[test]
fn json_pointer_with_full_body_appends_document() {
    let r = request("1", "POST", Some("{\"a\":[1,2]}"));
    let t = text(&print_full_request_body(&r, &paths(&["/a/1"]), true));
    assert!(t.starts_with("PARSED JSON FIELDS\n/a/1:\n2\nREQUEST BODY\n"));
    assert!(t.ends_with("{\n  \"a\": [\n    1,\n    2\n  ]\n}\n"));
}

#[test]
fn json_pointer_on_non_json_body() {
    let r = request("1", "POST", Some("plain words"));
    let t = text(&print_full_request_body(&r, &paths(&["/a"]), false));
    assert_eq!(t, "Body is not valid JSON, cannot parse paths\nplain words\n");
}

#[test]
fn date_in_utc_and_unparsable_date() {
    let shown = format_date("2024-01-02T03:04:05+02:00");
    assert!(shown.ends_with(" (01:04:05 UTC)"));
    assert_eq!(shown.len(), "HH:MM:SS (HH:MM:SS UTC)".len());
    assert_eq!(format_date("yesterday"), "yesterday");
    assert!(format_date("1969-12-31T23:59:59Z").ends_with("(23:59:59 UTC)"));
}

#[test]
fn summary_line_with_preview() {
    let r = request("id1", "GET", Some("  hello world "));
    assert_eq!(
        text(&print_request_summary(&r, true, 5)),
        "yesterday GET /orders?x=1 (id1) [BODY] hello…\n"
    );
    assert_eq!(text(&print_request_summary(&r, false, 5)), "yesterday GET /orders?x=1 (id1)\n");
}

#[test]
fn headers_block_groups_values() {
    let r = request("id1", "GET", None);
    assert_eq!(
        text(&print_request_headers(&r)),
        "HEADERS\n  Accept: a/b\n  Accept: c/d\n  X-Id: 7\n"
    );
    let mut bare = request("id2", "GET", None);
    bare.message_object.headers.clear();
    assert!(print_request_headers(&bare).is_empty());
}

#[test]
fn details_view_has_all_sections() {
    let r = request("id1", "PUT", Some("a=1&b=2"));
    let t = text(&print_request_details(&r, &vec![], false));
    assert!(t.starts_with("REQUEST DETAILS\n"));
    assert!(t.contains("ID: id1\nToken: tok123\nDate: yesterday\nMethod: PUT\n"));
    assert!(t.contains("Path: https://hooks.example/tok123/orders?x=1\n"));
    assert!(t.contains("HEADERS\n"));
    assert!(t.contains("Accept: a/b\nAccept: c/d\nX-Id: 7\n"));
    assert!(t.contains("QUERY PARAMETERS\n"));
    assert!(t.contains("x=1\n"));
    assert!(t.ends_with("a: 1\nb: 2\n"));
}
