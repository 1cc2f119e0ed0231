//! What the fetch of a channel's records asks for, and how its answer is
//! read.

use vstd::prelude::*;
use crate::config::{joined_url, str_texts, Config};
use crate::text::{append, chars_of, decimal, decimal_text, owned, trim_bounds, trimmed};

verus! {

/// The reason phrase `http` registers for a status code, if any.
pub uninterp spec fn reason_of(code: u16) -> Option<Seq<char>>;

/// Relies on reqwest's `StatusCode::from_u16` and
/// `StatusCode::canonical_reason`: the registered reason phrase of a code,
/// and none for a code outside 100 to 999.
#[verifier::external_body]
fn reason_phrase(code: u16) -> (r: Option<String>)
    ensures
        r is Some <==> reason_of(code) is Some,
        r matches Some(p) ==> reason_of(code) == Some(p@),
        code < 100 || code > 999 ==> r is None,
{
    match reqwest::StatusCode::from_u16(code) {
        Ok(s) => match s.canonical_reason() {
            Some(p) => Some(p.to_string()),
            None => None,
        },
        Err(_) => None,
    }
}

/// How a fetch answer is read.
#[derive(Clone, Copy, Debug, PartialEq, Eq, Structural)]
pub enum ResponseKind {
    /// A success status with a body: the body holds the records.
    Records,
    /// Not found, or a success with a blank body: zero records.
    NoRecords,
    /// Any other status: the fetch failed.
    Failure,
}

/// How the answer with status `code` and body `body` is read: a success
/// with a blank body, like not found, is zero records.
pub open spec fn response_kind(code: u16, body: Seq<char>) -> ResponseKind {
    if 200 <= code < 300 {
        if trimmed(body).len() == 0 {
            ResponseKind::NoRecords
        } else {
            ResponseKind::Records
        }
    } else if code == 404 {
        ResponseKind::NoRecords
    } else {
        ResponseKind::Failure
    }
}

/// Why a fetch brought no records.
#[derive(Debug)]
pub enum FetchError {
    /// The request could not be sent or answered.
    Transport { url: String, detail: String },
    /// The service answered with a failure status.
    Status { code: u16, reason: String, body: String },
    /// The answer was not a valid list of records; `raw` is what came.
    Decode { raw: String, detail: String },
}

/// The message shown for a fetch error.
pub open spec fn fetch_error_text(e: FetchError) -> Seq<char> {
    match e {
        FetchError::Transport { url, detail } => "Failed to fetch requests from "@ + url@ + ": "@
            + detail@,
        FetchError::Status { code, reason, body } => "HTTP "@ + decimal_text(code as nat) + " "@
            + reason@ + ": "@ + body@,
        FetchError::Decode { raw, detail } => "Failed to parse response as JSON. Response body: "@
            + raw@ + ": "@ + detail@,
    }
}

impl FetchError {
    /// The message shown for this error.
    pub fn message(&self) -> (r: String)
        ensures
            r@ == fetch_error_text(*self),
    {
        match self {
            FetchError::Transport { url, detail } => {
                let mut r = owned("Failed to fetch requests from ");
                append(&mut r, url.as_str());
                append(&mut r, ": ");
                append(&mut r, detail.as_str());
                r
            },
            FetchError::Status { code, reason, body } => {
                let mut r = owned("HTTP ");
                let c = decimal(*code as u64);
                append(&mut r, c.as_str());
                append(&mut r, " ");
                append(&mut r, reason.as_str());
                append(&mut r, ": ");
                append(&mut r, body.as_str());
                r
            },
            FetchError::Decode { raw, detail } => {
                let mut r = owned("Failed to parse response as JSON. Response body: ");
                append(&mut r, raw.as_str());
                append(&mut r, ": ");
                append(&mut r, detail.as_str());
                r
            },
        }
    }
}

/// How the answer with status `code` and body `body` is read.
pub fn classify_response(code: u16, body: &str) -> (r: ResponseKind)
    ensures
        r == response_kind(code, body@),
{
    if 200 <= code && code < 300 {
        let v = chars_of(body);
        let (lo, hi) = trim_bounds(&v);
        if lo == hi {
            ResponseKind::NoRecords
        } else {
            ResponseKind::Records
        }
    } else if code == 404 {
        ResponseKind::NoRecords
    } else {
        ResponseKind::Failure
    }
}

/// The error for a failure status, carrying the answer's body; the reason is
/// the registered phrase, or `Unknown`.
pub fn status_error(code: u16, body: String) -> (r: FetchError)
    ensures
        r matches FetchError::Status { code: c, reason, body: b } && c == code && b@ == body@ && (
        reason_of(code) matches Some(p) ==> reason@ == p) && (reason_of(code) is None ==> reason@
            == "Unknown"@),
{
    let reason = match reason_phrase(code) {
        Some(p) => p,
        None => owned("Unknown"),
    };
    FetchError::Status { code, reason, body }
}

/// The URL that lists the latest `count` records of channel `token`.
pub fn requests_url(config: &Config, token: &str, count: u32) -> (r: String)
    ensures
        r@ == joined_url(
            config.webhook.base_url@,
            seq![token@, "log"@, decimal_text(count as nat)],
        ),
{
    let n = decimal(count as u64);
    let segments: [&str; 3] = [token, "log", n.as_str()];
    let r = Config::join_url_segments(config.get_base_url(), &segments);
    assert(str_texts(segments@) =~= seq![token@, "log"@, decimal_text(count as nat)]);
    r
}

} // verus!
