//! The captured-request model and the rendering options.

use vstd::prelude::*;

verus! {

/// One header name with its values, in the order received.
#[derive(Debug)]
pub struct Header {
    pub name: String,
    pub values: Vec<String>,
}

/// The HTTP message of a captured request.
#[derive(Debug)]
pub struct MessageObject {
    /// HTTP method, case preserved.
    pub method: String,
    /// The full captured URI; it embeds the token as a path segment.
    pub value: String,
    pub headers: Vec<Header>,
    /// Raw query strings, in order.
    pub query_parameters: Vec<String>,
    /// `None` when no body was sent; `Some("")` when an empty one was.
    pub body: Option<String>,
}

/// One captured HTTP request.
#[derive(Debug)]
pub struct WebhookRequest {
    pub id: String,
    /// ISO-8601 timestamp.
    pub date: String,
    pub token_id: String,
    pub message_object: MessageObject,
}

/// How records are rendered; read-only during a render.
#[derive(Debug)]
pub struct RenderOptions {
    pub show_headers: bool,
    pub full_body: bool,
    pub body_preview_length: usize,
    /// JSON pointers to pick out of JSON bodies, in order.
    pub parse_paths: Vec<String>,
}

/// The characters of an optional text.
pub open spec fn opt_view(o: Option<String>) -> Option<Seq<char>> {
    match o {
        Some(s) => Some(s@),
        None => None,
    }
}

} // verus!
