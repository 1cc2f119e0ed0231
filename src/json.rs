//! JSON documents, through `serde_json`.

use vstd::prelude::*;

verus! {

/// serde_json's `Value`, a parsed JSON document; opaque here.
#[verifier::external_type_specification]
#[verifier::external_body]
pub struct ExValue(serde_json::Value);

/// Whether `serde_json::from_str` accepts a text as one JSON document.
pub uninterp spec fn json_accepts(s: Seq<char>) -> bool;

/// The pretty text (`serde_json::to_string_pretty`) of the document that
/// `serde_json::from_str` parses from `doc`.
pub uninterp spec fn pretty_text_of(doc: Seq<char>) -> Seq<char>;

/// The pretty text of what `Value::pointer(ptr)` finds in the document
/// parsed from `doc`, or `None` when it finds nothing.
pub uninterp spec fn pointer_text_of(doc: Seq<char>, ptr: Seq<char>) -> Option<Seq<char>>;

/// A parsed JSON document together with the text it was parsed from.
pub struct JsonDoc {
    value: serde_json::Value,
    source: Ghost<Seq<char>>,
}

impl JsonDoc {
    /// The text the document was parsed from.
    pub closed spec fn source(&self) -> Seq<char> {
        self.source@
    }
}

/// Relies on `serde_json::from_str::<Value>`: it succeeds exactly on the
/// texts it accepts as JSON.
#[verifier::external_body]
fn parse_value(s: &str) -> (r: Option<serde_json::Value>)
    ensures
        r is Some <==> json_accepts(s@),
{
    serde_json::from_str::<serde_json::Value>(s).ok()
}

/// The document `s` holds, when it is JSON.
pub fn parse_json(s: &str) -> (r: Option<JsonDoc>)
    ensures
        r is Some <==> json_accepts(s@),
        r matches Some(d) ==> d.source() == s@,
{
    match parse_value(s) {
        Some(value) => Some(JsonDoc { value, source: Ghost(s@) }),
        None => None,
    }
}

/// Relies on `serde_json::to_string_pretty`: the indented text of the
/// document. A `Value` has string keys only, so the call does not fail.
#[verifier::external_body]
pub(crate) fn pretty_json(doc: &JsonDoc) -> (r: String)
    ensures
        r@ == pretty_text_of(doc.source()),
{
    match serde_json::to_string_pretty(&doc.value) {
        Ok(s) => s,
        Err(_) => String::new(),
    }
}

/// Relies on `serde_json::Value::pointer` and `serde_json::to_string_pretty`:
/// the pretty text of the value the pointer names. The empty pointer names
/// the whole document, and a non-empty pointer that does not start with `/`
/// names nothing.
#[verifier::external_body]
pub(crate) fn pointer_json(doc: &JsonDoc, ptr: &str) -> (r: Option<String>)
    ensures
        r is Some <==> pointer_text_of(doc.source(), ptr@) is Some,
        r matches Some(t) ==> pointer_text_of(doc.source(), ptr@) == Some(t@),
        ptr@.len() == 0 ==> r is Some,
        ptr@.len() > 0 && ptr@[0] != '/' ==> r is None,
{
    match doc.value.pointer(ptr) {
        Some(v) => match serde_json::to_string_pretty(v) {
            Ok(s) => Some(s),
            Err(_) => Some(String::new()),
        },
        None => None,
    }
}

} // verus!
