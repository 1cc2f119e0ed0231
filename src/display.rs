//! Rendering of captured requests: summary lines, headers, bodies and the
//! detail view.

use vstd::prelude::*;
use crate::clock::date_shown;
use crate::form::form_text;
use crate::json::{
    json_accepts, parse_json, pointer_json, pointer_text_of, pretty_json, pretty_text_of, JsonDoc,
};
use crate::model::{opt_view, Header, WebhookRequest};
use crate::output::{
    emit, emit_all, emit_line, emit_rule, emit_rule_of, emit_string, line1, newline, nl, pc, rule,
    rule_of, shown, Piece, Tone,
};
use crate::text::{
    append, begins_with, chars_of, contains_char, find, first_match, lemma_first_match_from,
    lemma_first_match_is, lemma_no_match, occurs_at, owned, push_char, starts_with, string_of,
    text_eq, texts, trim_bounds, trimmed, upper_of, uppercase,
};

pub use crate::clock::format_date;
pub use crate::form::format_form_data;

verus! {

/// The part of `full` after the first occurrence of `token`; `/` when
/// nothing follows it; `full` itself when `token` does not occur.
pub open spec fn path_after(full: Seq<char>, token: Seq<char>) -> Seq<char> {
    match first_match(full, token) {
        Some(i) => {
            let rest = full.subrange(i + token.len(), full.len() as int);
            if rest.len() == 0 {
                seq!['/']
            } else {
                rest
            }
        },
        None => full,
    }
}

/// The one-line body preview: the first `n` characters of the trimmed body,
/// with `…` when more follow, or the empty-body marker.
pub open spec fn preview_text(body: Option<Seq<char>>, n: nat) -> Seq<char> {
    match body {
        Some(b) => if trimmed(b).len() > n {
            "[BODY] "@ + trimmed(b).take(n as int) + seq!['…']
        } else if trimmed(b).len() > 0 {
            "[BODY] "@ + trimmed(b)
        } else {
            "[BODY] (empty)"@
        },
        None => "[BODY] (empty)"@,
    }
}

/// The tone of a method, given its uppercase form.
pub open spec fn method_tone(upper: Seq<char>) -> Tone {
    if upper == "GET"@ {
        Tone::Get
    } else if upper == "POST"@ {
        Tone::Post
    } else if upper == "PUT"@ {
        Tone::Put
    } else if upper == "DELETE"@ {
        Tone::Delete
    } else if upper == "PATCH"@ {
        Tone::Patch
    } else {
        Tone::OtherMethod
    }
}

/// A token that ends the path, and stands nowhere before, leaves the root
/// path `/`.
pub proof fn lemma_token_at_end_gives_root(prefix: Seq<char>, token: Seq<char>)
    requires
        forall|j: int| 0 <= j < prefix.len() ==> !occurs_at(prefix + token, token, j),
    ensures
        path_after(prefix + token, token) == seq!['/'],
{
    let full = prefix + token;
    assert(full.subrange(prefix.len() as int, full.len() as int) =~= token);
    lemma_first_match_is(full, token, 0, prefix.len() as int);
    assert(full.subrange((prefix.len() + token.len()) as int, full.len() as int) =~= Seq::<char>::empty());
}

/// A path in which the token does not occur is returned unchanged.
pub proof fn lemma_path_without_token(full: Seq<char>, token: Seq<char>)
    requires
        forall|j: int| !occurs_at(full, token, j),
    ensures
        path_after(full, token) == full,
{
    lemma_no_match(full, token, 0);
}

/// The preview of `body` shows exactly `kept`: a prefix of the trimmed body
/// of at most `n` characters, followed by `…` exactly when characters were
/// cut.
pub open spec fn preview_keeps(body: Seq<char>, n: nat, kept: Seq<char>) -> bool {
    let t = trimmed(body);
    &&& kept.len() <= n
    &&& kept.len() <= t.len()
    &&& kept == t.take(kept.len() as int)
    &&& preview_text(Some(body), n) == "[BODY] "@ + kept + if kept.len() < t.len() {
        seq!['…']
    } else {
        Seq::empty()
    }
}

/// The preview of a non-blank body keeps a prefix of whole characters of the
/// trimmed body, never more than `n` of them, before the `…` marker.
pub proof fn lemma_preview_bounded(body: Seq<char>, n: nat)
    requires
        trimmed(body).len() > 0,
    ensures
        exists|kept: Seq<char>| preview_keeps(body, n, kept),
{
    let t = trimmed(body);
    if t.len() > n {
        let kept = t.take(n as int);
        assert(kept == t.take(kept.len() as int));
        assert(preview_keeps(body, n, kept));
    } else {
        let kept = t;
        assert(kept =~= t.take(kept.len() as int));
        assert(preview_text(Some(body), n) =~= "[BODY] "@ + kept + Seq::<char>::empty());
        assert(preview_keeps(body, n, kept));
    }
}

/// The request path relative to the capture token.
pub fn extract_path(full_path: &str, token: &str) -> (r: String)
    ensures
        r@ == path_after(full_path@, token@),
{
    let f = chars_of(full_path);
    let t = chars_of(token);
    match find(&f, &t) {
        Some(i) => {
            proof {
                lemma_first_match_from(f@, t@, 0);
                assert(occurs_at(f@, t@, i as int));
            }
            assert(i + t.len() <= f.len());
            let start = i + t.len();
            if start == f.len() {
                let mut r = String::new();
                push_char(&mut r, '/');
                assert(r@ =~= seq!['/']);
                r
            } else {
                string_of(&f, start, f.len())
            }
        },
        None => owned(full_path),
    }
}

/// A one-line preview of a body, cut at `max_length` characters.
pub fn get_body_preview(body: &Option<String>, max_length: usize) -> (r: String)
    ensures
        r@ == preview_text(crate::model::opt_view(*body), max_length as nat),
{
    match body {
        Some(b) => {
            let v = chars_of(b.as_str());
            let (lo, hi) = trim_bounds(&v);
            if lo == hi {
                return owned("[BODY] (empty)");
            }
            let ghost t = trimmed(v@);
            let mut r = owned("[BODY] ");
            let cut = if hi - lo > max_length {
                lo + max_length
            } else {
                hi
            };
            let part = string_of(&v, lo, cut);
            append(&mut r, part.as_str());
            if hi - lo > max_length {
                assert(part@ =~= t.take(max_length as int));
                push_char(&mut r, '…');
            } else {
                assert(part@ =~= t);
            }
            assert(r@ =~= preview_text(crate::model::opt_view(*body), max_length as nat));
            r
        },
        None => owned("[BODY] (empty)"),
    }
}

/// The tone of a method, given its uppercase form.
pub fn tone_of_method(upper: &str) -> (r: Tone)
    ensures
        r == method_tone(upper@),
{
    if text_eq(upper, "GET") {
        Tone::Get
    } else if text_eq(upper, "POST") {
        Tone::Post
    } else if text_eq(upper, "PUT") {
        Tone::Put
    } else if text_eq(upper, "DELETE") {
        Tone::Delete
    } else if text_eq(upper, "PATCH") {
        Tone::Patch
    } else {
        Tone::OtherMethod
    }
}

/// The method as shown: its own text, toned by its uppercase form.
pub fn format_method(method: &str) -> (r: Piece)
    ensures
        r@ == (method_tone(upper_of(method@)), method@),
{
    let upper = uppercase(method);
    Piece { tone: tone_of_method(upper.as_str()), text: owned(method) }
}


/// How a body is rendered, decided in this order.
#[derive(Clone, Copy, Debug, PartialEq, Eq, Structural)]
pub enum BodyFormat {
    /// No body was sent.
    Absent,
    /// The body is empty or whitespace only.
    Blank,
    /// The body is a JSON document.
    Json,
    /// The body looks like URL-encoded form data.
    Form,
    /// Anything else, shown verbatim.
    Raw,
}

/// The form content-type token a form body may begin with.
pub open spec fn form_token() -> Seq<char> {
    "application/x-www-form-urlencoded"@
}

/// A body that holds both `&` and `=`, or begins with the form token.
pub open spec fn form_shaped(b: Seq<char>) -> bool {
    (b.contains('&') && b.contains('=')) || starts_with(b, form_token())
}

/// The format of a body, given whether it parses as JSON.
pub open spec fn format_given(body: Option<Seq<char>>, json_ok: bool) -> BodyFormat {
    match body {
        None => BodyFormat::Absent,
        Some(b) => if trimmed(b).len() == 0 {
            BodyFormat::Blank
        } else if json_ok {
            BodyFormat::Json
        } else if form_shaped(b) {
            BodyFormat::Form
        } else {
            BodyFormat::Raw
        },
    }
}

/// The format of a body.
pub open spec fn body_format(body: Option<Seq<char>>) -> BodyFormat {
    match body {
        None => BodyFormat::Absent,
        Some(b) => format_given(body, json_accepts(b)),
    }
}

/// The heading of the body section and its rule.
pub open spec fn body_heading() -> Seq<(Tone, Seq<char>)> {
    line1(Tone::Heading, "REQUEST BODY"@) + rule(30)
}

/// The heading of the parsed-fields section.
pub open spec fn fields_heading() -> Seq<(Tone, Seq<char>)> {
    line1(Tone::Title, "PARSED JSON FIELDS"@)
}

/// One parsed field: the pointer and the value found there, or a marker.
pub open spec fn field_lines(path: Seq<char>, found: Option<Seq<char>>) -> Seq<(Tone, Seq<char>)> {
    match found {
        Some(t) => seq![pc(Tone::Key, path), pc(Tone::Plain, ":"@), nl(), pc(Tone::Json, t), nl()],
        None => seq![
            pc(Tone::Key, path),
            pc(Tone::Plain, ": "@),
            pc(Tone::Alert, "null"@),
            pc(Tone::Plain, " (path not found)"@),
            nl(),
        ],
    }
}

/// The parsed fields, one after another.
pub open spec fn fields_lines(paths: Seq<Seq<char>>, found: Seq<Option<Seq<char>>>) -> Seq<
    (Tone, Seq<char>),
>
    decreases paths.len(),
{
    if paths.len() == 0 || found.len() == 0 {
        Seq::empty()
    } else {
        fields_lines(paths.drop_last(), found.drop_last()) + field_lines(paths.last(), found.last())
    }
}

/// What serde_json finds at each pointer into the document `doc`.
pub open spec fn found_in(doc: Seq<char>, paths: Seq<Seq<char>>) -> Seq<Option<Seq<char>>> {
    paths.map_values(|p: Seq<char>| pointer_text_of(doc, p))
}

/// A JSON document block.
pub open spec fn json_block(doc: Seq<char>) -> Seq<(Tone, Seq<char>)> {
    seq![pc(Tone::Json, doc), nl()]
}

/// The rendered body. `found` holds the pretty text at each pointer and
/// `doc` that of the whole document; both matter for JSON bodies only.
pub open spec fn body_lines(
    body: Option<Seq<char>>,
    paths: Seq<Seq<char>>,
    full: bool,
    found: Seq<Option<Seq<char>>>,
    doc: Seq<char>,
) -> Seq<(Tone, Seq<char>)> {
    let parsed = paths.len() > 0;
    let b = body.unwrap();
    match body_format(body) {
        BodyFormat::Absent => if parsed {
            fields_heading() + line1(Tone::Muted, "(no body)"@)
        } else {
            body_heading() + line1(Tone::Muted, "(no body)"@)
        },
        BodyFormat::Blank => if parsed {
            fields_heading() + line1(Tone::Muted, "(empty body)"@)
        } else {
            body_heading() + line1(Tone::Muted, "(empty)"@)
        },
        BodyFormat::Json => if parsed {
            fields_heading() + fields_lines(paths, found) + if full {
                body_heading() + json_block(doc)
            } else {
                Seq::empty()
            }
        } else {
            body_heading() + json_block(doc)
        },
        BodyFormat::Form => if parsed {
            not_json_lines(b, full)
        } else {
            body_heading() + line1(Tone::Bright, form_text(b))
        },
        BodyFormat::Raw => if parsed {
            not_json_lines(b, full)
        } else {
            body_heading() + line1(Tone::Bright, b)
        },
    }
}

/// Fields were asked of a body that is not JSON.
pub open spec fn not_json_lines(b: Seq<char>, full: bool) -> Seq<(Tone, Seq<char>)> {
    line1(Tone::Alert, "Body is not valid JSON, cannot parse paths"@) + line1(Tone::Bright, b)
        + if full {
        body_heading() + line1(Tone::Bright, b)
    } else {
        Seq::empty()
    }
}

/// `out` is how the body is rendered: `body_lines`, with the pointer
/// lookups and the pretty document text that serde_json gives for the body.
pub open spec fn body_rendered(
    body: Option<Seq<char>>,
    paths: Seq<Seq<char>>,
    full: bool,
    out: Seq<(Tone, Seq<char>)>,
) -> bool {
    let b = body.unwrap();
    out == body_lines(body, paths, full, found_in(b, paths), pretty_text_of(b))
}

/// The optional texts, as characters.
pub open spec fn opt_texts(v: Seq<Option<String>>) -> Seq<Option<Seq<char>>> {
    v.map_values(|o: Option<String>| opt_view(o))
}

/// The format of a body, given whether it parses as JSON.
pub fn classify_body(body: &Option<String>, json_ok: bool) -> (r: BodyFormat)
    ensures
        r == format_given(opt_view(*body), json_ok),
{
    match body {
        None => BodyFormat::Absent,
        Some(b) => {
            let v = chars_of(b.as_str());
            let (lo, hi) = trim_bounds(&v);
            if lo == hi {
                BodyFormat::Blank
            } else if json_ok {
                BodyFormat::Json
            } else {
                let token = chars_of("application/x-www-form-urlencoded");
                if (contains_char(&v, '&') && contains_char(&v, '=')) || begins_with(&v, &token) {
                    BodyFormat::Form
                } else {
                    BodyFormat::Raw
                }
            }
        },
    }
}

/// The parsed-fields lines for `paths`, given what each pointer found.
pub fn render_parsed_fields(paths: &[String], found: &Vec<Option<String>>) -> (r: Vec<Piece>)
    requires
        found@.len() == paths@.len(),
    ensures
        shown(r@) == fields_lines(texts(paths@), opt_texts(found@)),
{
    let mut out: Vec<Piece> = Vec::new();
    let mut i: usize = 0;
    while i < paths.len()
        invariant
            i <= paths@.len() == found@.len(),
            shown(out@) == fields_lines(texts(paths@.take(i as int)), opt_texts(found@.take(i as int))),
        decreases paths@.len() - i,
    {
        let path = paths[i].as_str();
        match &found[i] {
            Some(t) => {
                emit(&mut out, Tone::Key, path);
                emit(&mut out, Tone::Plain, ":");
                newline(&mut out);
                emit(&mut out, Tone::Json, t.as_str());
                newline(&mut out);
            },
            None => {
                emit(&mut out, Tone::Key, path);
                emit(&mut out, Tone::Plain, ": ");
                emit(&mut out, Tone::Alert, "null");
                emit(&mut out, Tone::Plain, " (path not found)");
                newline(&mut out);
            },
        }
        proof {
            let ps = texts(paths@.take(i + 1));
            let fs = opt_texts(found@.take(i + 1));
            assert(ps.drop_last() =~= texts(paths@.take(i as int)));
            assert(fs.drop_last() =~= opt_texts(found@.take(i as int)));
            assert(ps.last() == paths@[i as int]@);
            assert(fs.last() == opt_view(found@[i as int]));
        }
        i = i + 1;
        assert(shown(out@) =~= fields_lines(texts(paths@.take(i as int)), opt_texts(found@.take(i as int))));
    }
    assert(paths@.take(i as int) =~= paths@);
    assert(found@.take(i as int) =~= found@);
    out
}

/// The pretty text at each pointer into `doc`, `None` where nothing is found.
pub fn resolve_paths(doc: &JsonDoc, paths: &[String]) -> (r: Vec<Option<String>>)
    ensures
        r@.len() == paths@.len(),
        opt_texts(r@) == found_in(doc.source(), texts(paths@)),
{
    let mut found: Vec<Option<String>> = Vec::new();
    let mut i: usize = 0;
    while i < paths.len()
        invariant
            i <= paths@.len(),
            found@.len() == i,
            opt_texts(found@) == found_in(doc.source(), texts(paths@.take(i as int))),
        decreases paths@.len() - i,
    {
        let hit = pointer_json(doc, paths[i].as_str());
        let ghost before = found@;
        found.push(hit);
        proof {
            assert(opt_view(hit) == pointer_text_of(doc.source(), paths@[i as int]@));
            assert(texts(paths@.take(i + 1)) =~= texts(paths@.take(i as int)).push(paths@[i as int]@));
            assert(opt_texts(found@) =~= opt_texts(before).push(opt_view(hit)));
        }
        i = i + 1;
        assert(opt_texts(found@) =~= found_in(doc.source(), texts(paths@.take(i as int))));
    }
    assert(paths@.take(i as int) =~= paths@);
    found
}

/// The body section of a request: the JSON document, the fields picked out
/// by `parse_paths`, the decoded form, or the raw text, with markers for
/// absent and blank bodies.
pub fn print_full_request_body(request: &WebhookRequest, parse_paths: &[String], full_body: bool) -> (r: Vec<Piece>)
    ensures
        body_rendered(opt_view(request.message_object.body), texts(parse_paths@), full_body, shown(r@)),
{
    let body = &request.message_object.body;
    let parsed = parse_paths.len() > 0;
    let mut out: Vec<Piece> = Vec::new();
    let doc = match body {
        Some(b) => parse_json(b.as_str()),
        None => None,
    };
    let ghost bb = opt_view(*body).unwrap();
    assert(doc matches Some(d) ==> d.source() == bb);
    let format = classify_body(body, doc.is_some());
    let ghost bv = opt_view(*body);
    let ghost paths = texts(parse_paths@);
    assert(format == body_format(bv));
    match format {
        BodyFormat::Absent => {
            if parsed {
                emit_line(&mut out, Tone::Title, "PARSED JSON FIELDS");
            } else {
                emit_body_heading(&mut out);
            }
            emit_line(&mut out, Tone::Muted, "(no body)");
        },
        BodyFormat::Blank => {
            if parsed {
                emit_line(&mut out, Tone::Title, "PARSED JSON FIELDS");
                emit_line(&mut out, Tone::Muted, "(empty body)");
            } else {
                emit_body_heading(&mut out);
                emit_line(&mut out, Tone::Muted, "(empty)");
            }
        },
        BodyFormat::Json => {
            let d = doc.unwrap();
            let text = pretty_json(&d);
            if parsed {
                emit_line(&mut out, Tone::Title, "PARSED JSON FIELDS");
                let found = resolve_paths(&d, parse_paths);
                let fields = render_parsed_fields(parse_paths, &found);
                emit_all(&mut out, fields);
                if full_body {
                    emit_body_heading(&mut out);
                    emit_json_block(&mut out, text.as_str());
                }
                assert(shown(out@) =~= body_lines(bv, paths, full_body, opt_texts(found@), text@));
            } else {
                emit_body_heading(&mut out);
                emit_json_block(&mut out, text.as_str());
                assert(shown(out@) =~= body_lines(bv, paths, full_body, found_in(bb, paths), text@));
            }
            return out;
        },
        BodyFormat::Form => {
            let b = body.as_ref().unwrap().as_str();
            if parsed {
                emit_not_json(&mut out, b, full_body);
            } else {
                emit_body_heading(&mut out);
                let text = format_form_data(b);
                emit_line(&mut out, Tone::Bright, text.as_str());
            }
        },
        BodyFormat::Raw => {
            let b = body.as_ref().unwrap().as_str();
            if parsed {
                emit_not_json(&mut out, b, full_body);
            } else {
                emit_body_heading(&mut out);
                emit_line(&mut out, Tone::Bright, b);
            }
        },
    }
    assert(shown(out@) =~= body_lines(bv, paths, full_body, found_in(bb, paths), pretty_text_of(bb)));
    out
}

/// Appends the body heading and its rule.
fn emit_body_heading(out: &mut Vec<Piece>)
    ensures
        shown(final(out)@) == shown(old(out)@) + body_heading(),
{
    emit_line(out, Tone::Heading, "REQUEST BODY");
    emit_rule(out, 30);
    assert(shown(final(out)@) =~= shown(old(out)@) + body_heading());
}

/// Appends a JSON document block.
fn emit_json_block(out: &mut Vec<Piece>, doc: &str)
    ensures
        shown(final(out)@) == shown(old(out)@) + json_block(doc@),
{
    emit(out, Tone::Json, doc);
    newline(out);
    assert(shown(final(out)@) =~= shown(old(out)@) + json_block(doc@));
}

/// Appends the notice that fields cannot be picked out of a non-JSON body.
fn emit_not_json(out: &mut Vec<Piece>, b: &str, full: bool)
    ensures
        shown(final(out)@) == shown(old(out)@) + not_json_lines(b@, full),
{
    emit_line(out, Tone::Alert, "Body is not valid JSON, cannot parse paths");
    emit_line(out, Tone::Bright, b);
    if full {
        emit_body_heading(out);
        emit_line(out, Tone::Bright, b);
    }
    assert(shown(final(out)@) =~= shown(old(out)@) + not_json_lines(b@, full));
}


/// A space between pieces of a line.
pub open spec fn sp() -> (Tone, Seq<char>) {
    pc(Tone::Plain, " "@)
}

/// The one-line summary of a request whose timestamp is shown as `date`:
/// time, method, path, id and, when asked, the body preview.
pub open spec fn summary_lines(r: WebhookRequest, date: Seq<char>, show_preview: bool, n: nat) -> Seq<
    (Tone, Seq<char>),
> {
    let m = r.message_object;
    seq![
        pc(Tone::Muted, date),
        sp(),
        pc(method_tone(upper_of(m.method@)), m.method@),
        sp(),
        pc(Tone::Bright, path_after(m.value@, r.token_id@)),
        sp(),
        pc(Tone::Muted, "("@ + r.id@ + ")"@),
    ] + if show_preview {
        seq![sp(), pc(Tone::Bright, preview_text(opt_view(m.body), n))]
    } else {
        Seq::empty()
    } + seq![nl()]
}

/// One header value on a line of its own.
pub open spec fn value_line(indent: bool, name: Seq<char>, v: Seq<char>) -> Seq<(Tone, Seq<char>)> {
    if indent {
        seq![pc(Tone::Plain, "  "@), pc(Tone::Key, name), pc(Tone::Plain, ": "@), pc(Tone::Bright, v), nl()]
    } else {
        seq![pc(Tone::Key, name), pc(Tone::Plain, ": "@), pc(Tone::Bright, v), nl()]
    }
}

/// Every value of one header, in order.
pub open spec fn values_lines(indent: bool, name: Seq<char>, vs: Seq<Seq<char>>) -> Seq<
    (Tone, Seq<char>),
>
    decreases vs.len(),
{
    if vs.len() == 0 {
        Seq::empty()
    } else {
        values_lines(indent, name, vs.drop_last()) + value_line(indent, name, vs.last())
    }
}

/// Every value of every header, grouped by header, in order.
pub open spec fn headers_lines(indent: bool, hs: Seq<Header>) -> Seq<(Tone, Seq<char>)>
    decreases hs.len(),
{
    if hs.len() == 0 {
        Seq::empty()
    } else {
        headers_lines(indent, hs.drop_last()) + values_lines(
            indent,
            hs.last().name@,
            texts(hs.last().values@),
        )
    }
}

/// The headers block of the summary view; nothing when there are no headers.
pub open spec fn headers_block(hs: Seq<Header>) -> Seq<(Tone, Seq<char>)> {
    if hs.len() == 0 {
        Seq::empty()
    } else {
        line1(Tone::Heading, "HEADERS"@) + headers_lines(true, hs)
    }
}

/// A labelled field of the detail view.
pub open spec fn labelled(label: Seq<char>, value: (Tone, Seq<char>)) -> Seq<(Tone, Seq<char>)> {
    seq![pc(Tone::Label, label), pc(Tone::Plain, ": "@), value, nl()]
}

/// The query parameters, one per line.
pub open spec fn query_lines(qs: Seq<Seq<char>>) -> Seq<(Tone, Seq<char>)>
    decreases qs.len(),
{
    if qs.len() == 0 {
        Seq::empty()
    } else {
        query_lines(qs.drop_last()) + line1(Tone::Bright, qs.last())
    }
}

/// The detail view of a request whose timestamp is shown as `date` and
/// whose body section is `body`.
pub open spec fn details_lines(r: WebhookRequest, date: Seq<char>, body: Seq<(Tone, Seq<char>)>) -> Seq<
    (Tone, Seq<char>),
> {
    let m = r.message_object;
    let qs = texts(m.query_parameters@);
    line1(Tone::Title, "REQUEST DETAILS"@) + rule_of('═', 50) + labelled("ID"@, pc(Tone::Bright, r.id@))
        + labelled("Token"@, pc(Tone::Bright, r.token_id@)) + labelled(
        "Date"@,
        pc(Tone::Bright, date),
    ) + labelled("Method"@, pc(method_tone(upper_of(m.method@)), m.method@)) + labelled(
        "Path"@,
        pc(Tone::Bright, m.value@),
    ) + seq![nl()] + line1(Tone::Heading, "HEADERS"@) + rule(30) + headers_lines(false, m.headers@)
        + seq![nl()] + if qs.len() > 0 {
        line1(Tone::Heading, "QUERY PARAMETERS"@) + rule(30) + query_lines(qs) + seq![nl()]
    } else {
        Seq::empty()
    } + body
}

/// `out` is the detail view of `r`: its timestamp shown as `format_date`
/// shows it, and its body as the body renderer renders it.
pub open spec fn details_rendered(
    r: WebhookRequest,
    paths: Seq<Seq<char>>,
    full: bool,
    out: Seq<(Tone, Seq<char>)>,
) -> bool {
    exists|date: Seq<char>, body: Seq<(Tone, Seq<char>)>|
        {
            &&& date_shown(r.date@, date)
            &&& body_rendered(opt_view(r.message_object.body), paths, full, body)
            &&& out == details_lines(r, date, body)
        }
}

/// The summary line of a request whose timestamp is shown as `date`.
pub fn summary_with_date(
    request: &WebhookRequest,
    date: String,
    show_body_preview: bool,
    body_preview_length: usize,
) -> (r: Vec<Piece>)
    ensures
        shown(r@) == summary_lines(*request, date@, show_body_preview, body_preview_length as nat),
{
    let m = &request.message_object;
    let mut out: Vec<Piece> = Vec::new();
    emit_string(&mut out, Tone::Muted, date);
    emit(&mut out, Tone::Plain, " ");
    let method = format_method(m.method.as_str());
    emit_string(&mut out, method.tone, method.text);
    emit(&mut out, Tone::Plain, " ");
    let path = extract_path(m.value.as_str(), request.token_id.as_str());
    emit_string(&mut out, Tone::Bright, path);
    emit(&mut out, Tone::Plain, " ");
    let mut id = owned("(");
    append(&mut id, request.id.as_str());
    append(&mut id, ")");
    emit_string(&mut out, Tone::Muted, id);
    if show_body_preview {
        emit(&mut out, Tone::Plain, " ");
        let preview = get_body_preview(&m.body, body_preview_length);
        emit_string(&mut out, Tone::Bright, preview);
    }
    newline(&mut out);
    assert(shown(out@) =~= summary_lines(*request, date@, show_body_preview, body_preview_length as nat));
    out
}

/// The summary line of a request.
pub fn print_request_summary(request: &WebhookRequest, show_body_preview: bool, body_preview_length: usize) -> (r: Vec<Piece>)
    ensures
        exists|date: Seq<char>|
            date_shown(request.date@, date) && shown(r@) == summary_lines(
                *request,
                date,
                show_body_preview,
                body_preview_length as nat,
            ),
{
    let date = format_date(request.date.as_str());
    let ghost d = date@;
    let r = summary_with_date(request, date, show_body_preview, body_preview_length);
    assert(date_shown(request.date@, d));
    r
}

/// Appends every value of every header.
fn emit_headers(out: &mut Vec<Piece>, indent: bool, headers: &Vec<Header>)
    ensures
        shown(final(out)@) == shown(old(out)@) + headers_lines(indent, headers@),
{
    let mut i: usize = 0;
    while i < headers.len()
        invariant
            i <= headers@.len(),
            shown(out@) == shown(old(out)@) + headers_lines(indent, headers@.take(i as int)),
        decreases headers@.len() - i,
    {
        let h = &headers[i];
        let ghost start = shown(out@);
        let mut k: usize = 0;
        while k < h.values.len()
            invariant
                k <= h.values@.len(),
                shown(out@) == start + values_lines(indent, h.name@, texts(h.values@.take(k as int))),
            decreases h.values@.len() - k,
        {
            if indent {
                emit(out, Tone::Plain, "  ");
            }
            emit(out, Tone::Key, h.name.as_str());
            emit(out, Tone::Plain, ": ");
            emit(out, Tone::Bright, h.values[k].as_str());
            newline(out);
            proof {
                let vs = texts(h.values@.take(k + 1));
                assert(vs.drop_last() =~= texts(h.values@.take(k as int)));
                assert(vs.last() == h.values@[k as int]@);
            }
            k = k + 1;
            assert(shown(out@) =~= start + values_lines(indent, h.name@, texts(h.values@.take(k as int))));
        }
        assert(h.values@.take(k as int) =~= h.values@);
        proof {
            let hs = headers@.take(i + 1);
            assert(hs.drop_last() =~= headers@.take(i as int));
            assert(hs.last() == headers@[i as int]);
        }
        i = i + 1;
        assert(shown(out@) =~= shown(old(out)@) + headers_lines(indent, headers@.take(i as int)));
    }
    assert(headers@.take(i as int) =~= headers@);
}

/// The headers block of a request; nothing when it has no headers.
pub fn print_request_headers(request: &WebhookRequest) -> (r: Vec<Piece>)
    ensures
        shown(r@) == headers_block(request.message_object.headers@),
{
    let mut out: Vec<Piece> = Vec::new();
    if request.message_object.headers.len() > 0 {
        emit_line(&mut out, Tone::Heading, "HEADERS");
        emit_headers(&mut out, true, &request.message_object.headers);
    }
    assert(shown(out@) =~= headers_block(request.message_object.headers@));
    out
}

/// Appends the query parameters, one per line.
fn emit_query(out: &mut Vec<Piece>, qs: &Vec<String>)
    ensures
        shown(final(out)@) == shown(old(out)@) + query_lines(texts(qs@)),
{
    let mut i: usize = 0;
    while i < qs.len()
        invariant
            i <= qs@.len(),
            shown(out@) == shown(old(out)@) + query_lines(texts(qs@.take(i as int))),
        decreases qs@.len() - i,
    {
        emit_line(out, Tone::Bright, qs[i].as_str());
        proof {
            let t = texts(qs@.take(i + 1));
            assert(t.drop_last() =~= texts(qs@.take(i as int)));
            assert(t.last() == qs@[i as int]@);
        }
        i = i + 1;
        assert(shown(out@) =~= shown(old(out)@) + query_lines(texts(qs@.take(i as int))));
    }
    assert(qs@.take(i as int) =~= qs@);
}

/// Appends a labelled field.
fn emit_labelled(out: &mut Vec<Piece>, label: &str, value: Piece)
    ensures
        shown(final(out)@) == shown(old(out)@) + labelled(label@, value@),
{
    emit(out, Tone::Label, label);
    emit(out, Tone::Plain, ": ");
    emit_string(out, value.tone, value.text);
    newline(out);
    assert(shown(final(out)@) =~= shown(old(out)@) + labelled(label@, value@));
}

/// The detail view of a request whose timestamp is shown as `date`.
pub fn details_with_date(request: &WebhookRequest, date: String, parse_paths: &[String], full_body: bool) -> (r: Vec<Piece>)
    ensures
        exists|body: Seq<(Tone, Seq<char>)>|
            body_rendered(opt_view(request.message_object.body), texts(parse_paths@), full_body, body)
                && shown(r@) == details_lines(*request, date@, body),
{
    let m = &request.message_object;
    let mut out: Vec<Piece> = Vec::new();
    emit_line(&mut out, Tone::Title, "REQUEST DETAILS");
    emit_rule_of(&mut out, '═', 50);
    emit_labelled(&mut out, "ID", Piece { tone: Tone::Bright, text: owned(request.id.as_str()) });
    emit_labelled(&mut out, "Token", Piece { tone: Tone::Bright, text: owned(request.token_id.as_str()) });
    emit_labelled(&mut out, "Date", Piece { tone: Tone::Bright, text: date });
    emit_labelled(&mut out, "Method", format_method(m.method.as_str()));
    emit_labelled(&mut out, "Path", Piece { tone: Tone::Bright, text: owned(m.value.as_str()) });
    newline(&mut out);
    emit_line(&mut out, Tone::Heading, "HEADERS");
    emit_rule(&mut out, 30);
    emit_headers(&mut out, false, &m.headers);
    newline(&mut out);
    if m.query_parameters.len() > 0 {
        emit_line(&mut out, Tone::Heading, "QUERY PARAMETERS");
        emit_rule(&mut out, 30);
        emit_query(&mut out, &m.query_parameters);
        newline(&mut out);
    }
    let body = print_full_request_body(request, parse_paths, full_body);
    let ghost bs = shown(body@);
    emit_all(&mut out, body);
    assert(shown(out@) =~= details_lines(*request, date@, bs));
    out
}

/// The detail view of a request: its fields, headers, query parameters and
/// body.
pub fn print_request_details(request: &WebhookRequest, parse_paths: &[String], full_body: bool) -> (r: Vec<Piece>)
    ensures
        details_rendered(*request, texts(parse_paths@), full_body, shown(r@)),
{
    let date = format_date(request.date.as_str());
    let ghost d = date@;
    let r = details_with_date(request, date, parse_paths, full_body);
    assert(date_shown(request.date@, d));
    r
}

} // verus!
