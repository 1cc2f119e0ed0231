//! The tool's operations: the monitor's poll step, log listing, detail
//! lookup and token generation. Fetching, printing and sleeping are left to
//! the caller.

use vstd::prelude::*;
use crate::client::{fetch_error_text, FetchError};
use crate::clock::{date_shown, format_date};
use crate::config::{joined_url, str_texts, Config};
use crate::display::{
    body_rendered, details_rendered, headers_block, print_full_request_body,
    print_request_details, print_request_headers, preview_text, summary_lines, summary_with_date,
    get_body_preview,
};
use crate::filter::{
    filter_requests, lemma_no_filter_keeps_all, lemma_selected_sound, method_selected, opt_str,
    selected,
};
use crate::model::{opt_view, RenderOptions, WebhookRequest};
use crate::monitor::{
    lemma_fresh_positions, fresh_fit, fresh_positions, new_ids, poll_shows, shown_ids, MonitorState,
};
use crate::output::{
    emit, emit_all, emit_line, emit_rule, emit_string, line1, newline, nl, pc, rule, shown, Piece,
    Tone,
};
use crate::text::{append, decimal, decimal_text, owned, texts, upper_of, uppercase};

verus! {

/// Whether records are rendered with their body section rather than a
/// one-line preview.
pub open spec fn wants_body(o: RenderOptions) -> bool {
    o.full_body || o.parse_paths@.len() > 0
}

/// One record of a listing or poll: a new record is preceded by a marker,
/// shows its preview on a line of its own, and is followed by a rule.
pub open spec fn record_lines(
    r: WebhookRequest,
    fresh: bool,
    o: RenderOptions,
    date: Seq<char>,
    body: Seq<(Tone, Seq<char>)>,
) -> Seq<(Tone, Seq<char>)> {
    let wb = wants_body(o);
    let n = o.body_preview_length as nat;
    (if fresh {
        line1(Tone::Title, "NEW REQUEST"@)
    } else {
        Seq::empty()
    }) + summary_lines(r, date, !wb && !fresh, n) + (if o.show_headers {
        headers_block(r.message_object.headers@)
    } else {
        Seq::empty()
    }) + (if wb {
        if fresh {
            body
        } else {
            body + seq![nl()]
        }
    } else if fresh {
        line1(Tone::Bright, preview_text(opt_view(r.message_object.body), n))
    } else {
        Seq::empty()
    }) + if fresh {
        rule(80)
    } else {
        Seq::empty()
    }
}

/// `out` renders record `r`, with its timestamp and body as the renderers
/// show them.
pub open spec fn record_rendered(r: WebhookRequest, fresh: bool, o: RenderOptions, out: Seq<(Tone, Seq<char>)>) -> bool {
    exists|date: Seq<char>, body: Seq<(Tone, Seq<char>)>|
        {
            &&& date_shown(r.date@, date)
            &&& wants_body(o) ==> body_rendered(
                opt_view(r.message_object.body),
                texts(o.parse_paths@),
                o.full_body,
                body,
            )
            &&& out == record_lines(r, fresh, o, date, body)
        }
}

/// The blocks one after another.
pub open spec fn concat(bs: Seq<Seq<(Tone, Seq<char>)>>) -> Seq<(Tone, Seq<char>)>
    decreases bs.len(),
{
    if bs.len() == 0 {
        Seq::empty()
    } else {
        concat(bs.drop_last()) + bs.last()
    }
}

/// `out` renders the records at `picks`, in that order.
pub open spec fn blocks_fit(
    reqs: Seq<WebhookRequest>,
    picks: Seq<int>,
    fresh: bool,
    o: RenderOptions,
    out: Seq<(Tone, Seq<char>)>,
) -> bool {
    exists|blocks: Seq<Seq<(Tone, Seq<char>)>>|
        {
            &&& blocks.len() == picks.len()
            &&& forall|k: int|
                0 <= k < picks.len() ==> record_rendered(reqs[picks[k]], fresh, o, #[trigger] blocks[k])
            &&& out == concat(blocks)
        }
}

/// Positions as integers.
pub open spec fn ints(v: Seq<usize>) -> Seq<int> {
    v.map_values(|i: usize| i as int)
}

/// Renders one record as a block of a listing or poll.
pub fn render_record(request: &WebhookRequest, fresh: bool, options: &RenderOptions) -> (r: Vec<Piece>)
    ensures
        record_rendered(*request, fresh, *options, shown(r@)),
{
    let date = format_date(request.date.as_str());
    let ghost d = date@;
    let mut out: Vec<Piece> = Vec::new();
    if fresh {
        emit_line(&mut out, Tone::Title, "NEW REQUEST");
    }
    let wb = options.full_body || options.parse_paths.len() > 0;
    let summary = summary_with_date(request, date, !wb && !fresh, options.body_preview_length);
    emit_all(&mut out, summary);
    if options.show_headers {
        let headers = print_request_headers(request);
        emit_all(&mut out, headers);
    }
    let ghost mut body: Seq<(Tone, Seq<char>)> = Seq::empty();
    if wb {
        let b = print_full_request_body(request, &options.parse_paths, options.full_body);
        proof {
            body = shown(b@);
        }
        emit_all(&mut out, b);
        if !fresh {
            newline(&mut out);
        }
    } else if fresh {
        let p = get_body_preview(&request.message_object.body, options.body_preview_length);
        emit_line(&mut out, Tone::Bright, p.as_str());
    }
    if fresh {
        emit_rule(&mut out, 80);
    }
    assert(shown(out@) =~= record_lines(*request, fresh, *options, d, body));
    out
}

/// Renders the records at `picks`, in that order.
pub fn render_records(
    requests: &Vec<WebhookRequest>,
    picks: &Vec<usize>,
    fresh: bool,
    options: &RenderOptions,
) -> (r: Vec<Piece>)
    requires
        forall|k: int| 0 <= k < picks@.len() ==> picks@[k] < requests@.len(),
    ensures
        blocks_fit(requests@, ints(picks@), fresh, *options, shown(r@)),
{
    let mut out: Vec<Piece> = Vec::new();
    let ghost mut blocks: Seq<Seq<(Tone, Seq<char>)>> = Seq::empty();
    let mut i: usize = 0;
    while i < picks.len()
        invariant
            i <= picks@.len(),
            forall|k: int| 0 <= k < picks@.len() ==> picks@[k] < requests@.len(),
            blocks.len() == i,
            forall|k: int|
                0 <= k < i ==> record_rendered(requests@[picks@[k] as int], fresh, *options, #[trigger] blocks[k]),
            shown(out@) == concat(blocks),
        decreases picks@.len() - i,
    {
        let block = render_record(&requests[picks[i]], fresh, options);
        let ghost b = shown(block@);
        emit_all(&mut out, block);
        proof {
            let nb = blocks.push(b);
            assert(nb.drop_last() =~= blocks);
            blocks = nb;
        }
        i = i + 1;
    }
    assert forall|k: int| 0 <= k < ints(picks@).len() implies record_rendered(
        requests@[ints(picks@)[k]],
        fresh,
        *options,
        #[trigger] blocks[k],
    ) by {
        assert(ints(picks@)[k] == picks@[k] as int);
    }
    out
}


/// The ids of the records that pass the filter, in fetch order.
pub open spec fn poll_ids(reqs: Seq<WebhookRequest>, filter: Option<Seq<char>>) -> Seq<Seq<char>> {
    selected(reqs, filter).map_values(|i: int| reqs[i].id@)
}

/// Positions in `reqs` of the records a poll displays.
pub open spec fn poll_picks(
    seen: Set<Seq<char>>,
    first: bool,
    reqs: Seq<WebhookRequest>,
    filter: Option<Seq<char>>,
) -> Seq<int> {
    let sel = selected(reqs, filter);
    poll_shows(seen, first, poll_ids(reqs, filter)).map_values(|k: int| sel[k])
}

/// The line that opens the baseline of a monitor session.
pub open spec fn found_recent_line(n: nat) -> Seq<(Tone, Seq<char>)> {
    seq![pc(Tone::Key, "Found"@), pc(Tone::Plain, " "@ + decimal_text(n) + " recent requests:"@), nl()]
}

/// The line that reports a failed poll.
pub open spec fn error_lines(e: FetchError) -> Seq<(Tone, Seq<char>)> {
    seq![pc(Tone::Alert, "Error:"@), pc(Tone::Plain, " "@), pc(Tone::Plain, fetch_error_text(e)), nl()]
}

/// What a successful poll shows: on the baseline poll a count and the
/// records, or a waiting notice when there are none; afterwards each new
/// record, marked as such.
pub open spec fn poll_rendered(
    seen: Set<Seq<char>>,
    first: bool,
    reqs: Seq<WebhookRequest>,
    filter: Option<Seq<char>>,
    o: RenderOptions,
    out: Seq<(Tone, Seq<char>)>,
) -> bool {
    let picks = poll_picks(seen, first, reqs, filter);
    if !first {
        blocks_fit(reqs, picks, true, o, out)
    } else if picks.len() == 0 {
        out == line1(Tone::Notice, "No requests yet. Waiting for incoming webhooks..."@)
    } else {
        exists|rest: Seq<(Tone, Seq<char>)>|
            out == found_recent_line(picks.len()) + rest && blocks_fit(reqs, picks, false, o, rest)
    }
}

/// One poll of the monitor on what the fetch brought. A successful fetch is
/// filtered, classified against the seen ids and rendered, and every
/// filtered id becomes seen; a failed one is reported and changes nothing.
pub fn poll_once(
    state: &mut MonitorState,
    fetched: &Result<Vec<WebhookRequest>, FetchError>,
    method_filter: Option<&str>,
    options: &RenderOptions,
) -> (r: Vec<Piece>)
    ensures
        match fetched {
            Ok(reqs) => {
                &&& final(state).seen_ids() == old(state).seen_ids() + poll_ids(
                    reqs@,
                    opt_str(method_filter),
                ).to_set()
                &&& !final(state).awaiting_baseline()
                &&& poll_rendered(
                    old(state).seen_ids(),
                    old(state).awaiting_baseline(),
                    reqs@,
                    opt_str(method_filter),
                    *options,
                    shown(r@),
                )
            },
            Err(e) => {
                &&& final(state).seen_ids() == old(state).seen_ids()
                &&& final(state).awaiting_baseline() == old(state).awaiting_baseline()
                &&& shown(r@) == error_lines(*e)
            },
        },
{
    match fetched {
        Err(e) => {
            let mut out: Vec<Piece> = Vec::new();
            emit(&mut out, Tone::Alert, "Error:");
            emit(&mut out, Tone::Plain, " ");
            emit_string(&mut out, Tone::Plain, e.message());
            newline(&mut out);
            assert(shown(out@) =~= error_lines(*e));
            out
        },
        Ok(reqs) => {
            let ghost seen0 = state.seen_ids();
            let first = state.is_first_run();
            let sel = filter_requests(reqs, method_filter);
            let ghost f = opt_str(method_filter);
            let mut ids: Vec<String> = Vec::new();
            let mut i: usize = 0;
            while i < sel.len()
                invariant
                    i <= sel@.len(),
                    ints(sel@) == selected(reqs@, f),
                    forall|k: int| 0 <= k < sel@.len() ==> sel@[k] < reqs@.len(),
                    texts(ids@) == poll_ids(reqs@, f).take(i as int),
                decreases sel@.len() - i,
            {
                let ghost before = ids@;
                let id = reqs[sel[i]].id.clone();
                ids.push(id);
                proof {
                    assert(ints(sel@)[i as int] == sel@[i as int] as int);
                    assert(selected(reqs@, f)[i as int] == sel@[i as int] as int);
                    assert(poll_ids(reqs@, f)[i as int] == reqs@[sel@[i as int] as int].id@);
                    assert(texts(ids@) =~= texts(before).push(id@));
                    assert(poll_ids(reqs@, f).take(i + 1) =~= poll_ids(reqs@, f).take(i as int).push(
                        id@,
                    ));
                }
                i = i + 1;
            }
            assert(texts(ids@) =~= poll_ids(reqs@, f));
            let shows = state.classify(&ids);
            let ghost sh = poll_shows(seen0, first, texts(ids@));
            proof {
                if !first {
                    lemma_fresh_positions(seen0, texts(ids@));
                }
                assert forall|k: int| 0 <= k < sh.len() implies 0 <= #[trigger] sh[k] < sel@.len() by {
                    if !first {
                        assert(fresh_fit(seen0, texts(ids@), fresh_positions(seen0, texts(ids@))));
                    }
                }
            }
            let mut picks: Vec<usize> = Vec::new();
            let mut k: usize = 0;
            while k < shows.len()
                invariant
                    k <= shows@.len(),
                    ints(shows@) == sh,
                    forall|j: int| 0 <= j < sh.len() ==> 0 <= #[trigger] sh[j] < sel@.len(),
                    forall|j: int| 0 <= j < sel@.len() ==> sel@[j] < reqs@.len(),
                    ints(sel@) == selected(reqs@, f),
                    ints(picks@) == sh.take(k as int).map_values(|j: int| selected(reqs@, f)[j]),
                    forall|j: int| 0 <= j < picks@.len() ==> picks@[j] < reqs@.len(),
                decreases shows@.len() - k,
            {
                assert(ints(shows@)[k as int] == shows@[k as int] as int);
                let p = sel[shows[k]];
                assert(ints(sel@)[shows@[k as int] as int] == p as int);
                let ghost before = picks@;
                picks.push(p);
                proof {
                    let q = sh.take(k + 1).map_values(|j: int| selected(reqs@, f)[j]);
                    assert(q[k as int] == selected(reqs@, f)[sh[k as int]]);
                    assert(sh[k as int] == shows@[k as int] as int);
                    assert(q =~= sh.take(k as int).map_values(|j: int| selected(reqs@, f)[j]).push(
                        p as int,
                    ));
                    assert(ints(picks@) =~= ints(before).push(p as int));
                }
                k = k + 1;
            }
            assert(sh.take(k as int) =~= sh);
            assert(ints(picks@) =~= poll_picks(seen0, first, reqs@, f));
            let mut out: Vec<Piece> = Vec::new();
            if first {
                if picks.len() == 0 {
                    emit_line(&mut out, Tone::Notice, "No requests yet. Waiting for incoming webhooks...");
                } else {
                    emit(&mut out, Tone::Key, "Found");
                    let mut line = owned(" ");
                    let n = decimal(picks.len() as u64);
                    append(&mut line, n.as_str());
                    append(&mut line, " recent requests:");
                    emit_string(&mut out, Tone::Plain, line);
                    newline(&mut out);
                    let ghost head = shown(out@);
                    let blocks = render_records(reqs, &picks, false, options);
                    let ghost rest = shown(blocks@);
                    emit_all(&mut out, blocks);
                    assert(head =~= found_recent_line(picks@.len()));
                    assert(shown(out@) =~= found_recent_line(picks@.len()) + rest);
                }
            } else {
                let blocks = render_records(reqs, &picks, true, options);
                out = blocks;
            }
            out
        },
    }
}

/// The records a poll displays carry exactly the ids the dedupe tracker
/// displays, in the same order; on a later poll these are the ids marked new.
pub proof fn lemma_rendered_ids(
    seen: Set<Seq<char>>,
    first: bool,
    reqs: Seq<WebhookRequest>,
    filter: Option<Seq<char>>,
)
    ensures
        poll_picks(seen, first, reqs, filter).map_values(|i: int| reqs[i].id@) == shown_ids(
            seen,
            first,
            poll_ids(reqs, filter),
        ),
        !first ==> shown_ids(seen, first, poll_ids(reqs, filter)) == new_ids(
            seen,
            first,
            poll_ids(reqs, filter),
        ),
{
    let ids = poll_ids(reqs, filter);
    lemma_selected_sound(reqs, filter);
    if !first {
        lemma_fresh_positions(seen, ids);
        assert(fresh_fit(seen, ids, fresh_positions(seen, ids)));
    }
    assert(poll_picks(seen, first, reqs, filter).map_values(|i: int| reqs[i].id@) =~= shown_ids(
        seen,
        first,
        ids,
    ));
}

/// A poll displays, and adds to the seen ids, only records whose method
/// passes the filter; without a filter no record is left out.
pub proof fn lemma_poll_respects_filter(
    seen: Set<Seq<char>>,
    first: bool,
    reqs: Seq<WebhookRequest>,
    filter: Option<Seq<char>>,
)
    ensures
        forall|k: int|
            0 <= k < poll_picks(seen, first, reqs, filter).len() ==> {
                let i = #[trigger] poll_picks(seen, first, reqs, filter)[k];
                0 <= i < reqs.len() && method_selected(reqs[i].message_object.method@, filter)
            },
        forall|x: Seq<char>|
            #[trigger] poll_ids(reqs, filter).contains(x) ==> exists|i: int|
                0 <= i < reqs.len() && reqs[i].id@ == x && method_selected(
                    reqs[i].message_object.method@,
                    filter,
                ),
        filter is None ==> selected(reqs, filter) == Seq::new(reqs.len(), |i: int| i),
{
    let ids = poll_ids(reqs, filter);
    let sel = selected(reqs, filter);
    lemma_selected_sound(reqs, filter);
    if !first {
        lemma_fresh_positions(seen, ids);
        assert(fresh_fit(seen, ids, fresh_positions(seen, ids)));
    }
    assert forall|x: Seq<char>| #[trigger] ids.contains(x) implies exists|i: int|
        0 <= i < reqs.len() && reqs[i].id@ == x && method_selected(reqs[i].message_object.method@, filter) by {
        let j = choose|j: int| 0 <= j < ids.len() && ids[j] == x;
        assert(0 <= sel[j] < reqs.len());
    }
    if filter is None {
        lemma_no_filter_keeps_all(reqs);
    }
}

/// The first successful poll displays exactly the records that pass the
/// filter, in fetch order.
pub proof fn lemma_baseline_renders_filtered(
    seen: Set<Seq<char>>,
    reqs: Seq<WebhookRequest>,
    filter: Option<Seq<char>>,
)
    ensures
        poll_picks(seen, true, reqs, filter) == selected(reqs, filter),
{
    assert(poll_picks(seen, true, reqs, filter) =~= selected(reqs, filter));
}

/// A later poll displays no record whose id was seen before, so a record
/// once displayed is never displayed again.
pub proof fn lemma_later_poll_skips_seen(
    seen: Set<Seq<char>>,
    reqs: Seq<WebhookRequest>,
    filter: Option<Seq<char>>,
)
    ensures
        forall|k: int|
            0 <= k < poll_picks(seen, false, reqs, filter).len() ==> !seen.contains(
                reqs[#[trigger] poll_picks(seen, false, reqs, filter)[k]].id@,
            ),
{
    let ids = poll_ids(reqs, filter);
    lemma_selected_sound(reqs, filter);
    lemma_fresh_positions(seen, ids);
    assert(fresh_fit(seen, ids, fresh_positions(seen, ids)));
    assert forall|k: int| 0 <= k < poll_picks(seen, false, reqs, filter).len() implies !seen.contains(
        reqs[#[trigger] poll_picks(seen, false, reqs, filter)[k]].id@,
    ) by {
        let j = fresh_positions(seen, ids)[k];
        assert(ids[j] == reqs[selected(reqs, filter)[j]].id@);
    }
}

/// The line that opens a log listing.
pub open spec fn found_for_token_line(n: nat, token: Seq<char>) -> Seq<(Tone, Seq<char>)> {
    seq![
        pc(Tone::Key, "Found"@),
        pc(Tone::Plain, " "@ + decimal_text(n) + " requests for token "@),
        pc(Tone::Bright, token),
        nl(),
    ]
}

/// The line naming the method filter, in uppercase.
pub open spec fn filter_line(filter: Option<Seq<char>>) -> Seq<(Tone, Seq<char>)> {
    match filter {
        Some(m) => seq![pc(Tone::Plain, "Filtered by method: "@), pc(Tone::Heading, upper_of(m)), nl()],
        None => Seq::empty(),
    }
}

/// The closing hint of a log listing.
pub open spec fn details_hint() -> Seq<(Tone, Seq<char>)> {
    line1(Tone::Notice, "Use 'webhook show --token <token> --request-id <id>' for full details"@)
}

/// What a log listing shows.
pub open spec fn logs_rendered(
    reqs: Seq<WebhookRequest>,
    token: Seq<char>,
    filter: Option<Seq<char>>,
    o: RenderOptions,
    out: Seq<(Tone, Seq<char>)>,
) -> bool {
    let picks = selected(reqs, filter);
    if picks.len() == 0 {
        out == line1(Tone::Notice, "No requests found."@)
    } else {
        exists|blocks: Seq<(Tone, Seq<char>)>|
            {
                &&& blocks_fit(reqs, picks, false, o, blocks)
                &&& out == found_for_token_line(picks.len(), token) + filter_line(filter) + rule(80)
                    + blocks + seq![nl()] + details_hint()
            }
    }
}

/// The log listing of the fetched records of channel `token`: those that
/// pass the filter, in fetch order.
pub fn show_logs(
    requests: &Vec<WebhookRequest>,
    token: &str,
    method_filter: Option<&str>,
    options: &RenderOptions,
) -> (r: Vec<Piece>)
    ensures
        logs_rendered(requests@, token@, opt_str(method_filter), *options, shown(r@)),
{
    let sel = filter_requests(requests, method_filter);
    let mut out: Vec<Piece> = Vec::new();
    if sel.len() == 0 {
        emit_line(&mut out, Tone::Notice, "No requests found.");
        return out;
    }
    emit(&mut out, Tone::Key, "Found");
    let mut line = owned(" ");
    let n = decimal(sel.len() as u64);
    append(&mut line, n.as_str());
    append(&mut line, " requests for token ");
    emit_string(&mut out, Tone::Plain, line);
    emit(&mut out, Tone::Bright, token);
    newline(&mut out);
    match method_filter {
        Some(m) => {
            emit(&mut out, Tone::Plain, "Filtered by method: ");
            emit_string(&mut out, Tone::Heading, uppercase(m));
            newline(&mut out);
        },
        None => {},
    }
    emit_rule(&mut out, 80);
    let ghost head = shown(out@);
    let blocks = render_records(requests, &sel, false, options);
    let ghost b = shown(blocks@);
    emit_all(&mut out, blocks);
    newline(&mut out);
    emit_line(&mut out, Tone::Notice, "Use 'webhook show --token <token> --request-id <id>' for full details");
    assert(head =~= found_for_token_line(sel@.len() as nat, token@) + filter_line(opt_str(method_filter))
        + rule(80));
    assert(shown(out@) =~= found_for_token_line(sel@.len() as nat, token@) + filter_line(
        opt_str(method_filter),
    ) + rule(80) + b + seq![nl()] + details_hint());
    out
}

/// How many of the latest records a detail lookup fetches.
pub const DETAIL_WINDOW: u32 = 100;

/// Why a detail lookup failed.
#[derive(Debug)]
pub enum DetailError {
    /// No fetched record has the requested id.
    RecordNotFound { id: String },
}

impl DetailError {
    /// The message shown for this error.
    pub fn message(&self) -> (r: String)
        ensures
            r@ == match *self {
                DetailError::RecordNotFound { id } => "Request with ID "@ + id@ + " not found"@,
            },
    {
        match self {
            DetailError::RecordNotFound { id } => {
                let mut r = owned("Request with ID ");
                append(&mut r, id.as_str());
                append(&mut r, " not found");
                r
            },
        }
    }
}

/// Position of the first record with id `id`.
pub fn find_record(requests: &Vec<WebhookRequest>, id: &str) -> (r: Option<usize>)
    ensures
        r matches Some(i) ==> i < requests@.len() && requests@[i as int].id@ == id@ && forall|j: int|
            0 <= j < i ==> requests@[j].id@ != id@,
        r is None ==> forall|j: int| 0 <= j < requests@.len() ==> requests@[j].id@ != id@,
{
    let mut i: usize = 0;
    while i < requests.len()
        invariant
            i <= requests@.len(),
            forall|j: int| 0 <= j < i ==> requests@[j].id@ != id@,
        decreases requests@.len() - i,
    {
        if crate::text::text_eq(requests[i].id.as_str(), id) {
            return Some(i);
        }
        i = i + 1;
    }
    None
}

/// The detail view of the fetched record with id `request_id`, or
/// `RecordNotFound` when no fetched record has it.
pub fn show_request_details(
    requests: &Vec<WebhookRequest>,
    request_id: &str,
    parse_paths: &[String],
) -> (r: Result<Vec<Piece>, DetailError>)
    ensures
        r is Err <==> forall|j: int| 0 <= j < requests@.len() ==> requests@[j].id@ != request_id@,
        r matches Err(e) ==> e matches DetailError::RecordNotFound { id } && id@ == request_id@,
        r matches Ok(out) ==> exists|i: int|
            {
                &&& 0 <= i < requests@.len()
                &&& requests@[i].id@ == request_id@
                &&& forall|j: int| 0 <= j < i ==> requests@[j].id@ != request_id@
                &&& details_rendered(requests@[i], texts(parse_paths@), false, shown(out@))
            },
{
    match find_record(requests, request_id) {
        Some(i) => Ok(print_request_details(&requests[i], parse_paths, false)),
        None => Err(DetailError::RecordNotFound { id: owned(request_id) }),
    }
}


/// A lowercase hexadecimal digit.
pub open spec fn is_lower_hex(c: char) -> bool {
    ('0' <= c <= '9') || ('a' <= c <= 'f')
}

/// The hyphenated form of a version-4 UUID: 36 characters, hyphens at 8,
/// 13, 18 and 23, the version digit `4` at 14, lowercase hex elsewhere.
pub open spec fn is_v4_hyphenated(s: Seq<char>) -> bool {
    &&& s.len() == 36
    &&& forall|i: int|
        0 <= i < 36 ==> if i == 8 || i == 13 || i == 18 || i == 23 {
            #[trigger] s[i] == '-'
        } else if i == 14 {
            s[i] == '4'
        } else {
            is_lower_hex(s[i])
        }
}

/// Relies on uuid's `Uuid::new_v4`, which fixes the version digit, and its
/// `Display`, which writes the lowercase hyphenated form: a random token.
#[verifier::external_body]
fn new_token() -> (r: String)
    ensures
        is_v4_hyphenated(r@),
{
    uuid::Uuid::new_v4().to_string()
}

/// A new token, its capture URL, and the lines that announce them.
#[derive(Debug)]
pub struct TokenReport {
    pub token: String,
    pub url: String,
    pub lines: Vec<Piece>,
}

/// A labelled value on a line of its own.
pub open spec fn label_line(label: Seq<char>, value: Seq<char>) -> Seq<(Tone, Seq<char>)> {
    seq![pc(Tone::Label, label), pc(Tone::Plain, ": "@), pc(Tone::Bright, value), nl()]
}

/// The announcement of a generated token.
pub open spec fn token_lines(token: Seq<char>, url: Seq<char>) -> Seq<(Tone, Seq<char>)> {
    line1(Tone::Title, "New webhook token generated!"@) + seq![nl()] + label_line("Token"@, token)
        + label_line("Webhook URL"@, url) + seq![nl()] + line1(Tone::Notice, "Usage examples:"@)
        + line1(Tone::Plain, "  webhook monitor --token "@ + token) + line1(
        Tone::Plain,
        "  webhook logs --token "@ + token,
    ) + seq![nl()]
}

/// The notice for a token generated because the monitor was given none.
pub open spec fn fresh_token_lines(token: Seq<char>, url: Seq<char>) -> Seq<(Tone, Seq<char>)> {
    line1(Tone::Notice, "No token provided, generated a new one:"@) + label_line("Token"@, token)
        + label_line("Webhook URL"@, url) + seq![nl()]
}

/// Appends a labelled value.
fn emit_label_line(out: &mut Vec<Piece>, label: &str, value: &str)
    ensures
        shown(final(out)@) == shown(old(out)@) + label_line(label@, value@),
{
    emit(out, Tone::Label, label);
    emit(out, Tone::Plain, ": ");
    emit(out, Tone::Bright, value);
    newline(out);
    assert(shown(final(out)@) =~= shown(old(out)@) + label_line(label@, value@));
}

/// The capture URL of `token`.
pub fn token_url(config: &Config, token: &str) -> (r: String)
    ensures
        r@ == joined_url(config.webhook.base_url@, seq![token@]),
{
    let segments: [&str; 1] = [token];
    let r = Config::join_url_segments(config.get_base_url(), &segments);
    assert(str_texts(segments@) =~= seq![token@]);
    r
}

/// The announcement of `token` and its capture URL.
pub fn token_report(config: &Config, token: String) -> (r: TokenReport)
    ensures
        r.token@ == token@,
        r.url@ == joined_url(config.webhook.base_url@, seq![token@]),
        shown(r.lines@) == token_lines(token@, r.url@),
{
    let url = token_url(config, token.as_str());
    let mut out: Vec<Piece> = Vec::new();
    emit_line(&mut out, Tone::Title, "New webhook token generated!");
    newline(&mut out);
    emit_label_line(&mut out, "Token", token.as_str());
    emit_label_line(&mut out, "Webhook URL", url.as_str());
    newline(&mut out);
    emit_line(&mut out, Tone::Notice, "Usage examples:");
    let mut monitor = owned("  webhook monitor --token ");
    append(&mut monitor, token.as_str());
    emit_line(&mut out, Tone::Plain, monitor.as_str());
    let mut logs = owned("  webhook logs --token ");
    append(&mut logs, token.as_str());
    emit_line(&mut out, Tone::Plain, logs.as_str());
    newline(&mut out);
    assert(shown(out@) =~= token_lines(token@, url@));
    TokenReport { token, url, lines: out }
}

/// A new random token, its capture URL, and the lines that announce them.
pub fn generate_token(config: &Config) -> (r: TokenReport)
    ensures
        is_v4_hyphenated(r.token@),
        r.url@ == joined_url(config.webhook.base_url@, seq![r.token@]),
        shown(r.lines@) == token_lines(r.token@, r.url@),
{
    token_report(config, new_token())
}

/// A new random token for a monitor given none, with the notice that
/// announces it.
pub fn generate_monitor_token(config: &Config) -> (r: TokenReport)
    ensures
        is_v4_hyphenated(r.token@),
        r.url@ == joined_url(config.webhook.base_url@, seq![r.token@]),
        shown(r.lines@) == fresh_token_lines(r.token@, r.url@),
{
    let token = new_token();
    let url = token_url(config, token.as_str());
    let mut out: Vec<Piece> = Vec::new();
    emit_line(&mut out, Tone::Notice, "No token provided, generated a new one:");
    emit_label_line(&mut out, "Token", token.as_str());
    emit_label_line(&mut out, "Webhook URL", url.as_str());
    newline(&mut out);
    assert(shown(out@) =~= fresh_token_lines(token@, url@));
    TokenReport { token, url, lines: out }
}

/// The lines that open a monitor session.
pub open spec fn monitor_banner_lines(token: Seq<char>, filter: Option<Seq<char>>) -> Seq<
    (Tone, Seq<char>),
> {
    line1(Tone::Title, "Starting webhook monitor..."@) + seq![
        pc(Tone::Plain, "Token: "@),
        pc(Tone::Bright, token),
        nl(),
    ] + match filter {
        Some(m) => seq![
            pc(Tone::Plain, "Filter: "@),
            pc(Tone::Heading, upper_of(m)),
            pc(Tone::Plain, " requests only"@),
            nl(),
        ],
        None => Seq::empty(),
    } + seq![pc(Tone::Plain, "Press "@), pc(Tone::Alert, "Ctrl+C"@), pc(Tone::Plain, " to quit"@), nl()]
        + rule(80)
}

/// The lines that open a monitor session on channel `token`.
pub fn monitor_banner(token: &str, method_filter: Option<&str>) -> (r: Vec<Piece>)
    ensures
        shown(r@) == monitor_banner_lines(token@, opt_str(method_filter)),
{
    let mut out: Vec<Piece> = Vec::new();
    emit_line(&mut out, Tone::Title, "Starting webhook monitor...");
    emit(&mut out, Tone::Plain, "Token: ");
    emit(&mut out, Tone::Bright, token);
    newline(&mut out);
    match method_filter {
        Some(m) => {
            emit(&mut out, Tone::Plain, "Filter: ");
            emit_string(&mut out, Tone::Heading, uppercase(m));
            emit(&mut out, Tone::Plain, " requests only");
            newline(&mut out);
        },
        None => {},
    }
    emit(&mut out, Tone::Plain, "Press ");
    emit(&mut out, Tone::Alert, "Ctrl+C");
    emit(&mut out, Tone::Plain, " to quit");
    newline(&mut out);
    emit_rule(&mut out, 80);
    assert(shown(out@) =~= monitor_banner_lines(token@, opt_str(method_filter)));
    out
}

} // verus!
