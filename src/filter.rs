//! Selecting records by HTTP method.

use vstd::prelude::*;
use crate::model::WebhookRequest;
use crate::text::{lower_of, lowercase, text_eq};

verus! {

/// The characters of an optional text.
pub open spec fn opt_str(o: Option<&str>) -> Option<Seq<char>> {
    match o {
        Some(s) => Some(s@),
        None => None,
    }
}

/// Whether a method passes the filter: always without one, else when both
/// lowercase to the same text.
pub open spec fn method_selected(method: Seq<char>, filter: Option<Seq<char>>) -> bool {
    match filter {
        None => true,
        Some(f) => lower_of(method) == lower_of(f),
    }
}

/// Positions, in order, of the records whose method passes the filter.
pub open spec fn selected(reqs: Seq<WebhookRequest>, filter: Option<Seq<char>>) -> Seq<int>
    decreases reqs.len(),
{
    if reqs.len() == 0 {
        Seq::empty()
    } else {
        let before = selected(reqs.drop_last(), filter);
        if method_selected(reqs.last().message_object.method@, filter) {
            before.push(reqs.len() - 1)
        } else {
            before
        }
    }
}

/// Whether two lowercased methods are the same.
pub fn same_lowered(method_lower: &str, filter_lower: &str) -> (r: bool)
    ensures
        r == (method_lower@ == filter_lower@),
{
    text_eq(method_lower, filter_lower)
}

/// Whether the record's method passes the filter, ignoring case.
pub fn method_matches(request: &WebhookRequest, method_filter: Option<&str>) -> (r: bool)
    ensures
        r == method_selected(request.message_object.method@, opt_str(method_filter)),
{
    match method_filter {
        None => true,
        Some(f) => {
            let m = lowercase(request.message_object.method.as_str());
            let l = lowercase(f);
            same_lowered(m.as_str(), l.as_str())
        },
    }
}

/// Positions, in fetch order, of the records that pass the filter.
pub fn filter_requests(requests: &Vec<WebhookRequest>, method_filter: Option<&str>) -> (r: Vec<usize>)
    ensures
        r@.map_values(|i: usize| i as int) == selected(requests@, opt_str(method_filter)),
        forall|k: int| 0 <= k < r@.len() ==> r@[k] < requests@.len(),
{
    let mut r: Vec<usize> = Vec::new();
    let mut i: usize = 0;
    while i < requests.len()
        invariant
            i <= requests@.len(),
            r@.map_values(|i: usize| i as int) == selected(requests@.take(i as int), opt_str(method_filter)),
            forall|k: int| 0 <= k < r@.len() ==> r@[k] < i,
        decreases requests@.len() - i,
    {
        let keep = method_matches(&requests[i], method_filter);
        let ghost prev = r@;
        if keep {
            r.push(i);
        }
        proof {
            let t = requests@.take(i + 1);
            assert(t.drop_last() =~= requests@.take(i as int));
            assert(t.last() == requests@[i as int]);
            if keep {
                assert(r@.map_values(|i: usize| i as int) =~= prev.map_values(|i: usize| i as int).push(
                    i as int,
                ));
            }
        }
        i = i + 1;
    }
    assert(requests@.take(i as int) =~= requests@);
    r
}

/// Without a filter every record is selected, whatever its method.
pub proof fn lemma_no_filter_keeps_all(reqs: Seq<WebhookRequest>)
    ensures
        selected(reqs, None) == Seq::new(reqs.len(), |i: int| i),
    decreases reqs.len(),
{
    if reqs.len() > 0 {
        lemma_no_filter_keeps_all(reqs.drop_last());
        assert(selected(reqs, None) =~= Seq::new(reqs.len(), |i: int| i));
    }
}

/// Methods that lowercase alike pass or fail a filter alike, so `GET`,
/// `Get` and `get` are treated the same.
pub proof fn lemma_filter_ignores_case(a: Seq<char>, b: Seq<char>, filter: Option<Seq<char>>)
    requires
        lower_of(a) == lower_of(b),
    ensures
        method_selected(a, filter) == method_selected(b, filter),
{
}

/// The selected positions are increasing, in range, and name exactly the
/// records whose method passes the filter: exact equality of lowercase
/// forms, no substring or wildcard.
pub proof fn lemma_selected_sound(reqs: Seq<WebhookRequest>, filter: Option<Seq<char>>)
    ensures
        forall|k: int|
            0 <= k < selected(reqs, filter).len() ==> 0 <= #[trigger] selected(reqs, filter)[k]
                < reqs.len() && method_selected(reqs[selected(reqs, filter)[k]].message_object.method@, filter),
        forall|k: int, l: int|
            0 <= k < l < selected(reqs, filter).len() ==> #[trigger] selected(reqs, filter)[k]
                < #[trigger] selected(reqs, filter)[l],
        forall|i: int|
            0 <= i < reqs.len() && method_selected(#[trigger] reqs[i].message_object.method@, filter)
                ==> selected(reqs, filter).contains(i),
    decreases reqs.len(),
{
    if reqs.len() > 0 {
        let d = reqs.drop_last();
        lemma_selected_sound(d, filter);
        let sd = selected(d, filter);
        assert forall|i: int| 0 <= i < d.len() implies #[trigger] d[i] == reqs[i] by {}
        assert forall|i: int|
            0 <= i < reqs.len() && method_selected(#[trigger] reqs[i].message_object.method@, filter)
                implies selected(reqs, filter).contains(i) by {
            if i < d.len() {
                assert(method_selected(d[i].message_object.method@, filter));
                let k = choose|k: int| 0 <= k < sd.len() && sd[k] == i;
                assert(selected(reqs, filter)[k] == i);
            } else {
                let s = selected(reqs, filter);
                assert(s[s.len() - 1] == i);
            }
        }
    }
}

} // verus!
