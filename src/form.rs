//! URL-encoded form bodies: one `key: value` line per pair.

use vstd::prelude::*;
use crate::text::{append, chars_of, owned, string_of};

verus! {

/// What `urlencoding::decode` gives for a text: the percent-decoded text, or
/// `None` when the decoded bytes are not UTF-8.
pub uninterp spec fn percent_decode_of(s: Seq<char>) -> Option<Seq<char>>;

/// Relies on `urlencoding::decode`: percent-decodes `%xx` escapes, leaves `+`
/// as it is, fails only when the decoded bytes are not UTF-8, and hands back
/// a text without `%` unchanged.
#[verifier::external_body]
fn percent_decode(s: &str) -> (r: Option<String>)
    ensures
        r is Some <==> percent_decode_of(s@) is Some,
        r matches Some(d) ==> percent_decode_of(s@) == Some(d@),
        !s@.contains('%') ==> r is Some,
        r matches Some(d) ==> (!s@.contains('%') ==> d@ == s@),
{
    match urlencoding::decode(s) {
        Ok(d) => Some(d.into_owned()),
        Err(_) => None,
    }
}

/// A form component as shown: decoded when it decodes, else as received.
pub open spec fn shown_component(s: Seq<char>) -> Seq<char> {
    match percent_decode_of(s) {
        Some(d) => d,
        None => s,
    }
}

/// First index at or after `i` holding `c`, or the length of `s`.
pub open spec fn next_index(s: Seq<char>, c: char, i: int) -> int
    decreases s.len() - i,
{
    if i < 0 || i >= s.len() {
        s.len() as int
    } else if s[i] == c {
        i
    } else {
        next_index(s, c, i + 1)
    }
}

/// The parts of `s[i..]` between occurrences of `c`.
pub open spec fn split_from(s: Seq<char>, c: char, i: int) -> Seq<Seq<char>>
    decreases s.len() + 1 - i,
{
    let j = next_index(s, c, i);
    if i < 0 || i > s.len() || j >= s.len() || j < i {
        seq![s.subrange(i, s.len() as int)]
    } else {
        seq![s.subrange(i, j)] + split_from(s, c, j + 1)
    }
}

/// The parts of `s` between occurrences of `c`, as `str::split` gives them.
pub open spec fn split_on(s: Seq<char>, c: char) -> Seq<Seq<char>> {
    split_from(s, c, 0)
}

/// One pair as shown: `key: value` when it holds `=`, else as received.
pub open spec fn pair_line(p: Seq<char>) -> Seq<char> {
    let j = next_index(p, '=', 0);
    if j < p.len() {
        shown_component(p.subrange(0, j)) + ": "@ + shown_component(p.subrange(j + 1, p.len() as int))
    } else {
        p
    }
}

/// The shown pairs, joined by line breaks.
pub open spec fn joined_pairs(ps: Seq<Seq<char>>) -> Seq<char>
    decreases ps.len(),
{
    if ps.len() == 0 {
        Seq::empty()
    } else if ps.len() == 1 {
        pair_line(ps[0])
    } else {
        joined_pairs(ps.drop_last()) + seq!['\n'] + pair_line(ps.last())
    }
}

/// The form body as shown.
pub open spec fn form_text(body: Seq<char>) -> Seq<char> {
    joined_pairs(split_on(body, '&'))
}

/// Index of the first `c` at or after `i`, or the length.
fn next_index_of(v: &Vec<char>, c: char, i: usize) -> (r: usize)
    requires
        i <= v@.len(),
    ensures
        r == next_index(v@, c, i as int),
        i <= r <= v@.len(),
{
    let mut j = i;
    while j < v.len() && v[j] != c
        invariant
            i <= j <= v@.len(),
            next_index(v@, c, i as int) == next_index(v@, c, j as int),
        decreases v@.len() - j,
    {
        j = j + 1;
    }
    j
}

/// A form component as shown: decoded when it decodes, else as received.
pub fn decode_component(s: &str) -> (r: String)
    ensures
        r@ == shown_component(s@),
        !s@.contains('%') ==> r@ == s@,
{
    match percent_decode(s) {
        Some(d) => d,
        None => owned(s),
    }
}

/// One `key=value` pair as shown.
pub fn format_pair(p: &str) -> (r: String)
    ensures
        r@ == pair_line(p@),
{
    let v = chars_of(p);
    let j = next_index_of(&v, '=', 0);
    if j < v.len() {
        let key = string_of(&v, 0, j);
        let value = string_of(&v, j + 1, v.len());
        let mut r = decode_component(key.as_str());
        append(&mut r, ": ");
        let dv = decode_component(value.as_str());
        append(&mut r, dv.as_str());
        r
    } else {
        owned(p)
    }
}

/// A URL-encoded form body, one `key: value` line per `&`-separated pair.
pub fn format_form_data(data: &str) -> (r: String)
    ensures
        r@ == form_text(data@),
{
    let v = chars_of(data);
    let mut r = String::new();
    let mut i: usize = 0;
    let ghost mut done: Seq<Seq<char>> = Seq::empty();
    loop
        invariant
            i <= v@.len(),
            v@ == data@,
            done + split_from(v@, '&', i as int) == split_on(v@, '&'),
            r@ == joined_pairs(done),
            (i == 0) == (done.len() == 0),
        decreases v@.len() - i,
    {
        let j = next_index_of(&v, '&', i);
        let part = string_of(&v, i, j);
        let line = format_pair(part.as_str());
        if i > 0 {
            push_break(&mut r);
        }
        append(&mut r, line.as_str());
        proof {
            let nd = done.push(part@);
            assert(nd.drop_last() =~= done);
            if done.len() == 0 {
                assert(r@ =~= joined_pairs(nd));
            }
            done = nd;
        }
        if j >= v.len() {
            assert(split_from(v@, '&', i as int) =~= seq![part@]);
            assert(done =~= split_on(v@, '&'));
            return r;
        }
        assert(split_from(v@, '&', i as int) =~= seq![part@] + split_from(v@, '&', j + 1));
        assert(done + split_from(v@, '&', j + 1) =~= split_on(v@, '&'));
        i = j + 1;
    }
}

/// Appends a line break.
fn push_break(s: &mut String)
    ensures
        final(s)@ == old(s)@ + seq!['\n'],
{
    crate::text::push_char(s, '\n');
}

} // verus!
