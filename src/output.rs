//! Rendered output: a flat sequence of toned text pieces.
//!
//! The library decides what is shown and how it is emphasised; the caller
//! maps each tone to terminal styling and prints the pieces in order.

use vstd::prelude::*;
use crate::text::{owned, push_char};

verus! {

/// The emphasis a piece of text is shown with.
#[derive(Clone, Copy, Debug, PartialEq, Eq, Structural)]
pub enum Tone {
    /// Unstyled text, separators and line breaks.
    Plain,
    /// De-emphasised text: timestamps, ids, rules, empty-body markers.
    Muted,
    /// Emphasised content: paths, bodies, header values.
    Bright,
    /// Section heading such as `HEADERS`.
    Heading,
    /// Top-level title such as `REQUEST DETAILS`.
    Title,
    /// Field label such as `ID` or `Token`.
    Label,
    /// Header names and JSON-pointer paths.
    Key,
    /// Hints and informational notices.
    Notice,
    /// Errors and unresolved fields.
    Alert,
    /// JSON text, shown with syntax highlighting.
    Json,
    /// The GET method.
    Get,
    /// The POST method.
    Post,
    /// The PUT method.
    Put,
    /// The DELETE method.
    Delete,
    /// The PATCH method.
    Patch,
    /// Any other method.
    OtherMethod,
}

/// One piece of rendered text with its tone.
#[derive(Debug)]
pub struct Piece {
    pub tone: Tone,
    pub text: String,
}

impl View for Piece {
    type V = (Tone, Seq<char>);

    open spec fn view(&self) -> (Tone, Seq<char>) {
        (self.tone, self.text@)
    }
}

/// What a sequence of pieces shows.
pub open spec fn shown(p: Seq<Piece>) -> Seq<(Tone, Seq<char>)> {
    p.map_values(|x: Piece| x@)
}

/// A line break.
pub open spec fn nl() -> (Tone, Seq<char>) {
    (Tone::Plain, seq!['\n'])
}

/// A piece of `tone` showing `s`.
pub open spec fn pc(tone: Tone, s: Seq<char>) -> (Tone, Seq<char>) {
    (tone, s)
}

/// A line made of a single piece.
pub open spec fn line1(tone: Tone, s: Seq<char>) -> Seq<(Tone, Seq<char>)> {
    seq![(tone, s), nl()]
}

/// `n` copies of `c`.
pub open spec fn repeat(c: char, n: nat) -> Seq<char> {
    Seq::new(n, |i: int| c)
}

/// A horizontal rule of `n` copies of `c`.
pub open spec fn rule_of(c: char, n: nat) -> Seq<(Tone, Seq<char>)> {
    line1(Tone::Muted, repeat(c, n))
}

/// A horizontal rule of `n` light box-drawing characters.
pub open spec fn rule(n: nat) -> Seq<(Tone, Seq<char>)> {
    rule_of('─', n)
}

/// Appends one piece.
pub fn emit_string(out: &mut Vec<Piece>, tone: Tone, text: String)
    ensures
        shown(final(out)@) == shown(old(out)@).push((tone, text@)),
{
    let ghost before = out@;
    out.push(Piece { tone, text });
    assert(shown(out@) =~= shown(before).push((tone, out@.last().text@)));
}

/// Appends one piece showing `text`.
pub fn emit(out: &mut Vec<Piece>, tone: Tone, text: &str)
    ensures
        shown(final(out)@) == shown(old(out)@).push((tone, text@)),
{
    emit_string(out, tone, owned(text));
}

/// Ends the current line.
pub fn newline(out: &mut Vec<Piece>)
    ensures
        shown(final(out)@) == shown(old(out)@).push(nl()),
{
    let s = "\n";
    proof {
        reveal_strlit("\n");
        assert(s@ =~= seq!['\n']);
    }
    emit(out, Tone::Plain, s);
}

/// Appends a whole line of one piece.
pub fn emit_line(out: &mut Vec<Piece>, tone: Tone, text: &str)
    ensures
        shown(final(out)@) == shown(old(out)@) + line1(tone, text@),
{
    emit(out, tone, text);
    newline(out);
    assert(shown(final(out)@) =~= shown(old(out)@) + line1(tone, text@));
}

/// Appends a horizontal rule of `n` copies of `c`.
pub fn emit_rule_of(out: &mut Vec<Piece>, c: char, n: usize)
    ensures
        shown(final(out)@) == shown(old(out)@) + rule_of(c, n as nat),
{
    let mut s = String::new();
    let mut i: usize = 0;
    while i < n
        invariant
            i <= n,
            s@ == repeat(c, i as nat),
        decreases n - i,
    {
        push_char(&mut s, c);
        assert(s@ =~= repeat(c, (i + 1) as nat));
        i = i + 1;
    }
    emit_string(out, Tone::Muted, s);
    newline(out);
    assert(shown(final(out)@) =~= shown(old(out)@) + rule_of(c, n as nat));
}

/// Appends a horizontal rule of `n` light box-drawing characters.
pub fn emit_rule(out: &mut Vec<Piece>, n: usize)
    ensures
        shown(final(out)@) == shown(old(out)@) + rule(n as nat),
{
    emit_rule_of(out, '─', n);
}

/// Appends `more` after `out`.
pub fn emit_all(out: &mut Vec<Piece>, more: Vec<Piece>)
    ensures
        shown(final(out)@) == shown(old(out)@) + shown(more@),
{
    let mut rest = more;
    let ghost before = out@;
    let ghost added = rest@;
    out.append(&mut rest);
    assert(shown(out@) =~= shown(before) + shown(added));
}

} // verus!
