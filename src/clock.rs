//! Timestamps shown as local and UTC times of day.

use vstd::prelude::*;
use vstd::arithmetic::div_mod::{lemma_fundamental_div_mod, lemma_fundamental_div_mod_converse};
use crate::text::{append, digit, digit_char, owned, push_char};

verus! {

/// The instant an RFC 3339 text names, in seconds since the Unix epoch, as
/// chrono parses it; `None` when chrono rejects the text.
pub uninterp spec fn rfc3339_instant(s: Seq<char>) -> Option<i64>;

/// Relies on chrono's `DateTime::parse_from_rfc3339` and
/// `DateTime::timestamp`: the instant the text names.
#[verifier::external_body]
fn parse_rfc3339(s: &str) -> (r: Option<i64>)
    ensures
        r == rfc3339_instant(s@),
{
    match chrono::DateTime::parse_from_rfc3339(s) {
        Ok(dt) => Some(dt.timestamp()),
        Err(_) => None,
    }
}

/// Relies on chrono's `Local` time zone: this machine's offset from UTC at
/// the instant `ts`, in seconds. chrono's `FixedOffset` keeps it within a
/// day; `None` when chrono cannot represent the instant. When the machine's
/// time-zone data cannot be read, chrono falls back to UTC.
#[verifier::external_body]
fn local_offset_at(ts: i64) -> (r: Option<i32>)
    ensures
        r matches Some(o) ==> -86400 < o < 86400,
{
    match chrono::DateTime::from_timestamp(ts, 0) {
        Some(dt) => Some(dt.with_timezone(&chrono::Local).offset().local_minus_utc()),
        None => None,
    }
}

/// `n` as two decimal digits.
pub open spec fn pad2(n: int) -> Seq<char> {
    seq![digit(n / 10), digit(n % 10)]
}

/// The time of day at instant `t`, as `HH:MM:SS`.
pub open spec fn clock_text(t: int) -> Seq<char> {
    let d = t % 86400;
    pad2(d / 3600) + seq![':'] + pad2((d % 3600) / 60) + seq![':'] + pad2(d % 60)
}

/// An instant shown at a local offset and in UTC: `HH:MM:SS (HH:MM:SS UTC)`.
pub open spec fn date_text(utc: int, offset: int) -> Seq<char> {
    clock_text(utc + offset) + " ("@ + clock_text(utc) + " UTC)"@
}

/// `shown` is how the timestamp text `s` may be shown: unchanged when it is
/// not RFC 3339, else its instant at some offset within a day, and in UTC.
pub open spec fn date_shown(s: Seq<char>, shown: Seq<char>) -> bool {
    match rfc3339_instant(s) {
        None => shown == s,
        Some(u) => exists|off: int| -86400 < off < 86400 && shown == date_text(u as int, off),
    }
}

/// Seconds since midnight at instant `t`.
fn day_seconds(t: i64) -> (r: u32)
    ensures
        r == t % 86400,
        r < 86400,
{
    if t >= 0 {
        (t % 86400) as u32
    } else {
        let a = (-(t + 1)) as u64;
        let m = a % 86400;
        proof {
            lemma_fundamental_div_mod(a as int, 86400);
            let q = a as int / 86400;
            assert(t == (-q - 1) * 86400 + (86399 - m)) by (nonlinear_arith)
                requires
                    a == 86400 * q + m,
                    a == -(t + 1),
            ;
            lemma_fundamental_div_mod_converse(t as int, 86400, -q - 1, 86399 - m);
        }
        (86399 - m) as u32
    }
}

/// The time of day for `d` seconds past midnight, as `HH:MM:SS`.
pub fn clock_of(d: u32) -> (r: String)
    requires
        d < 86400,
    ensures
        r@ == clock_text(d as int),
{
    let h = d / 3600;
    let m = (d % 3600) / 60;
    let s = d % 60;
    let mut r = String::new();
    push_char(&mut r, digit_char(h / 10));
    push_char(&mut r, digit_char(h % 10));
    push_char(&mut r, ':');
    push_char(&mut r, digit_char(m / 10));
    push_char(&mut r, digit_char(m % 10));
    push_char(&mut r, ':');
    push_char(&mut r, digit_char(s / 10));
    push_char(&mut r, digit_char(s % 10));
    assert((d as int) % 86400 == d as int);
    assert(r@ =~= clock_text(d as int));
    r
}

/// Shifting the time of day of `utc` by `offset` gives the time of day of
/// `utc + offset`.
proof fn lemma_shifted_day(utc: int, offset: int, shifted: int)
    requires
        shifted == utc % 86400 + offset,
    ensures
        shifted % 86400 == (utc + offset) % 86400,
{
    lemma_fundamental_div_mod(utc, 86400);
    let q = utc / 86400;
    let d = utc % 86400;
    assert(utc + offset == q * 86400 + shifted) by (nonlinear_arith)
        requires
            utc == 86400 * q + d,
            shifted == d + offset,
    ;
    lemma_fundamental_div_mod(shifted, 86400);
    let p = shifted / 86400;
    let local = shifted % 86400;
    assert(0 <= local < 86400);
    assert(utc + offset == (q + p) * 86400 + local) by (nonlinear_arith)
        requires
            utc + offset == q * 86400 + shifted,
            shifted == 86400 * p + local,
    ;
    lemma_fundamental_div_mod_converse(utc + offset, 86400, q + p, local);
}

/// An instant shown at `offset` seconds from UTC, and in UTC.
pub fn format_clock_pair(utc: i64, offset: i32) -> (r: String)
    requires
        -86400 < offset < 86400,
    ensures
        r@ == date_text(utc as int, offset as int),
{
    let d = day_seconds(utc);
    let shifted: i64 = d as i64 + offset as i64;
    let local = day_seconds(shifted);
    proof {
        lemma_shifted_day(utc as int, offset as int, shifted as int);
    }
    let mut r = clock_of(local);
    assert(r@ == clock_text(utc + offset)) by {
        assert((local as int) % 86400 == (utc + offset) % 86400);
    }
    append(&mut r, " (");
    let u = clock_of(d);
    assert(u@ == clock_text(utc as int));
    append(&mut r, u.as_str());
    append(&mut r, " UTC)");
    r
}

/// A timestamp as shown: local and UTC times of day when it is RFC 3339,
/// else the text as received.
pub fn format_date(date_str: &str) -> (r: String)
    ensures
        date_shown(date_str@, r@),
{
    match parse_rfc3339(date_str) {
        Some(utc) => {
            let offset = match local_offset_at(utc) {
                Some(o) => o,
                None => 0,
            };
            let r = format_clock_pair(utc, offset);
            assert(-86400 < offset as int && offset < 86400 && r@ == date_text(utc as int, offset as int));
            r
        },
        None => owned(date_str),
    }
}

} // verus!
