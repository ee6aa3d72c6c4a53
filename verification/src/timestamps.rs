//! Human-readable creation times of credentials.

use vstd::prelude::*;
use crate::text::push_char;

verus! {

/// What `chrono::DateTime::from_timestamp(secs, 0)` formatted with
/// "%Y-%m-%d %H:%M:%S UTC" yields: `None` when `secs` is outside chrono's
/// range of dates.
pub uninterp spec fn utc_date_text(secs: i64) -> Option<Seq<char>>;

/// Calls `chrono::DateTime::from_timestamp(secs, 0)` and, when it yields a
/// date, `format("%Y-%m-%d %H:%M:%S UTC").to_string()`. The text is stated
/// only through the name `utc_date_text` of `secs`.
#[verifier::external_body]
fn format_utc(secs: i64) -> (r: Option<String>)
    ensures
        match r {
            Some(s) => utc_date_text(secs) == Some(s@),
            None => utc_date_text(secs) is None,
        },
{
    chrono::DateTime::from_timestamp(secs, 0).map(|dt| dt.format("%Y-%m-%d %H:%M:%S UTC").to_string())
}

/// The decimal digit for `d` (`d < 10`).
pub open spec fn decimal_digit(d: nat) -> char {
    (48 + d) as char
}

/// The decimal rendering of `n`, without leading zeros ("0" for zero).
pub open spec fn decimal(n: nat) -> Seq<char>
    decreases n,
{
    if n < 10 {
        seq![decimal_digit(n)]
    } else {
        decimal(n / 10).push(decimal_digit(n % 10))
    }
}

fn digit(d: u64) -> (c: char)
    requires
        d < 10,
    ensures
        c == decimal_digit(d as nat),
{
    if d == 0 { '0' } else if d == 1 { '1' } else if d == 2 { '2' } else if d == 3 { '3' }
    else if d == 4 { '4' } else if d == 5 { '5' } else if d == 6 { '6' } else if d == 7 { '7' }
    else if d == 8 { '8' } else { '9' }
}

/// Appends the decimal rendering of `n`.
fn push_decimal(s: &mut String, n: u64)
    ensures
        final(s)@ == old(s)@ + decimal(n as nat),
    decreases n,
{
    if n >= 10 {
        push_decimal(s, n / 10);
    }
    push_char(s, digit(n % 10));
    assert(s@ =~= old(s)@ + decimal(n as nat));
}

/// The decimal rendering of `n` (as `u64::to_string` gives it).
pub fn decimal_string(n: u64) -> (s: String)
    ensures
        s@ == decimal(n as nat),
{
    let mut s = String::new();
    push_decimal(&mut s, n);
    assert(s@ =~= decimal(n as nat));
    s
}

/// The text shown for a credential created at Unix time `ts`: the UTC date
/// and time ("%Y-%m-%d %H:%M:%S UTC") of `ts` read as a signed count of
/// seconds, or the decimal number `ts` when that lies outside the range of
/// dates.
pub fn format_timestamp(ts: u64) -> (s: String)
    ensures
        s@ == match utc_date_text(ts as i64) {
            Some(text) => text,
            None => decimal(ts as nat),
        },
{
    match format_utc(ts as i64) {
        Some(text) => text,
        None => decimal_string(ts),
    }
}

} // verus!
