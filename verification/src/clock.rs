//! Timestamp column of the scrollback display. A line's timestamp is a
//! Unix time in seconds; the zone database supplies the local offset,
//! and the `[HH:MM:SS]` text for the offset-adjusted wall clock is
//! computed and specified here, digit by digit.

use vstd::arithmetic::div_mod::lemma_mod_multiples_vanish;
use vstd::prelude::*;

use chrono::{Offset, TimeZone};

verus! {

#[verifier::external_type_specification]
#[verifier::external_body]
pub struct ExTz(chrono_tz::Tz);

/// Relies on chrono_tz's zone database through
/// chrono::TimeZone::offset_from_utc_datetime: the local offset of the
/// given zone at the given Unix time, in seconds. Offsets are bounded
/// by a day in either direction (chrono's FixedOffset admits no more);
/// a timestamp outside chrono's representable range yields `None`.
#[verifier::external_body]
pub(crate) fn utc_offset(tz: &chrono_tz::Tz, ts_secs: i64) -> (r: Option<i64>)
    ensures
        r matches Some(o) ==> -86400 <= o <= 86400,
{
    match chrono::DateTime::from_timestamp(ts_secs, 0) {
        Some(dt) => Some(
            tz.offset_from_utc_datetime(&dt.naive_utc()).fix().local_minus_utc() as i64,
        ),
        None => None,
    }
}

/// The glyph of one decimal digit.
pub open spec fn digit_char(d: int) -> char {
    if d == 0 {
        '0'
    } else if d == 1 {
        '1'
    } else if d == 2 {
        '2'
    } else if d == 3 {
        '3'
    } else if d == 4 {
        '4'
    } else if d == 5 {
        '5'
    } else if d == 6 {
        '6'
    } else if d == 7 {
        '7'
    } else if d == 8 {
        '8'
    } else {
        '9'
    }
}

/// Seconds since local midnight at the given Unix time and offset.
pub open spec fn day_seconds(ts: int, off: int) -> int {
    (ts + off) % 86400
}

/// The bracketed wall-clock text for a timestamp at a local offset.
pub open spec fn clock_text(ts: int, off: int) -> Seq<char> {
    let s = day_seconds(ts, off);
    let h = s / 3600;
    let m = (s / 60) % 60;
    let sec = s % 60;
    seq![
        '[',
        digit_char(h / 10),
        digit_char(h % 10),
        ':',
        digit_char(m / 10),
        digit_char(m % 10),
        ':',
        digit_char(sec / 10),
        digit_char(sec % 10),
        ']',
    ]
}

/// The glyph of one decimal digit.
fn digit(d: u64) -> (c: char)
    requires
        d < 10,
    ensures
        c == digit_char(d as int),
{
    if d == 0 {
        '0'
    } else if d == 1 {
        '1'
    } else if d == 2 {
        '2'
    } else if d == 3 {
        '3'
    } else if d == 4 {
        '4'
    } else if d == 5 {
        '5'
    } else if d == 6 {
        '6'
    } else if d == 7 {
        '7'
    } else if d == 8 {
        '8'
    } else {
        '9'
    }
}

/// Renders `[HH:MM:SS]` for the given Unix time at the given offset.
pub fn format_clock(ts: i64, off: i64) -> (r: String)
    ensures
        r@ == clock_text(ts as int, off as int),
{
    // A day's worth of seconds, shifted far enough into the positive
    // range that any i64 pair lands above zero; the shift is a multiple
    // of 86400, so the time of day is unchanged.
    let local: i128 = ts as i128 + off as i128;
    let shift: i128 = 86400i128 * 288230376151711744i128;
    let shifted: i128 = local + shift;
    proof {
        assert(shifted >= 0);
        lemma_mod_multiples_vanish(288230376151711744int, local as int, 86400int);
        assert((shifted as int) % 86400 == day_seconds(ts as int, off as int));
    }
    let s: u64 = (shifted % 86400) as u64;
    proof {
        assert(s as int == day_seconds(ts as int, off as int));
        assert(0 <= s < 86400);
    }
    let h: u64 = s / 3600;
    let m: u64 = (s / 60) % 60;
    let sec: u64 = s % 60;
    proof {
        assert(h < 24);
    }
    let mut r = String::new();
    crate::text::push_char(&mut r, '[');
    crate::text::push_char(&mut r, digit(h / 10));
    crate::text::push_char(&mut r, digit(h % 10));
    crate::text::push_char(&mut r, ':');
    crate::text::push_char(&mut r, digit(m / 10));
    crate::text::push_char(&mut r, digit(m % 10));
    crate::text::push_char(&mut r, ':');
    crate::text::push_char(&mut r, digit(sec / 10));
    crate::text::push_char(&mut r, digit(sec % 10));
    crate::text::push_char(&mut r, ']');
    proof {
        assert(r@ =~= clock_text(ts as int, off as int));
    }
    r
}

} // verus!
