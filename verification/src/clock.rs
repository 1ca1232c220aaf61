//! The time overlay text: `H:MM`, hour unpadded, minute zero-padded.

use vstd::prelude::*;
use chrono::Timelike;

verus! {

/// Relies on chrono's Local::now with Timelike::hour and
/// Timelike::minute: the hour is within 0 to 23 and the minute within 0
/// to 59.  The reading depends on the clock; nothing more is promised.
#[verifier::external_body]
pub(crate) fn local_hour_minute() -> (r: (u32, u32))
    ensures
        r.0 < 24,
        r.1 < 60,
{
    let now = chrono::Local::now().time();
    (now.hour(), now.minute())
}

/// One decimal digit as its character.
pub open spec fn spec_digit_char(d: int) -> char {
    if d == 0 {
        '0'
    } else if d == 1 {
        '1'
    } else if d == 2 {
        '2'
    } else if d == 3 {
        '3'
    } else if d == 4 {
        '4'
    } else if d == 5 {
        '5'
    } else if d == 6 {
        '6'
    } else if d == 7 {
        '7'
    } else if d == 8 {
        '8'
    } else {
        '9'
    }
}

fn digit_str(d: u32) -> (r: &'static str)
    requires
        d < 10,
    ensures
        r@ =~= seq![spec_digit_char(d as int)],
{
    proof {
        reveal_strlit("0");
        reveal_strlit("1");
        reveal_strlit("2");
        reveal_strlit("3");
        reveal_strlit("4");
        reveal_strlit("5");
        reveal_strlit("6");
        reveal_strlit("7");
        reveal_strlit("8");
        reveal_strlit("9");
    }
    match d {
        0 => "0",
        1 => "1",
        2 => "2",
        3 => "3",
        4 => "4",
        5 => "5",
        6 => "6",
        7 => "7",
        8 => "8",
        _ => "9",
    }
}

/// The clock text for a given hour and minute: the hour as written, a
/// colon, then the minute padded to two digits.
pub open spec fn spec_clock_text(hour: int, minute: int) -> Seq<char> {
    (if hour < 10 {
        seq![spec_digit_char(hour)]
    } else {
        seq![spec_digit_char(hour / 10), spec_digit_char(hour % 10)]
    }) + seq![':'] + seq![spec_digit_char(minute / 10), spec_digit_char(minute % 10)]
}

/// Formats `H:MM`.
pub fn format_clock(hour: u32, minute: u32) -> (r: String)
    requires
        hour < 24,
        minute < 60,
    ensures
        r@ == spec_clock_text(hour as int, minute as int),
{
    let mut r = String::new();
    if hour >= 10 {
        r.append(digit_str(hour / 10));
    }
    r.append(digit_str(hour % 10));
    let colon = ":";
    proof {
        reveal_strlit(":");
        assert(colon@ =~= seq![':']);
    }
    r.append(colon);
    r.append(digit_str(minute / 10));
    r.append(digit_str(minute % 10));
    proof {
        assert(r@ =~= spec_clock_text(hour as int, minute as int));
    }
    r
}

} // verus!
