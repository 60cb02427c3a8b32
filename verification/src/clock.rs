//! Wall-clock access through the `time` crate, and the text forms the client
//! prints: `[HH:MM:SS]` for line prefixes and `YYYY-MM-DD HH:MM` for dates.
//!
//! What the clock and the local offset say depends on when and where the
//! program runs, so nothing here names their results; the verified functions
//! state what holds of every outcome.
use vstd::prelude::*;
use time::{OffsetDateTime, UtcOffset};
use crate::text::{dec, extend, repeat_char, repeat_exec, u64_dec};

verus! {

#[verifier::external_type_specification]
#[verifier::external_body]
pub struct ExOffsetDateTime(OffsetDateTime);

#[verifier::external_type_specification]
#[verifier::external_body]
pub struct ExUtcOffset(UtcOffset);

/// `OffsetDateTime::now_local`: the current time in the local offset, or
/// `None` when the offset cannot be determined. Nothing is claimed of the value.
#[verifier::external_body]
fn now_local() -> Option<OffsetDateTime> {
    OffsetDateTime::now_local().ok()
}

/// `OffsetDateTime::now_utc`: the current time in UTC. Nothing is claimed of
/// the value.
#[verifier::external_body]
fn now_utc() -> OffsetDateTime {
    OffsetDateTime::now_utc()
}

/// `OffsetDateTime::to_hms`: the clock hour, minute and second, which the
/// crate keeps within 0..=23, 0..=59 and 0..=59.
#[verifier::external_body]
fn to_hms(t: &OffsetDateTime) -> (r: (u8, u8, u8))
    ensures
        r.0 < 24,
        r.1 < 60,
        r.2 < 60,
{
    t.to_hms()
}

/// The earliest timestamp the time crate can place: -9999-01-01 00:00:00 UTC
/// (its `Date::MIN` at midnight, without the `large-dates` feature, which
/// this build does not enable).
pub const MIN_UNIX: i64 = -377_705_116_800;

/// The latest timestamp the time crate can place: 9999-12-31 23:59:59 UTC.
pub const MAX_UNIX: i64 = 253_402_300_799;

/// The largest distance of a UTC offset from UTC, in seconds (25:59:59).
pub const MAX_OFFSET: i32 = 93_599;

/// Leap years of the proleptic Gregorian calendar.
pub open spec fn is_leap(y: int) -> bool {
    y % 4 == 0 && (y % 100 != 0 || y % 400 == 0)
}

/// How many leap years come before year `y`, counted from a fixed origin;
/// only differences of it matter.
pub open spec fn leaps_before(y: int) -> int {
    (y - 1) / 4 - (y - 1) / 100 + (y - 1) / 400
}

/// The number of days in month `m` (1 = January) of year `y`.
pub open spec fn month_len(y: int, m: int) -> int {
    if m == 2 {
        if is_leap(y) { 29 } else { 28 }
    } else if m == 4 || m == 6 || m == 9 || m == 11 {
        30
    } else {
        31
    }
}

/// The days of year `y` before the first of month `m`.
pub open spec fn days_before_month(y: int, m: int) -> int {
    (if m <= 1 { 0int }
    else if m == 2 { 31 }
    else if m == 3 { 59 }
    else if m == 4 { 90 }
    else if m == 5 { 120 }
    else if m == 6 { 151 }
    else if m == 7 { 181 }
    else if m == 8 { 212 }
    else if m == 9 { 243 }
    else if m == 10 { 273 }
    else if m == 11 { 304 }
    else { 334 }) + (if m > 2 && is_leap(y) { 1int } else { 0int })
}

/// The day `y-m-d` counted from 1970-01-01 (day 0), negative before it.
pub open spec fn days_from_epoch(y: int, m: int, d: int) -> int {
    365 * (y - 1970) + leaps_before(y) - leaps_before(1970) + days_before_month(y, m) + d - 1
}

/// The unix time of `y-mo-d h:mi:s` UTC.
pub open spec fn seconds_of(y: int, mo: u8, d: u8, h: u8, mi: u8, s: u8) -> int {
    days_from_epoch(y, mo as int, d as int) * 86400 + h * 3600 + mi * 60 + s
}

/// A valid date and time of the crate's calendar.
pub open spec fn is_civil(y: int, mo: u8, d: u8, h: u8, mi: u8, s: u8) -> bool {
    &&& -9999 <= y <= 9999
    &&& 1 <= mo <= 12
    &&& 1 <= d <= month_len(y, mo as int)
    &&& h < 24
    &&& mi < 60
    &&& s < 60
}

/// `OffsetDateTime::from_unix_timestamp`, the UTC date and time it gives read
/// out as plain fields with `to_calendar_date` and `to_hms`: year, month
/// (1 = January), day, hour, minute, second. The crate accepts exactly the
/// timestamps from `MIN_UNIX` to `MAX_UNIX` and places them in the proleptic
/// Gregorian calendar, a day being 86400 seconds.
#[verifier::external_body]
fn from_unix_timestamp(unix: i64) -> (r: Option<(i32, u8, u8, u8, u8, u8)>)
    ensures
        r is Some <==> MIN_UNIX <= unix <= MAX_UNIX,
        r matches Some(f) ==> is_civil(f.0 as int, f.1, f.2, f.3, f.4, f.5) && seconds_of(
            f.0 as int,
            f.1,
            f.2,
            f.3,
            f.4,
            f.5,
        ) == unix,
{
    match OffsetDateTime::from_unix_timestamp(unix) {
        Ok(t) => {
            let (y, m, d) = t.to_calendar_date();
            let (h, mi, s) = t.to_hms();
            Some((y, m as u8, d, h, mi, s))
        },
        Err(_) => None,
    }
}

/// `UtcOffset::current_local_offset`, as the offset's whole seconds east of
/// UTC (`whole_seconds`), or `None` when it cannot be determined. The crate
/// keeps every offset within 25:59:59 of UTC. Which offset it is, the machine
/// decides; nothing more is claimed.
#[verifier::external_body]
fn local_offset() -> (r: Option<i32>)
    ensures
        r matches Some(o) ==> -MAX_OFFSET <= o <= MAX_OFFSET,
{
    match UtcOffset::current_local_offset() {
        Ok(o) => Some(o.whole_seconds()),
        Err(_) => None,
    }
}

/// `s` left-padded with zeros to at least `w` characters.
pub open spec fn pad(s: Seq<char>, w: nat) -> Seq<char> {
    if s.len() < w {
        repeat_char('0', (w - s.len()) as nat) + s
    } else {
        s
    }
}

fn pad_exec(s: Vec<char>, w: usize) -> (r: Vec<char>)
    ensures
        r@ == pad(s@, w as nat),
{
    if s.len() < w {
        let mut r = repeat_exec('0', w - s.len());
        extend(&mut r, &s);
        r
    } else {
        s
    }
}

/// `[HH:MM:SS]`, each field two digits.
pub open spec fn spec_hms_text(h: u8, m: u8, s: u8) -> Seq<char> {
    seq!['['] + pad(dec(h as nat), 2) + seq![':'] + pad(dec(m as nat), 2) + seq![':'] + pad(
        dec(s as nat),
        2,
    ) + seq![']']
}

/// `YYYY-MM-DD HH:MM`, the year signed when negative and at least four digits.
pub open spec fn spec_date_text(y: int, mo: u8, d: u8, h: u8, mi: u8) -> Seq<char> {
    (if y < 0 {
        seq!['-'] + pad(dec((-y) as nat), 4)
    } else {
        pad(dec(y as nat), 4)
    }) + seq!['-'] + pad(dec(mo as nat), 2) + seq!['-'] + pad(dec(d as nat), 2) + seq![' ']
        + pad(dec(h as nat), 2) + seq![':'] + pad(dec(mi as nat), 2)
}

/// A signed integer in decimal, as `i64::to_string` prints it.
pub open spec fn dec_int(i: int) -> Seq<char> {
    if i < 0 {
        seq!['-'] + dec((-i) as nat)
    } else {
        dec(i as nat)
    }
}

pub fn i64_dec(x: i64) -> (r: Vec<char>)
    ensures
        r@ == dec_int(x as int),
{
    if x < 0 {
        let mag: u64 = ((-(x + 1)) as u64) + 1;
        let mut r: Vec<char> = Vec::new();
        r.push('-');
        let d = u64_dec(mag);
        extend(&mut r, &d);
        r
    } else {
        u64_dec(x as u64)
    }
}

fn two(n: u8) -> (r: Vec<char>)
    ensures
        r@ == pad(dec(n as nat), 2),
{
    pad_exec(u64_dec(n as u64), 2)
}

/// The current local time (UTC when the local offset cannot be determined)
/// as `[HH:MM:SS]`.
pub fn local_now() -> (r: Vec<char>)
    ensures
        exists|h: u8, m: u8, s: u8| h < 24 && m < 60 && s < 60 && r@ == spec_hms_text(h, m, s),
{
    let t = match now_local() {
        Some(t) => t,
        None => now_utc(),
    };
    let (h, m, s) = to_hms(&t);
    let mut r: Vec<char> = Vec::new();
    r.push('[');
    extend(&mut r, &two(h));
    r.push(':');
    extend(&mut r, &two(m));
    r.push(':');
    extend(&mut r, &two(s));
    r.push(']');
    assert(r@ =~= spec_hms_text(h, m, s));
    r
}

/// `t` shows the instant `secs` (a unix time already moved into the wanted
/// offset) as `YYYY-MM-DD HH:MM`.
pub open spec fn is_date_of(secs: int, t: Seq<char>) -> bool {
    exists|y: int, mo: u8, d: u8, h: u8, mi: u8, s: u8|
        #![trigger seconds_of(y, mo, d, h, mi, s), spec_date_text(y, mo, d, h, mi)]
        is_civil(y, mo, d, h, mi, s) && seconds_of(y, mo, d, h, mi, s) == secs && t
            == spec_date_text(y, mo, d, h, mi)
}

/// How `unix` is shown at a UTC offset of `off` seconds: its date and time
/// there, or the bare number when the time crate cannot place the timestamp
/// or its time in that offset.
pub open spec fn time_text_at(unix: i64, off: int, t: Seq<char>) -> bool {
    if MIN_UNIX <= unix <= MAX_UNIX && MIN_UNIX <= unix + off <= MAX_UNIX {
        is_date_of(unix + off, t)
    } else {
        t == dec_int(unix as int)
    }
}

/// How a unix timestamp is shown in some UTC offset that the crate allows:
/// the local offset where it can be determined, else UTC.
pub open spec fn is_time_text(unix: i64, t: Seq<char>) -> bool {
    exists|off: int| -MAX_OFFSET <= off <= MAX_OFFSET && #[trigger] time_text_at(unix, off, t)
}

/// Formats a unix timestamp as a local date and time, `YYYY-MM-DD HH:MM`
/// (in UTC when the local offset cannot be determined), or as the bare
/// number when the time crate cannot place it.
pub fn human_time(unix: i64) -> (r: Vec<char>)
    ensures
        is_time_text(unix, r@),
        !(MIN_UNIX <= unix <= MAX_UNIX) ==> r@ == dec_int(unix as int),
        MIN_UNIX + MAX_OFFSET <= unix <= MAX_UNIX - MAX_OFFSET ==> exists|off: int|
            -MAX_OFFSET <= off <= MAX_OFFSET && #[trigger] is_date_of(unix + off, r@),
{
    if from_unix_timestamp(unix).is_none() {
        let r = i64_dec(unix);
        assert(time_text_at(unix, 0, r@));
        return r;
    }
    let off: i32 = match local_offset() {
        Some(o) => o,
        None => 0,
    };
    let shifted: i64 = unix + off as i64;
    match from_unix_timestamp(shifted) {
        Some((y, mo, d, h, mi, s)) => {
            let mut r: Vec<char> = Vec::new();
            if y < 0 {
                r.push('-');
                let mag = pad_exec(u64_dec((-y) as u64), 4);
                extend(&mut r, &mag);
            } else {
                let mag = pad_exec(u64_dec(y as u64), 4);
                extend(&mut r, &mag);
            }
            r.push('-');
            extend(&mut r, &two(mo));
            r.push('-');
            extend(&mut r, &two(d));
            r.push(' ');
            extend(&mut r, &two(h));
            r.push(':');
            extend(&mut r, &two(mi));
            assert(r@ =~= spec_date_text(y as int, mo, d, h, mi));
            assert(seconds_of(y as int, mo, d, h, mi, s) == shifted);
            assert(is_date_of(unix + off, r@));
            assert(time_text_at(unix, off as int, r@));
            r
        },
        None => {
            let r = i64_dec(unix);
            assert(time_text_at(unix, off as int, r@));
            r
        },
    }
}

} // verus!
