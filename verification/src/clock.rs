//! The library's calls into `chrono`, `chrono-tz`, `uuid` and the system clock: the
//! time now, the New York local time of a timestamp, and random identifiers.

use chrono::{Datelike, Timelike};
use vstd::prelude::*;
use vstd::string::StringExecFns;

use crate::pipeline::trades::{digit_char, digit_str, push_decimal_u64, signed_decimal};

verus! {

/// Milliseconds since the Unix epoch, from the system clock (`system_millis`), capped
/// at `i64::MAX`.
pub(crate) fn now_millis() -> (r: i64)
    ensures
        r >= 0,
{
    let m = system_millis();
    if m <= 0x7fff_ffff_ffff_ffff {
        m as i64
    } else {
        0x7fff_ffff_ffff_ffff
    }
}

/// A random identifier: `uuid::Uuid::new_v4`, as its 128-bit value (`as_u128`).
/// Nothing is stated of the value: it is drawn at random.
#[verifier::external_body]
pub(crate) fn new_id() -> u128 {
    uuid::Uuid::new_v4().as_u128()
}

/// The local hour and minute in New York (`chrono_tz::America::New_York`) of a
/// Unix timestamp in milliseconds, or `None` where chrono cannot represent it.
pub uninterp spec fn new_york_clock(ts_millis: i64) -> Option<(u32, u32)>;

/// `chrono::DateTime::from_timestamp_millis`, then `with_timezone` to
/// `chrono_tz::America::New_York`, then `hour` and `minute`. The result is named by
/// `new_york_clock`; chrono documents an hour below 24 and a minute below 60.
#[verifier::external_body]
pub(crate) fn new_york_time(ts_millis: i64) -> (r: Option<(u32, u32)>)
    ensures
        r == new_york_clock(ts_millis),
        r matches Some(hm) ==> hm.0 < 24 && hm.1 < 60,
{
    match chrono::DateTime::from_timestamp_millis(ts_millis) {
        Some(t) => {
            let local = t.with_timezone(&chrono_tz::America::New_York);
            Some((local.hour(), local.minute()))
        },
        None => None,
    }
}

/// The New York (`chrono_tz::America::New_York`) calendar date of a Unix timestamp in
/// milliseconds, as year, month and day, or `None` where chrono cannot represent it.
pub uninterp spec fn new_york_day(ts_millis: i64) -> Option<(i32, u32, u32)>;

/// `chrono::DateTime::from_timestamp_millis`, then `with_timezone` to
/// `chrono_tz::America::New_York`, then `year`, `month` and `day`. The result is named by
/// `new_york_day`; it is there exactly where `new_york_time` gives a time (both rest on
/// `from_timestamp_millis`), and chrono documents a month in 1..=12 and a day in 1..=31.
#[verifier::external_body]
pub(crate) fn new_york_date(ts_millis: i64) -> (r: Option<(i32, u32, u32)>)
    ensures
        r == new_york_day(ts_millis),
        r is Some <==> new_york_clock(ts_millis) is Some,
        r matches Some(d) ==> 1 <= d.1 <= 12 && 1 <= d.2 <= 31,
{
    match chrono::DateTime::from_timestamp_millis(ts_millis) {
        Some(t) => {
            let local = t.with_timezone(&chrono_tz::America::New_York);
            Some((local.year(), local.month(), local.day()))
        },
        None => None,
    }
}

/// Two decimal digits of a number below 100.
pub open spec fn two_digits(x: nat) -> Seq<char> {
    seq![digit_char(x / 10), digit_char(x % 10)]
}

/// A year written with four digits when in 0..=9999, else in plain signed decimal.
pub open spec fn year_text(y: int) -> Seq<char> {
    if 0 <= y <= 9999 {
        seq![
            digit_char((y / 1000) as nat),
            digit_char((y / 100 % 10) as nat),
            digit_char((y / 10 % 10) as nat),
            digit_char((y % 10) as nat),
        ]
    } else {
        signed_decimal(y)
    }
}

/// A calendar date written `YYYY-MM-DD`.
pub open spec fn date_text(year: i32, month: u32, day: u32) -> Seq<char> {
    year_text(year as int) + seq!['-'] + two_digits(month as nat) + seq!['-'] + two_digits(day as nat)
}

/// The New York date of a timestamp written `YYYY-MM-DD`, empty where there is none.
pub open spec fn new_york_date_text(ts_millis: i64) -> Seq<char> {
    match new_york_day(ts_millis) {
        Some(d) => date_text(d.0, d.1, d.2),
        None => Seq::empty(),
    }
}

/// Write a date as `date_text` does.
pub fn write_date(year: i32, month: u32, day: u32) -> (r: String)
    requires
        month < 100,
        day < 100,
    ensures
        r@ == date_text(year, month, day),
{
    proof {
        reveal_strlit("-");
    }
    let mut s = String::new();
    if 0 <= year && year <= 9999 {
        s.append(digit_str((year / 1000) as u8));
        s.append(digit_str((year / 100 % 10) as u8));
        s.append(digit_str((year / 10 % 10) as u8));
        s.append(digit_str((year % 10) as u8));
    } else if year < 0 {
        s.append("-");
        push_decimal_u64(&mut s, (-(year as i64)) as u64);
    } else {
        push_decimal_u64(&mut s, year as u64);
    }
    let ghost y = s@;
    assert(y =~= year_text(year as int));
    s.append("-");
    s.append(digit_str((month / 10) as u8));
    s.append(digit_str((month % 10) as u8));
    s.append("-");
    s.append(digit_str((day / 10) as u8));
    s.append(digit_str((day % 10) as u8));
    assert(s@ =~= date_text(year, month, day));
    s
}

/// Today's date in New York, written `YYYY-MM-DD`, from the system clock (empty where
/// chrono cannot represent the clock's reading).
pub(crate) fn new_york_today() -> (r: String)
    ensures
        exists|t: i64| r@ == new_york_date_text(t),
{
    let now = now_millis();
    let r = match new_york_date(now) {
        Some((y, m, d)) => write_date(y, m, d),
        None => String::new(),
    };
    assert(r@ == new_york_date_text(now));
    r
}

/// Milliseconds since the Unix epoch from `std::time::SystemTime::now`, measured with
/// `duration_since(UNIX_EPOCH)` (zero for a clock set before the epoch). Nothing is stated
/// of the value: it is the machine's clock.
#[verifier::external_body]
pub(crate) fn system_millis() -> u64 {
    match std::time::SystemTime::now().duration_since(std::time::UNIX_EPOCH) {
        Ok(d) => d.as_millis() as u64,
        Err(_) => 0,
    }
}

} // verus!
