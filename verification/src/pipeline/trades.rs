//! Trades, front-month contract symbols and dates in data file names.

use chrono::Datelike;
use vstd::prelude::*;
use vstd::string::{StrSliceExecFns, StringExecFns};

use crate::units::Price;

verus! {

/// Aggressor side of a trade.
#[derive(Debug, Clone, Copy, PartialEq, Eq, Structural)]
pub enum Side {
    Buy,
    Sell,
}

/// A trade. The timestamp is milliseconds since the Unix epoch.
#[derive(Debug)]
pub struct Trade {
    pub ts_event: i64,
    pub price: Price,
    pub size: u64,
    pub side: Side,
    pub symbol: String,
}

impl Trade {
    /// A copy of the trade.
    pub fn duplicate(&self) -> (r: Trade)
        ensures
            r == *self,
    {
        Trade { ts_event: self.ts_event, price: self.price, size: self.size, side: self.side, symbol: self.symbol.clone() }
    }
}

/// The contract month code of the calendar quarter of `month`: H (March), M (June),
/// U (September), Z (December).
pub open spec fn quarter_code(month: u32) -> char {
    if month <= 3 {
        'H'
    } else if month <= 6 {
        'M'
    } else if month <= 9 {
        'U'
    } else {
        'Z'
    }
}

/// The decimal digits of a number, most significant first.
pub open spec fn decimal(x: nat) -> Seq<char>
    decreases x,
{
    if x < 10 {
        seq![digit_char(x)]
    } else {
        decimal(x / 10).push(digit_char(x % 10))
    }
}

pub open spec fn digit_char(d: nat) -> char {
    if d == 0 {
        '0'
    } else if d == 1 {
        '1'
    } else if d == 2 {
        '2'
    } else if d == 3 {
        '3'
    } else if d == 4 {
        '4'
    } else if d == 5 {
        '5'
    } else if d == 6 {
        '6'
    } else if d == 7 {
        '7'
    } else if d == 8 {
        '8'
    } else {
        '9'
    }
}

pub(crate) fn digit_str(d: u8) -> (r: &'static str)
    requires
        d < 10,
    ensures
        r@ == seq![digit_char(d as nat)],
{
    proof {
        reveal_strlit("0");
        reveal_strlit("1");
        reveal_strlit("2");
        reveal_strlit("3");
        reveal_strlit("4");
        reveal_strlit("5");
        reveal_strlit("6");
        reveal_strlit("7");
        reveal_strlit("8");
        reveal_strlit("9");
    }
    match d {
        0 => "0",
        1 => "1",
        2 => "2",
        3 => "3",
        4 => "4",
        5 => "5",
        6 => "6",
        7 => "7",
        8 => "8",
        _ => "9",
    }
}

/// Append the decimal digits of a byte.
fn push_decimal(s: &mut String, x: u8)
    ensures
        final(s)@ == old(s)@ + decimal(x as nat),
{
    let ghost s0 = s@;
    if x >= 100 {
        s.append(digit_str(x / 100));
        s.append(digit_str((x / 10) % 10));
        s.append(digit_str(x % 10));
        proof {
            assert(decimal(x as nat) == decimal((x / 10) as nat).push(digit_char((x % 10) as nat)));
            assert(decimal((x / 10) as nat) == decimal((x / 100) as nat).push(digit_char(((x / 10) % 10) as nat)));
            assert(decimal((x / 100) as nat) == seq![digit_char((x / 100) as nat)]);
            assert(s@ =~= s0 + decimal(x as nat));
        }
    } else if x >= 10 {
        s.append(digit_str(x / 10));
        s.append(digit_str(x % 10));
        proof {
            assert(decimal(x as nat) == decimal((x / 10) as nat).push(digit_char((x % 10) as nat)));
            assert(decimal((x / 10) as nat) == seq![digit_char((x / 10) as nat)]);
            assert(s@ =~= s0 + decimal(x as nat));
        }
    } else {
        s.append(digit_str(x));
    }
}

/// Append the decimal digits of a number.
pub(crate) fn push_decimal_u64(s: &mut String, x: u64)
    ensures
        final(s)@ == old(s)@ + decimal(x as nat),
    decreases x,
{
    if x >= 10 {
        push_decimal_u64(s, x / 10);
    }
    let ghost s1 = s@;
    s.append(digit_str((x % 10) as u8));
    proof {
        if x >= 10 {
            assert(decimal(x as nat) == decimal((x / 10) as nat).push(digit_char((x % 10) as nat)));
        }
        assert(s@ =~= old(s)@ + decimal(x as nat));
    }
}

/// The byte that `(year % 10) as u8` gives: the remainder rounds toward zero, and a
/// negative remainder wraps around 256.
pub open spec fn year_digit(year: i32) -> u8 {
    let r = crate::units::trunc_div(year as int, 10);
    let rem = year - r * 10;
    if rem >= 0 {
        rem as u8
    } else {
        (rem + 256) as u8
    }
}

/// The front-month NQ contract of a date, by calendar quarter: `NQ`, the quarter's
/// month code, and the last digit of the year (e.g. March 2025 gives `NQH5`).
pub fn get_front_month_symbol(year: i32, month: u32) -> (r: String)
    requires
        1 <= month <= 12,
    ensures
        r@ == seq!['N', 'Q', quarter_code(month)] + decimal(year_digit(year) as nat),
{
    proof {
        reveal_strlit("NQ");
        reveal_strlit("H");
        reveal_strlit("M");
        reveal_strlit("U");
        reveal_strlit("Z");
    }
    let mut s = String::new();
    s.append("NQ");
    if month <= 3 {
        s.append("H");
    } else if month <= 6 {
        s.append("M");
    } else if month <= 9 {
        s.append("U");
    } else {
        s.append("Z");
    }
    let rem: i32 = year % 10;
    proof {
        assert(rem == year - crate::units::trunc_div(year as int, 10) * 10);
    }
    let digit: u8 = if rem >= 0 { rem as u8 } else { (rem + 256) as u8 };
    push_decimal(&mut s, digit);
    proof {
        assert(s@ =~= seq!['N', 'Q', quarter_code(month)] + decimal(year_digit(year) as nat));
    }
    s
}

/// The contract month code and year of the front contract on a date: the quarter's
/// contract until the 10th of the quarter's month, the next quarter's from then on (the
/// December roll goes to March of the next year).
pub open spec fn front_contract(year: int, month: u32, day: u32) -> (char, int) {
    if month <= 2 {
        ('H', year)
    } else if month == 3 {
        if day < 10 { ('H', year) } else { ('M', year) }
    } else if month <= 5 {
        ('M', year)
    } else if month == 6 {
        if day < 10 { ('M', year) } else { ('U', year) }
    } else if month <= 8 {
        ('U', year)
    } else if month == 9 {
        if day < 10 { ('U', year) } else { ('Z', year) }
    } else if month <= 11 {
        ('Z', year)
    } else if month == 12 {
        if day < 10 { ('Z', year) } else { ('H', year + 1) }
    } else {
        ('H', year)
    }
}

/// The decimal digits of an integer, with a minus sign when negative.
pub open spec fn signed_decimal(x: int) -> Seq<char> {
    if x < 0 {
        seq!['-'] + decimal((-x) as nat)
    } else {
        decimal(x as nat)
    }
}

/// The front-month contract of a base symbol on a date (see `front_contract`): the base
/// symbol, the month code, and the year's remainder by ten (e.g. `NQ` on 2025-03-12 gives
/// `NQM5`).
pub fn get_front_month_contract(base_symbol: &str, year: i32, month: u32, day: u32) -> (r: String)
    requires
        year < i32::MAX,
    ensures
        r@ == base_symbol@ + seq![front_contract(year as int, month, day).0] + signed_decimal(
            front_contract(year as int, month, day).1 - crate::units::trunc_div(front_contract(year as int, month, day).1, 10) * 10,
        ),
{
    proof {
        reveal_strlit("H");
        reveal_strlit("M");
        reveal_strlit("U");
        reveal_strlit("Z");
        reveal_strlit("-");
    }
    let (code, contract_year): (&str, i32) = if month <= 2 {
        ("H", year)
    } else if month == 3 {
        if day < 10 { ("H", year) } else { ("M", year) }
    } else if month <= 5 {
        ("M", year)
    } else if month == 6 {
        if day < 10 { ("M", year) } else { ("U", year) }
    } else if month <= 8 {
        ("U", year)
    } else if month == 9 {
        if day < 10 { ("U", year) } else { ("Z", year) }
    } else if month <= 11 {
        ("Z", year)
    } else if month == 12 {
        if day < 10 { ("Z", year) } else { ("H", year + 1) }
    } else {
        ("H", year)
    };
    let mut s = String::new();
    s.append(base_symbol);
    s.append(code);
    let rem: i32 = contract_year % 10;
    proof {
        assert(rem == contract_year - crate::units::trunc_div(contract_year as int, 10) * 10);
    }
    if rem >= 0 {
        push_decimal(&mut s, rem as u8);
    } else {
        s.append("-");
        push_decimal(&mut s, (-rem) as u8);
    }
    proof {
        assert(s@ =~= base_symbol@ + seq![front_contract(year as int, month, day).0] + signed_decimal(
            front_contract(year as int, month, day).1 - crate::units::trunc_div(front_contract(year as int, month, day).1, 10) * 10,
        ));
    }
    s
}

/// The date that `chrono::NaiveDate::parse_from_str` reads from a text in a format, as
/// year, month and day, or `None` where it refuses the text.
pub uninterp spec fn chrono_date(text: Seq<char>, fmt: Seq<char>) -> Option<(i32, u32, u32)>;

/// `chrono::NaiveDate::parse_from_str(text, fmt)`, its date taken apart with `year`,
/// `month` and `day`; an error gives `None`. The result is named by `chrono_date`; chrono
/// documents a month in 1..=12 and a day in 1..=31.
#[verifier::external_body]
fn parse_date(text: &str, fmt: &str) -> (r: Option<(i32, u32, u32)>)
    ensures
        r == chrono_date(text@, fmt@),
        r matches Some(d) ==> 1 <= d.1 <= 12 && 1 <= d.2 <= 31,
{
    match chrono::NaiveDate::parse_from_str(text, fmt) {
        Ok(d) => Some((d.year(), d.month(), d.day())),
        Err(_) => None,
    }
}

/// Whether a character separates the parts of a data file name.
pub open spec fn is_name_separator(c: char) -> bool {
    c == '-' || c == '.'
}

/// Whether a part of a file name is eight ASCII digits.
pub open spec fn is_date_part(p: Seq<char>) -> bool {
    &&& p.len() == 8
    &&& forall|k: int| 0 <= k < 8 ==> '0' <= #[trigger] p[k] <= '9'
}

/// The bounds of the first date part of `name` (see `is_date_part`) among the parts that
/// `-` and `.` separate, for a scan at `i` whose current part starts at `start`.
pub open spec fn date_part_from(name: Seq<char>, start: int, i: int) -> Option<(int, int)>
    decreases name.len() - i,
{
    if i >= name.len() {
        if is_date_part(name.subrange(start, name.len() as int)) {
            Some((start, name.len() as int))
        } else {
            None
        }
    } else if is_name_separator(name[i]) {
        if is_date_part(name.subrange(start, i)) {
            Some((start, i))
        } else {
            date_part_from(name, i + 1, i + 1)
        }
    } else {
        date_part_from(name, start, i + 1)
    }
}

/// The date of a data file name (e.g. `glbx-mdp3-20250103.trades.csv.zst`): its first
/// part of eight digits, the parts being separated by `-` and `.`, read by chrono as
/// `%Y%m%d`; `None` where there is no such part or chrono refuses it.
pub open spec fn file_name_date(name: Seq<char>) -> Option<(i32, u32, u32)> {
    match date_part_from(name, 0, 0) {
        Some((a, b)) => chrono_date(name.subrange(a, b), "%Y%m%d"@),
        None => None,
    }
}

/// The date in a data file name, as year, month and day (see `file_name_date`).
pub fn extract_date_from_filename(file_name: &str) -> (r: Option<(i32, u32, u32)>)
    ensures
        r == file_name_date(file_name@),
{
    let n = file_name.unicode_len();
    let mut start: usize = 0;
    let mut i: usize = 0;
    while i <= n
        invariant
            n == file_name@.len(),
            start <= i <= n,
            date_part_from(file_name@, start as int, i as int) == date_part_from(file_name@, 0, 0),
        decreases n + 1 - i,
    {
        let at_end = i == n;
        let separator = if at_end {
            false
        } else {
            let c = file_name.get_char(i);
            c == '-' || c == '.'
        };
        if at_end || separator {
            if i - start == 8 {
                let mut digits = true;
                let mut k: usize = start;
                while k < i
                    invariant
                        start <= k <= i <= n,
                        i - start == 8,
                        n == file_name@.len(),
                        digits == (forall|j: int| start <= j < k ==> '0' <= #[trigger] file_name@[j] <= '9'),
                    decreases i - k,
                {
                    let c = file_name.get_char(k);
                    digits = digits && '0' <= c && c <= '9';
                    k = k + 1;
                }
                proof {
                    let p = file_name@.subrange(start as int, i as int);
                    assert(digits == is_date_part(p)) by {
                        if digits {
                            assert forall|j: int| 0 <= j < 8 implies '0' <= #[trigger] p[j] <= '9' by {
                                assert(p[j] == file_name@[start + j]);
                            }
                        } else {
                            let j = choose|j: int| start <= j < i && !('0' <= #[trigger] file_name@[j] <= '9');
                            assert(p[j - start] == file_name@[j]);
                        }
                    }
                }
                if digits {
                    let part = file_name.substring_char(start, i);
                    proof {
                        assert(date_part_from(file_name@, start as int, i as int) == Some((start as int, i as int)));
                    }
                    return parse_date(part, "%Y%m%d");
                }
            }
            proof {
                assert(!is_date_part(file_name@.subrange(start as int, i as int)));
            }
            if at_end {
                return None;
            }
            start = i + 1;
        }
        i = i + 1;
    }
    None
}

/// Why a data row stops the reading of its file.
#[derive(Debug, Clone, Copy, PartialEq, Eq, Structural)]
pub enum RowError {
    /// The event timestamp is not RFC 3339
    BadTimestamp,
}

/// The Unix time in milliseconds that `chrono::DateTime::parse_from_rfc3339` reads from
/// a text, or `None` where it refuses the text.
pub uninterp spec fn rfc3339_millis(text: Seq<char>) -> Option<i64>;

/// `chrono::DateTime::parse_from_rfc3339`, then `timestamp_millis`; an error gives
/// `None`. The result is named by `rfc3339_millis`.
#[verifier::external_body]
fn parse_rfc3339_millis(text: &str) -> (r: Option<i64>)
    ensures
        r == rfc3339_millis(text@),
{
    match chrono::DateTime::parse_from_rfc3339(text) {
        Ok(t) => Some(t.timestamp_millis()),
        Err(_) => None,
    }
}

/// Whether two texts are equal.
fn same_text(a: &str, b: &str) -> (r: bool)
    ensures
        r == (a@ == b@),
{
    a.to_owned() == b.to_owned()
}

/// The trade side of a data row's side code: `B` buys, `A` sells.
pub open spec fn row_side(side: Seq<char>) -> Option<Side> {
    if side == "B"@ {
        Some(Side::Buy)
    } else if side == "A"@ {
        Some(Side::Sell)
    } else {
        None
    }
}

/// What a data row of the trades schema gives: nothing unless its action is `T`, its
/// symbol is the front month's and its side is `B` or `A`; then an error where the
/// event timestamp is not RFC 3339, else the trade.
pub open spec fn row_outcome(action: Seq<char>, symbol: Seq<char>, side: Seq<char>, ts_event: Seq<char>, front_month: Seq<char>) -> Option<Result<(Side, i64), RowError>> {
    if action != "T"@ || symbol != front_month || row_side(side) is None {
        None
    } else {
        match rfc3339_millis(ts_event) {
            Some(ts) => Some(Ok((row_side(side).unwrap(), ts))),
            None => Some(Err(RowError::BadTimestamp)),
        }
    }
}

/// Read a data row of the trades schema (see `row_outcome`): `Ok(None)` where the row
/// is skipped, `Ok(Some(trade))` for a trade of the front month, and an error where its
/// timestamp cannot be read, which ends the reading of the file.
pub fn trade_from_row(action: &str, symbol: &str, side: &str, ts_event: &str, price: Price, size: u64, front_month: &str) -> (r: Result<Option<Trade>, RowError>)
    ensures
        match row_outcome(action@, symbol@, side@, ts_event@, front_month@) {
            None => r == Ok::<Option<Trade>, RowError>(None),
            Some(Err(e)) => r == Err::<Option<Trade>, RowError>(e),
            Some(Ok((sd, ts))) => r matches Ok(Some(t)) && t.ts_event == ts && t.price == price && t.size == size
                && t.side == sd && t.symbol@ == symbol@,
        },
{
    proof {
        reveal_strlit("T");
        reveal_strlit("B");
        reveal_strlit("A");
    }
    if !same_text(action, "T") || !same_text(symbol, front_month) {
        return Ok(None);
    }
    let sd = if same_text(side, "B") {
        Side::Buy
    } else if same_text(side, "A") {
        Side::Sell
    } else {
        return Ok(None);
    };
    match parse_rfc3339_millis(ts_event) {
        Some(ts) => Ok(Some(Trade { ts_event: ts, price, size, side: sd, symbol: symbol.to_owned() })),
        None => Err(RowError::BadTimestamp),
    }
}

} // verus!
