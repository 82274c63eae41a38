use vstd::prelude::*;

use chrono::{Datelike, Timelike};

use crate::text::push_char;

verus! {

/// A month of the Gregorian calendar.
#[derive(Clone, Copy, PartialEq, Eq, Debug, Structural)]
pub enum Month {
    January,
    February,
    March,
    April,
    May,
    June,
    July,
    August,
    September,
    October,
    November,
    December,
}

/// A date and time of day on the local clock, as plain numbers.
#[derive(Clone, Copy, PartialEq, Eq, Debug, Structural)]
pub struct LocalDateTime {
    pub year: i32,
    pub month: Month,
    pub day: u32,
    pub hour: u32,
    pub minute: u32,
    pub second: u32,
}

/// The month numbered `n`, counting January as 1.
pub open spec fn month_of_number(n: int) -> Option<Month> {
    if n == 1 {
        Some(Month::January)
    } else if n == 2 {
        Some(Month::February)
    } else if n == 3 {
        Some(Month::March)
    } else if n == 4 {
        Some(Month::April)
    } else if n == 5 {
        Some(Month::May)
    } else if n == 6 {
        Some(Month::June)
    } else if n == 7 {
        Some(Month::July)
    } else if n == 8 {
        Some(Month::August)
    } else if n == 9 {
        Some(Month::September)
    } else if n == 10 {
        Some(Month::October)
    } else if n == 11 {
        Some(Month::November)
    } else if n == 12 {
        Some(Month::December)
    } else {
        None
    }
}

/// The position of a month in the year, counting January as 1.
pub open spec fn month_number(m: Month) -> nat {
    match m {
        Month::January => 1,
        Month::February => 2,
        Month::March => 3,
        Month::April => 4,
        Month::May => 5,
        Month::June => 6,
        Month::July => 7,
        Month::August => 8,
        Month::September => 9,
        Month::October => 10,
        Month::November => 11,
        Month::December => 12,
    }
}

/// The full English name of a month.
pub open spec fn month_name_of(m: Month) -> Seq<char> {
    match m {
        Month::January => seq!['J', 'a', 'n', 'u', 'a', 'r', 'y'],
        Month::February => seq!['F', 'e', 'b', 'r', 'u', 'a', 'r', 'y'],
        Month::March => seq!['M', 'a', 'r', 'c', 'h'],
        Month::April => seq!['A', 'p', 'r', 'i', 'l'],
        Month::May => seq!['M', 'a', 'y'],
        Month::June => seq!['J', 'u', 'n', 'e'],
        Month::July => seq!['J', 'u', 'l', 'y'],
        Month::August => seq!['A', 'u', 'g', 'u', 's', 't'],
        Month::September => seq!['S', 'e', 'p', 't', 'e', 'm', 'b', 'e', 'r'],
        Month::October => seq!['O', 'c', 't', 'o', 'b', 'e', 'r'],
        Month::November => seq!['N', 'o', 'v', 'e', 'm', 'b', 'e', 'r'],
        Month::December => seq!['D', 'e', 'c', 'e', 'm', 'b', 'e', 'r'],
    }
}

/// The decimal digit for `d`.
pub open spec fn digit(d: nat) -> char {
    if d == 0 {
        '0'
    } else if d == 1 {
        '1'
    } else if d == 2 {
        '2'
    } else if d == 3 {
        '3'
    } else if d == 4 {
        '4'
    } else if d == 5 {
        '5'
    } else if d == 6 {
        '6'
    } else if d == 7 {
        '7'
    } else if d == 8 {
        '8'
    } else {
        '9'
    }
}

/// The decimal numeral of `n`, without leading zeros.
pub open spec fn decimal(n: nat) -> Seq<char>
    decreases n,
{
    if n < 10 {
        seq![digit(n)]
    } else {
        decimal(n / 10).push(digit(n % 10))
    }
}

/// The decimal numeral of `n`, with a minus sign when it is negative.
pub open spec fn signed_decimal(n: int) -> Seq<char> {
    if n < 0 {
        seq!['-'] + decimal((-n) as nat)
    } else {
        decimal(n as nat)
    }
}

/// The decimal numeral of `n`, with leading zeros up to four digits.
pub open spec fn four_digits(n: nat) -> Seq<char> {
    if n < 10 {
        seq!['0', '0', '0'] + decimal(n)
    } else if n < 100 {
        seq!['0', '0'] + decimal(n)
    } else if n < 1000 {
        seq!['0'] + decimal(n)
    } else {
        decimal(n)
    }
}

/// A year written with at least four digits; a year before 0 or after 9999 carries its sign.
pub open spec fn year_text(y: int) -> Seq<char> {
    if 0 <= y <= 9999 {
        four_digits(y as nat)
    } else if y < 0 {
        seq!['-'] + four_digits((-y) as nat)
    } else {
        seq!['+'] + four_digits(y as nat)
    }
}

/// The decimal numeral of `n`, with a leading zero when it has a single digit.
pub open spec fn two_digits(n: nat) -> Seq<char> {
    if n < 10 {
        seq!['0', digit(n)]
    } else {
        decimal(n)
    }
}

/// The date that stands for an unknown one: the first second of the Unix epoch.
pub open spec fn epoch() -> LocalDateTime {
    LocalDateTime { year: 1970, month: Month::January, day: 1, hour: 0, minute: 0, second: 0 }
}

/// The date itself, or the Unix epoch when it is unknown.
pub open spec fn date_or_epoch(date: Option<LocalDateTime>) -> LocalDateTime {
    match date {
        Some(d) => d,
        None => epoch(),
    }
}

/// The month numbered `n`, counting January as 1, or nothing when `n` is not from 1 to 12.
pub fn month_from_number(n: u32) -> (r: Option<Month>)
    ensures
        r == month_of_number(n as int),
{
    match n {
        1 => Some(Month::January),
        2 => Some(Month::February),
        3 => Some(Month::March),
        4 => Some(Month::April),
        5 => Some(Month::May),
        6 => Some(Month::June),
        7 => Some(Month::July),
        8 => Some(Month::August),
        9 => Some(Month::September),
        10 => Some(Month::October),
        11 => Some(Month::November),
        12 => Some(Month::December),
        _ => None,
    }
}

impl Month {
    /// The position of the month in the year, counting January as 1.
    pub fn number(self) -> (r: u32)
        ensures
            r == month_number(self),
    {
        match self {
            Month::January => 1,
            Month::February => 2,
            Month::March => 3,
            Month::April => 4,
            Month::May => 5,
            Month::June => 6,
            Month::July => 7,
            Month::August => 8,
            Month::September => 9,
            Month::October => 10,
            Month::November => 11,
            Month::December => 12,
        }
    }

    /// The full English name of the month.
    pub fn name(self) -> (r: &'static str)
        ensures
            r@ == month_name_of(self),
    {
        proof {
            reveal_strlit("January");
            reveal_strlit("February");
            reveal_strlit("March");
            reveal_strlit("April");
            reveal_strlit("May");
            reveal_strlit("June");
            reveal_strlit("July");
            reveal_strlit("August");
            reveal_strlit("September");
            reveal_strlit("October");
            reveal_strlit("November");
            reveal_strlit("December");
        }
        match self {
            Month::January => "January",
            Month::February => "February",
            Month::March => "March",
            Month::April => "April",
            Month::May => "May",
            Month::June => "June",
            Month::July => "July",
            Month::August => "August",
            Month::September => "September",
            Month::October => "October",
            Month::November => "November",
            Month::December => "December",
        }
    }
}

fn digit_char(d: u32) -> (c: char)
    requires
        d < 10,
    ensures
        c == digit(d as nat),
{
    if d == 0 {
        '0'
    } else if d == 1 {
        '1'
    } else if d == 2 {
        '2'
    } else if d == 3 {
        '3'
    } else if d == 4 {
        '4'
    } else if d == 5 {
        '5'
    } else if d == 6 {
        '6'
    } else if d == 7 {
        '7'
    } else if d == 8 {
        '8'
    } else {
        '9'
    }
}

/// Appends the decimal numeral of `n` to `out`.
fn push_decimal(out: &mut String, n: u32)
    ensures
        final(out)@ == old(out)@ + decimal(n as nat),
    decreases n,
{
    if n >= 10 {
        push_decimal(out, n / 10);
        push_char(out, digit_char(n % 10));
        assert(old(out)@ + decimal(n as nat) =~= old(out)@ + decimal((n / 10) as nat) + seq![
            digit((n % 10) as nat),
        ]);
    } else {
        push_char(out, digit_char(n));
        assert(old(out)@ + decimal(n as nat) =~= old(out)@.push(digit(n as nat)));
    }
}

/// The decimal numeral of `n`, with a minus sign when it is negative.
pub fn signed_decimal_text(n: i32) -> (r: String)
    ensures
        r@ == signed_decimal(n as int),
{
    let mut out = String::new();
    if n < 0 {
        push_char(&mut out, '-');
        let magnitude: u32 = (-(n as i64)) as u32;
        push_decimal(&mut out, magnitude);
    } else {
        push_decimal(&mut out, n as u32);
    }
    assert(out@ =~= signed_decimal(n as int));
    out
}

/// Appends `n` with at least two digits to `out`.
fn push_two_digits(out: &mut String, n: u32)
    ensures
        final(out)@ == old(out)@ + two_digits(n as nat),
{
    if n < 10 {
        push_char(out, '0');
        push_char(out, digit_char(n));
        assert(final(out)@ =~= old(out)@ + two_digits(n as nat));
    } else {
        push_decimal(out, n);
    }
}

/// The date as `YYYY-MM-DD hh:mm:ss`.
pub open spec fn date_time_text(d: LocalDateTime) -> Seq<char> {
    year_text(d.year as int) + seq!['-'] + two_digits(month_number(d.month)) + seq!['-']
        + two_digits(d.day as nat) + seq![' '] + two_digits(d.hour as nat) + seq![':'] + two_digits(
        d.minute as nat,
    ) + seq![':'] + two_digits(d.second as nat)
}

/// Appends `n` with at least four digits to `out`.
fn push_four_digits(out: &mut String, n: u32)
    ensures
        final(out)@ == old(out)@ + four_digits(n as nat),
{
    let ghost start = out@;
    if n < 10 {
        push_char(out, '0');
        push_char(out, '0');
        push_char(out, '0');
    } else if n < 100 {
        push_char(out, '0');
        push_char(out, '0');
    } else if n < 1000 {
        push_char(out, '0');
    }
    let ghost mid = out@;
    push_decimal(out, n);
    assert(final(out)@ =~= start + four_digits(n as nat)) by {
        if n < 10 {
            assert(mid =~= start + seq!['0', '0', '0']);
        } else if n < 100 {
            assert(mid =~= start + seq!['0', '0']);
        } else if n < 1000 {
            assert(mid =~= start + seq!['0']);
        } else {
            assert(mid == start);
        }
    }
}

/// The year as `%Y` writes it: at least four digits, with a sign before 0 or after 9999.
pub fn year_text_of(year: i32) -> (r: String)
    ensures
        r@ == year_text(year as int),
{
    let mut out = String::new();
    if 0 <= year && year <= 9999 {
        push_four_digits(&mut out, year as u32);
    } else if year < 0 {
        push_char(&mut out, '-');
        let magnitude: u32 = (-(year as i64)) as u32;
        push_four_digits(&mut out, magnitude);
    } else {
        push_char(&mut out, '+');
        push_four_digits(&mut out, year as u32);
    }
    assert(out@ =~= year_text(year as int));
    out
}

impl LocalDateTime {
    /// The fields are in range: a day from 1 to 31 and a time of day from 00:00:00 to 23:59:59.
    pub open spec fn wf(&self) -> bool {
        &&& 1 <= self.day <= 31
        &&& self.hour <= 23
        &&& self.minute <= 59
        &&& self.second <= 59
    }

    /// The date as `YYYY-MM-DD hh:mm:ss`, the year as `%Y` writes it.
    pub fn to_text(&self) -> (r: String)
        ensures
            r@ == date_time_text(*self),
    {
        let mut out = year_text_of(self.year);
        push_char(&mut out, '-');
        push_two_digits(&mut out, self.month.number());
        push_char(&mut out, '-');
        push_two_digits(&mut out, self.day);
        push_char(&mut out, ' ');
        push_two_digits(&mut out, self.hour);
        push_char(&mut out, ':');
        push_two_digits(&mut out, self.minute);
        push_char(&mut out, ':');
        push_two_digits(&mut out, self.second);
        assert(out@ =~= date_time_text(*self));
        out
    }
}

/// The date itself, or the Unix epoch when it is unknown.
pub fn date_or_default(date: Option<LocalDateTime>) -> (r: LocalDateTime)
    ensures
        r == date_or_epoch(date),
{
    match date {
        Some(d) => d,
        None => LocalDateTime { year: 1970, month: Month::January, day: 1, hour: 0, minute: 0, second: 0 },
    }
}

/// The seconds from the Unix epoch that chrono can surely hold: a little over 253,000 years
/// either way, inside the range of years from -262143 to 262142 that its dates cover.
pub open spec fn in_chrono_range(secs: int) -> bool {
    -8_000_000_000_000 <= secs <= 8_000_000_000_000
}

/// Relies on chrono's `DateTime::from_timestamp`, which gives the instant `secs` seconds after
/// the Unix epoch, and nothing only when its date falls outside chrono's range, and on
/// `with_timezone(&Local)` with the `Datelike` and `Timelike` getters, which always read that
/// instant's date and time of day on the machine's clock: a month from 1 to 12, a day from 1 to
/// 31, an hour from 0 to 23, a minute and a second from 0 to 59.
#[verifier::external_body]
fn local_fields(secs: i64) -> (r: Option<(i32, u32, u32, u32, u32, u32)>)
    ensures
        in_chrono_range(secs as int) ==> r is Some,
        r matches Some(f) ==> 1 <= f.1 <= 12 && 1 <= f.2 <= 31 && f.3 <= 23 && f.4 <= 59 && f.5
            <= 59,
{
    match chrono::DateTime::from_timestamp(secs, 0) {
        Some(utc) => {
            let t = utc.with_timezone(&chrono::Local);
            Some((t.year(), t.month(), t.day(), t.hour(), t.minute(), t.second()))
        },
        None => None,
    }
}

/// The local date and time of the instant `secs` seconds after the Unix epoch: there is one for
/// every instant in chrono's range, and its fields are always in range. Which date it is
/// depends on the machine's time zone.
pub fn local_date_time(secs: i64) -> (r: Option<LocalDateTime>)
    ensures
        in_chrono_range(secs as int) ==> r is Some,
        r matches Some(d) ==> d.wf(),
{
    match local_fields(secs) {
        Some((year, month, day, hour, minute, second)) => match month_from_number(month) {
            Some(m) => Some(LocalDateTime { year, month: m, day, hour, minute, second }),
            None => None,
        },
        None => None,
    }
}

} // verus!
