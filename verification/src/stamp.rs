//! The date prefix that a run can put before every name.

use vstd::prelude::*;
use crate::text::push_char;

verus! {

/// The character of a decimal digit.
pub open spec fn digit_char(d: int) -> char {
    if d == 0 {
        '0'
    } else if d == 1 {
        '1'
    } else if d == 2 {
        '2'
    } else if d == 3 {
        '3'
    } else if d == 4 {
        '4'
    } else if d == 5 {
        '5'
    } else if d == 6 {
        '6'
    } else if d == 7 {
        '7'
    } else if d == 8 {
        '8'
    } else {
        '9'
    }
}

/// A number in decimal, without leading zeros.
pub open spec fn decimal(n: nat) -> Seq<char>
    decreases n,
{
    if n < 10 {
        seq![digit_char(n as int)]
    } else {
        decimal(n / 10).push(digit_char((n % 10) as int))
    }
}

/// A number below 100 in two digits.
pub open spec fn two_digits(n: nat) -> Seq<char> {
    seq![digit_char((n / 10) as int), digit_char((n % 10) as int)]
}

/// A year: four digits from 0 to 9999; beyond that a sign, then the digits
/// of the magnitude, filled with zeros to four.
pub open spec fn year_text(year: int) -> Seq<char> {
    let magnitude = if year < 0 { (-year) as nat } else { year as nat };
    let digits = if magnitude < 1000 {
        two_digits(magnitude / 100) + two_digits(magnitude % 100)
    } else {
        decimal(magnitude)
    };
    if year < 0 {
        seq!['-'] + digits
    } else if year > 9999 {
        seq!['+'] + digits
    } else {
        digits
    }
}

/// The prefix for a calendar date: year, month and day joined by `_`, then
/// `__`.
pub open spec fn date_prefix_text(year: int, month: int, day: int) -> Seq<char> {
    year_text(year) + seq!['_'] + two_digits(month as nat) + seq!['_'] + two_digits(day as nat)
        + seq!['_', '_']
}

/// One of the digits `0` to `9`.
pub open spec fn is_digit_char(c: char) -> bool {
    '0' <= c && c <= '9'
}

/// For a year of at most four digits the prefix has twelve characters:
/// digits, with `_` after the year, after the month, and twice after the day.
pub proof fn lemma_date_prefix_shape(year: int, month: int, day: int)
    requires
        0 <= year <= 9999,
        1 <= month <= 12,
        1 <= day <= 31,
    ensures
        date_prefix_text(year, month, day).len() == 12,
        forall|k: int|
            0 <= k < 12 ==> if k == 4 || k == 7 || k == 10 || k == 11 {
                #[trigger] date_prefix_text(year, month, day)[k] == '_'
            } else {
                is_digit_char(date_prefix_text(year, month, day)[k])
            },
{
    let y = year_text(year);
    if year >= 1000 {
        let n = year as nat;
        reveal_with_fuel(decimal, 4);
        assert(100 <= n / 10 <= 999);
        assert(10 <= n / 10 / 10 <= 99);
        assert(1 <= n / 10 / 10 / 10 <= 9);
        assert(y =~= seq![
            digit_char((n / 1000) as int),
            digit_char((n / 100 % 10) as int),
            digit_char((n / 10 % 10) as int),
            digit_char((n % 10) as int),
        ]);
    } else {
        let n = year as nat;
        assert(y =~= seq![
            digit_char((n / 100 / 10) as int),
            digit_char((n / 100 % 10) as int),
            digit_char((n % 100 / 10) as int),
            digit_char((n % 100 % 10) as int),
        ]);
    }
    assert(y.len() == 4);
    assert(forall|j: int| 0 <= j < 4 ==> is_digit_char(#[trigger] y[j]));
    let p = date_prefix_text(year, month, day);
    assert(p =~= seq![
        y[0],
        y[1],
        y[2],
        y[3],
        '_',
        digit_char(month / 10),
        digit_char(month % 10),
        '_',
        digit_char(day / 10),
        digit_char(day % 10),
        '_',
        '_',
    ]);
}

fn digit(d: u32) -> (c: char)
    requires
        d < 10,
    ensures
        c == digit_char(d as int),
{
    if d == 0 {
        '0'
    } else if d == 1 {
        '1'
    } else if d == 2 {
        '2'
    } else if d == 3 {
        '3'
    } else if d == 4 {
        '4'
    } else if d == 5 {
        '5'
    } else if d == 6 {
        '6'
    } else if d == 7 {
        '7'
    } else if d == 8 {
        '8'
    } else {
        '9'
    }
}

fn push_decimal(out: &mut String, n: u32)
    ensures
        final(out)@ == old(out)@ + decimal(n as nat),
    decreases n,
{
    if n >= 10 {
        push_decimal(out, n / 10);
    }
    push_char(out, digit(n % 10));
    assert(final(out)@ =~= old(out)@ + decimal(n as nat));
}

fn push_two_digits(out: &mut String, n: u32)
    requires
        n < 100,
    ensures
        final(out)@ == old(out)@ + two_digits(n as nat),
{
    push_char(out, digit(n / 10));
    push_char(out, digit(n % 10));
    assert(final(out)@ =~= old(out)@ + two_digits(n as nat));
}

/// The prefix for the given calendar date.
pub fn date_prefix(year: i32, month: u32, day: u32) -> (r: String)
    requires
        1 <= month <= 12,
        1 <= day <= 31,
    ensures
        r@ == date_prefix_text(year as int, month as int, day as int),
{
    let mut out = String::new();
    let wide: i64 = year as i64;
    let magnitude: u32 = if wide < 0 {
        push_char(&mut out, '-');
        (-wide) as u32
    } else {
        if wide > 9999 {
            push_char(&mut out, '+');
        }
        wide as u32
    };
    if magnitude < 1000 {
        push_two_digits(&mut out, magnitude / 100);
        push_two_digits(&mut out, magnitude % 100);
    } else {
        push_decimal(&mut out, magnitude);
    }
    assert(out@ =~= year_text(year as int));
    push_char(&mut out, '_');
    push_two_digits(&mut out, month);
    push_char(&mut out, '_');
    push_two_digits(&mut out, day);
    push_char(&mut out, '_');
    push_char(&mut out, '_');
    assert(out@ =~= date_prefix_text(year as int, month as int, day as int));
    out
}

/// The calendar date of this moment in UTC, as year, month and day:
/// `chrono::Utc::now`, of which `date_naive` takes the date and the methods of
/// `chrono::Datelike` the three numbers. The month lies between 1 and 12 and
/// the day between 1 and 31; nothing else is known of a clock. `now` itself
/// does not return where the clock stands before 1970.
#[verifier::external_body]
pub(crate) fn utc_today() -> (r: (i32, u32, u32))
    ensures
        1 <= r.1 <= 12,
        1 <= r.2 <= 31,
{
    let today = chrono::Utc::now().date_naive();
    (
        chrono::Datelike::year(&today),
        chrono::Datelike::month(&today),
        chrono::Datelike::day(&today),
    )
}

/// The prefix for today's date in UTC.
pub fn get_timestamp_prefix() -> (r: String)
    ensures
        exists|year: int, month: int, day: int|
            1 <= month <= 12 && 1 <= day <= 31 && r@ == #[trigger] date_prefix_text(
                year,
                month,
                day,
            ),
{
    let (year, month, day) = utc_today();
    date_prefix(year, month, day)
}

} // verus!
