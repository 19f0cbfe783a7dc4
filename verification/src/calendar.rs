//! Times of day and dates, for tables and tooltips.

use vstd::prelude::*;

use crate::text::{decimal, decimal_text, digit, signed_decimal, signed_decimal_text};

verus! {

/// Whether a year of the Gregorian calendar has a 29th of February.
pub open spec fn leap_year(year: int) -> bool {
    year % 4 == 0 && (year % 100 != 0 || year % 400 == 0)
}

/// How many days a year has.
pub open spec fn year_length(year: int) -> int {
    if leap_year(year) {
        366
    } else {
        365
    }
}

/// How many days a month has.
pub open spec fn month_length(year: int, month: int) -> int {
    if month == 2 {
        if leap_year(year) {
            29
        } else {
            28
        }
    } else if month == 4 || month == 6 || month == 9 || month == 11 {
        30
    } else {
        31
    }
}

/// How many days lie between the beginning of 1970 and that of a year.
pub open spec fn days_to_year(year: int) -> int
    decreases (if year < 1970 { 1970 - year } else { year - 1970 }),
{
    if year == 1970 {
        0
    } else if year > 1970 {
        days_to_year(year - 1) + year_length(year - 1)
    } else {
        days_to_year(year + 1) - year_length(year)
    }
}

/// How many days of a year lie before a month.
pub open spec fn days_to_month(year: int, month: int) -> int
    decreases month,
{
    if month <= 1 {
        0
    } else {
        days_to_month(year, month - 1) + month_length(year, month - 1)
    }
}

/// Whether a date exists.
pub open spec fn is_date(year: int, month: int, day: int) -> bool {
    1 <= month <= 12 && 1 <= day <= month_length(year, month)
}

/// How many days lie between the first of January 1970 and a date.
pub open spec fn day_number(year: int, month: int, day: int) -> int {
    days_to_year(year) + days_to_month(year, month) + day - 1
}

/// How many leap years there are before a year, counted from the year zero on.
spec fn leap_years_before(year: int) -> int {
    (year - 1) / 4 - (year - 1) / 100 + (year - 1) / 400
}

/// One year more is one leap year more, or none.
proof fn lemma_leap_years_step(year: int)
    ensures
        leap_years_before(year + 1) == leap_years_before(year) + (if leap_year(year) { 1int } else { 0int }),
{
    assert(year / 4 == (year - 1) / 4 + (if year % 4 == 0 { 1int } else { 0int }));
    assert(year / 100 == (year - 1) / 100 + (if year % 100 == 0 { 1int } else { 0int }));
    assert(year / 400 == (year - 1) / 400 + (if year % 400 == 0 { 1int } else { 0int }));
    assert(year % 100 == 0 ==> year % 4 == 0);
    assert(year % 400 == 0 ==> year % 100 == 0);
}

/// The days to a year, in closed form.
proof fn lemma_days_to_year(year: int)
    ensures
        days_to_year(year) == 365 * (year - 1970) + leap_years_before(year) - 477,
    decreases (if year < 1970 { 1970 - year } else { year - 1970 }),
{
    if year > 1970 {
        lemma_days_to_year(year - 1);
        lemma_leap_years_step(year - 1);
    } else if year < 1970 {
        lemma_days_to_year(year + 1);
        lemma_leap_years_step(year);
    }
}

/// The days to a month, in closed form.
proof fn lemma_days_to_month(year: int, month: int)
    requires
        1 <= month <= 12,
    ensures
        days_to_month(year, month) == (if month == 1 {
            0int
        } else if month == 2 {
            31
        } else {
            59 + (if leap_year(year) { 1int } else { 0 }) + (if month == 3 {
                0int
            } else if month == 4 {
                31
            } else if month == 5 {
                61
            } else if month == 6 {
                92
            } else if month == 7 {
                122
            } else if month == 8 {
                153
            } else if month == 9 {
                184
            } else if month == 10 {
                214
            } else if month == 11 {
                245
            } else {
                275
            })
        }),
{
    reveal_with_fuel(days_to_month, 13);
}

/// A calendar date.
#[derive(Clone, Copy, Debug, Eq, PartialEq, Structural)]
pub struct CivilDate {
    pub year: i64,
    pub month: i64,
    pub day: i64,
}

/// `a / b`, rounded down.
fn floor_div(a: i64, b: i64) -> (quotient: i64)
    requires
        b > 1,
    ensures
        quotient == a as int / b as int,
{
    if a >= 0 {
        a / b
    } else {
        let below: i64 = -(a + 1);
        let quotient: i64 = -(below / b) - 1;
        proof {
            let q = below as int / b as int;
            let r = below as int % b as int;
            vstd::arithmetic::div_mod::lemma_fundamental_div_mod(below as int, b as int);
            assert(a as int == b * (-q - 1) + (b - 1 - r)) by (nonlinear_arith)
                requires
                    below == b * q + r,
                    below == -(a + 1),
            ;
            vstd::arithmetic::div_mod::lemma_fundamental_div_mod_converse(
                a as int,
                b as int,
                -q - 1,
                b - 1 - r,
            );
        }
        quotient
    }
}

/// Which March-based year of a 400-year era a day belongs to, and which day of
/// it: at most 399 and 365, with a 366th day only before a leap day.
proof fn lemma_year_of_era(doe: int, yoe: int, doy: int)
    requires
        0 <= doe <= 146_096,
        yoe == (doe - doe / 1460 + doe / 36_524 - doe / 146_096) / 365,
        doy == doe - (365 * yoe + yoe / 4 - yoe / 100),
    ensures
        0 <= yoe <= 399,
        0 <= doy <= 365,
        doy == 365 ==> leap_year(yoe + 1),
{
    let b = doe / 36_524;
    if doe == 146_096 {
        assert(yoe == 399);
    } else {
        assert(0 <= b <= 3);
        assert(doe / 146_096 == 0);
        let d = doe - 36_524 * b;
        assert(0 <= d < 36_524);
        let a = (d + 24 * b) / 1460;
        assert(doe / 1460 == 25 * b + a);
        let y = (d - a) / 365;
        assert(0 <= a <= 25);
        assert(yoe == 100 * b + y);
        assert(0 <= y <= 99);
        let q = y / 4;
        let t = y - 4 * q;
        assert(0 <= t <= 3);
        assert(yoe / 4 == 25 * b + q);
        assert(yoe / 100 == b);
        assert(doy == d - 365 * y - q);
        assert(a >= q);
        assert(a <= q + 1);
        if a == q + 1 {
            assert(t == 3);
        }
        if doy == 365 {
            assert(a == q + 1);
            assert(y != 99);
            assert((yoe + 1) % 4 == 0);
            assert((yoe + 1) % 100 != 0);
        }
    }
}

/// The day before the first of March of a year, and which years are leap years,
/// by the year's place in its 400-year era.
proof fn lemma_march_start(era: int, yoe: int)
    requires
        0 <= yoe <= 399,
    ensures
        ({
            let year = yoe + era * 400;
            &&& day_number(year, 3, 1) == 146_097 * era + 365 * yoe + yoe / 4 - yoe / 100 - 719_468
            &&& leap_year(year + 1) == leap_year(yoe + 1)
        }),
{
    let year = yoe + era * 400;
    assert(year / 4 == yoe / 4 + 100 * era);
    assert(year / 100 == yoe / 100 + 4 * era);
    assert(year / 400 == era);
    assert((year + 1) % 4 == (yoe + 1) % 4);
    assert((year + 1) % 100 == (yoe + 1) % 100);
    assert((year + 1) % 400 == (yoe + 1) % 400);
    lemma_days_to_year(year);
    lemma_leap_years_step(year);
    lemma_days_to_month(year, 3);
}

/// The month and day of the day that lies `doy` days after the first of March.
proof fn lemma_month_of_year(start: int, doy: int, mp: int, day: int, month: int)
    requires
        0 <= doy <= 365,
        doy == 365 ==> leap_year(start + 1),
        mp == (5 * doy + 2) / 153,
        day == doy - (153 * mp + 2) / 5 + 1,
        month == if mp < 10 { mp + 3 } else { mp - 9 },
    ensures
        0 <= mp <= 11,
        ({
            let year = if month <= 2 { start + 1 } else { start };
            &&& is_date(year, month, day)
            &&& day_number(year, month, day) == day_number(start, 3, 1) + doy
        }),
{
    lemma_days_to_month(start, 3);
    assert(0 <= mp <= 11);
    if mp < 10 {
        lemma_days_to_month(start, month);
    } else {
        lemma_days_to_month(start + 1, month);
        lemma_days_to_year(start);
        lemma_days_to_year(start + 1);
        lemma_leap_years_step(start);
    }
}

/// The date of the day that lies `days` days after the first of January 1970.
fn civil_date(days: i64) -> (date: CivilDate)
    requires
        -0x1000_0000_0000 <= days <= 0x1000_0000_0000,
    ensures
        is_date(date.year as int, date.month as int, date.day as int),
        day_number(date.year as int, date.month as int, date.day as int) == days,
{
    let z: i64 = days + 719_468;
    let era: i64 = floor_div(z, 146_097);
    let doe: i64 = z - era * 146_097;
    let yoe: i64 = (doe - doe / 1460 + doe / 36_524 - doe / 146_096) / 365;
    let doy: i64 = doe - (365 * yoe + yoe / 4 - yoe / 100);
    proof {
        lemma_year_of_era(doe as int, yoe as int, doy as int);
    }
    let start: i64 = yoe + era * 400;
    let mp: i64 = (5 * doy + 2) / 153;
    let day: i64 = doy - (153 * mp + 2) / 5 + 1;
    let month: i64 = if mp < 10 { mp + 3 } else { mp - 9 };
    let year: i64 = if month <= 2 { start + 1 } else { start };
    proof {
        lemma_march_start(era as int, yoe as int);
        lemma_month_of_year(start as int, doy as int, mp as int, day as int, month as int);
    }
    CivilDate { year, month, day }
}

/// `n` in decimal, with zeros in front up to `width` characters.
pub open spec fn padded(n: nat, width: nat) -> Seq<char> {
    zeros_before(decimal(n), width)
}

/// `text` with zeros in front up to `width` characters.
pub open spec fn zeros_before(text: Seq<char>, width: nat) -> Seq<char>
    decreases width - text.len(),
{
    if text.len() >= width {
        text
    } else {
        zeros_before(seq!['0'] + text, width)
    }
}

/// `n` in decimal, with zeros behind its sign up to `width` characters.
pub open spec fn signed_padded(n: int, width: nat) -> Seq<char> {
    if n < 0 {
        seq!['-'] + padded((-n) as nat, if width > 0 { (width - 1) as nat } else { 0 })
    } else {
        padded(n as nat, width)
    }
}

/// `n` in decimal, with zeros in front up to `width` characters.
fn padded_text(n: u64, width: usize) -> (text: String)
    ensures
        text@ == padded(n as nat, width as nat),
{
    let mut text = decimal_text(n);
    while text.as_str().unicode_len() < width
        invariant
            zeros_before(text@, width as nat) == padded(n as nat, width as nat),
        decreases width - text@.len(),
    {
        let mut longer = String::new();
        longer.push('0');
        longer.append(text.as_str());
        assert(longer@ =~= seq!['0'] + text@);
        text = longer;
    }
    text
}

/// `n` in decimal, with zeros behind its sign up to `width` characters.
fn signed_padded_text(n: i64, width: usize) -> (text: String)
    requires
        width > 0,
        n > i64::MIN,
    ensures
        text@ == signed_padded(n as int, width as nat),
{
    if n < 0 {
        let mut text = String::new();
        text.push('-');
        text.append(padded_text((-n) as u64, width - 1).as_str());
        assert(text@ =~= signed_padded(n as int, width as nat));
        text
    } else {
        padded_text(n as u64, width)
    }
}

/// A date and a time of day, as `YYYY-MM-DD HH:MM:SSZ`.
pub open spec fn timestamp_text(year: int, month: int, day: int, second: int) -> Seq<char> {
    signed_padded(year, 4) + "-"@ + padded(month as nat, 2) + "-"@ + padded(day as nat, 2) + " "@ + padded(
        (second / 3600) as nat,
        2,
    ) + ":"@ + padded((second % 3600 / 60) as nat, 2) + ":"@ + padded((second % 60) as nat, 2) + "Z"@
}

/// Whether `text` is the timestamp of a time given in milliseconds since the
/// beginning of 1970, in UTC.
pub open spec fn is_timestamp(at_ms: int, text: Seq<char>) -> bool {
    exists|year: int, month: int, day: int|
        is_date(year, month, day) && day_number(year, month, day) == at_ms / 1000 / 86_400 && text
            == #[trigger] timestamp_text(year, month, day, at_ms / 1000 % 86_400)
}

/// Milliseconds since the beginning of 1970 as `YYYY-MM-DD HH:MM:SSZ`, in UTC.
pub fn utc_timestamp(at_ms: i64) -> (text: String)
    ensures
        is_timestamp(at_ms as int, text@),
{
    let seconds: i64 = floor_div(at_ms, 1000);
    let days: i64 = floor_div(seconds, 86_400);
    let second: i64 = seconds - days * 86_400;
    let date = civil_date(days);
    proof {
        lemma_year_bounds(date.year as int, date.month as int, date.day as int);
    }
    let mut text = signed_padded_text(date.year, 4);
    text.append("-");
    text.append(padded_text(date.month as u64, 2).as_str());
    text.append("-");
    text.append(padded_text(date.day as u64, 2).as_str());
    text.append(" ");
    text.append(padded_text((second / 3600) as u64, 2).as_str());
    text.append(":");
    text.append(padded_text((second % 3600 / 60) as u64, 2).as_str());
    text.append(":");
    text.append(padded_text((second % 60) as u64, 2).as_str());
    text.append("Z");
    assert(second == at_ms as int / 1000 % 86_400);
    assert(text@ == timestamp_text(date.year as int, date.month as int, date.day as int, second as int));
    text
}

/// A date's year is not further from 1970 than its day number.
proof fn lemma_year_bounds(year: int, month: int, day: int)
    requires
        is_date(year, month, day),
        -0x1000_0000_0000 <= day_number(year, month, day) <= 0x1000_0000_0000,
    ensures
        -0x1000_0000_0000 <= year <= 0x1000_0000_0000,
{
    lemma_days_to_year(year);
    lemma_days_to_month(year, month);
}

/// Dates count in order: a day number belongs to one date only, so a time has
/// one timestamp only.
pub proof fn law_day_numbers_are_unique(year: int, month: int, day: int, year2: int, month2: int, day2: int)
    requires
        is_date(year, month, day),
        is_date(year2, month2, day2),
        day_number(year, month, day) == day_number(year2, month2, day2),
    ensures
        year == year2,
        month == month2,
        day == day2,
{
    lemma_days_to_year(year);
    lemma_days_to_year(year2);
    lemma_days_to_month(year, month);
    lemma_days_to_month(year2, month2);
    lemma_leap_years_step(year);
    lemma_leap_years_step(year2);
    if year < year2 {
        lemma_days_to_year_monotonic(year + 1, year2);
        lemma_days_to_year(year + 1);
    } else if year2 < year {
        lemma_days_to_year_monotonic(year2 + 1, year);
        lemma_days_to_year(year2 + 1);
    }
}

/// Later years begin later.
proof fn lemma_days_to_year_monotonic(year: int, later: int)
    requires
        year <= later,
    ensures
        days_to_year(year) <= days_to_year(later),
    decreases later - year,
{
    if year < later {
        lemma_days_to_year_monotonic(year + 1, later);
        lemma_days_to_year(year);
        lemma_days_to_year(year + 1);
        lemma_leap_years_step(year);
    }
}

/// Later days have later dates.
proof fn lemma_dates_in_order(year: int, month: int, day: int, year2: int, month2: int, day2: int)
    requires
        is_date(year, month, day),
        is_date(year2, month2, day2),
        day_number(year, month, day) < day_number(year2, month2, day2),
    ensures
        year < year2 || year == year2 && (month < month2 || month == month2 && day < day2),
{
    lemma_days_to_month(year, month);
    lemma_days_to_month(year2, month2);
    if year2 < year {
        lemma_days_to_year(year2);
        lemma_days_to_year(year2 + 1);
        lemma_leap_years_step(year2);
        lemma_days_to_year_monotonic(year2 + 1, year);
    }
}

/// Days from the first of January of the year zero to the end of the year 9999
/// lie in those years.
proof fn lemma_four_digit_years(year: int, month: int, day: int)
    requires
        is_date(year, month, day),
        -719_528 <= day_number(year, month, day) < 2_932_897,
    ensures
        0 <= year <= 9999,
{
    lemma_days_to_year(0);
    lemma_days_to_year(10_000);
    lemma_days_to_month(year, month);
    if year < 0 {
        lemma_days_to_year(year);
        lemma_days_to_year(year + 1);
        lemma_leap_years_step(year);
        lemma_days_to_year_monotonic(year + 1, 0);
    } else if year > 9999 {
        lemma_days_to_year_monotonic(10_000, year);
    }
}

/// A number below a hundred in two digits.
proof fn lemma_two_digits(n: nat)
    requires
        n < 100,
    ensures
        padded(n, 2) == seq![digit(n as int / 10), digit(n as int % 10)],
{
    reveal_with_fuel(decimal, 2);
    reveal_with_fuel(zeros_before, 2);
    assert(padded(n, 2) =~= seq![digit(n as int / 10), digit(n as int % 10)]);
}

/// A number below ten thousand in four digits.
proof fn lemma_four_digits(n: nat)
    requires
        n < 10_000,
    ensures
        padded(n, 4) == seq![
            digit(n as int / 1000),
            digit(n as int / 100 % 10),
            digit(n as int / 10 % 10),
            digit(n as int % 10),
        ],
{
    reveal_with_fuel(decimal, 4);
    reveal_with_fuel(zeros_before, 4);
    assert(padded(n, 4) =~= seq![
        digit(n as int / 1000),
        digit(n as int / 100 % 10),
        digit(n as int / 10 % 10),
        digit(n as int % 10),
    ]);
}

/// The characters of a timestamp, from the two halves of its year and its other
/// fields.
spec fn timestamp_chars(fields: Seq<int>) -> Seq<char> {
    seq![
        digit(fields[0] / 10),
        digit(fields[0] % 10),
        digit(fields[1] / 10),
        digit(fields[1] % 10),
        '-',
        digit(fields[2] / 10),
        digit(fields[2] % 10),
        '-',
        digit(fields[3] / 10),
        digit(fields[3] % 10),
        ' ',
        digit(fields[4] / 10),
        digit(fields[4] % 10),
        ':',
        digit(fields[5] / 10),
        digit(fields[5] % 10),
        ':',
        digit(fields[6] / 10),
        digit(fields[6] % 10),
        'Z',
    ]
}

/// The two halves of a timestamp's year and its other fields.
spec fn timestamp_fields(year: int, month: int, day: int, second: int) -> Seq<int> {
    seq![year / 100, year % 100, month, day, second / 3600, second % 3600 / 60, second % 60]
}

/// The characters of a timestamp in a year of four digits.
proof fn lemma_timestamp_chars(year: int, month: int, day: int, second: int)
    requires
        0 <= year <= 9999,
        is_date(year, month, day),
        0 <= second < 86_400,
    ensures
        timestamp_text(year, month, day, second) == timestamp_chars(timestamp_fields(year, month, day, second)),
{
    lemma_four_digits(year as nat);
    lemma_two_digits(month as nat);
    lemma_two_digits(day as nat);
    lemma_two_digits((second / 3600) as nat);
    lemma_two_digits((second % 3600 / 60) as nat);
    lemma_two_digits((second % 60) as nat);
    assert(year / 1000 == year / 100 / 10 && year / 10 % 10 == year % 100 / 10 && year % 10 == year % 100 % 10);
    reveal_strlit("-");
    reveal_strlit(" ");
    reveal_strlit(":");
    reveal_strlit("Z");
    assert(timestamp_text(year, month, day, second) =~= timestamp_chars(
        timestamp_fields(year, month, day, second),
    ));
}

/// Whether a text has the shape `YYYY-MM-DD HH:MM:SSZ`.
pub open spec fn timestamp_shaped(text: Seq<char>) -> bool {
    &&& text.len() == 20
    &&& text[4] == '-' && text[7] == '-' && text[10] == ' ' && text[13] == ':' && text[16] == ':' && text[19] == 'Z'
    &&& forall|i: int|
        0 <= i < 19 && i != 4 && i != 7 && i != 10 && i != 13 && i != 16 ==> '0' <= #[trigger] text[i] <= '9'
}

/// Whether two texts first differ at a place, and the first text comes first
/// there.
pub open spec fn comes_first_at(a: Seq<char>, b: Seq<char>, at: int) -> bool {
    &&& 0 <= at <= a.len()
    &&& at < b.len()
    &&& forall|i: int| 0 <= i < at ==> #[trigger] a[i] == b[i]
    &&& at < a.len() ==> a[at] < b[at]
}

/// Whether a text comes before another one as a string.
pub open spec fn text_before(a: Seq<char>, b: Seq<char>) -> bool {
    exists|at: int| #[trigger] comes_first_at(a, b, at)
}

/// Fields that agree up to one of them, and of which that one is smaller, make a
/// smaller timestamp.
proof fn lemma_field_decides(fields: Seq<int>, later: Seq<int>, field: int)
    requires
        0 <= field < 7,
        forall|i: int| 0 <= i < field ==> #[trigger] fields[i] == later[i],
        0 <= fields[field] < later[field] < 100,
    ensures
        text_before(timestamp_chars(fields), timestamp_chars(later)),
{
    let a = timestamp_chars(fields);
    let b = timestamp_chars(later);
    let n = fields[field];
    let m = later[field];
    let first = if field == 0 {
        0int
    } else if field == 1 {
        2
    } else {
        3 * field - 1
    };
    assert(n / 10 < m / 10 || n / 10 == m / 10 && n % 10 < m % 10);
    let at = if n / 10 < m / 10 {
        first
    } else {
        first + 1
    };
    assert(field > 0 ==> fields[0] == later[0]);
    assert(field > 1 ==> fields[1] == later[1]);
    assert(field > 2 ==> fields[2] == later[2]);
    assert(field > 3 ==> fields[3] == later[3]);
    assert(field > 4 ==> fields[4] == later[4]);
    assert(field > 5 ==> fields[5] == later[5]);
    assert(comes_first_at(a, b, at));
}

/// Whether the first ten characters of a text are a date in years of four digits.
pub open spec fn text_names(text: Seq<char>, year: int, month: int, day: int) -> bool {
    text.len() >= 10 && text.take(10) == padded(year as nat, 4) + "-"@ + padded(month as nat, 2) + "-"@ + padded(
        day as nat,
        2,
    )
}

/// Whether a text begins with a date that exists, in years of four digits.
pub open spec fn names_date(text: Seq<char>) -> bool {
    exists|year: int, month: int, day: int|
        0 <= year <= 9999 && is_date(year, month, day) && #[trigger] text_names(text, year, month, day)
}

/// A timestamp begins with its date.
proof fn lemma_timestamp_names_its_date(year: int, month: int, day: int, second: int)
    requires
        0 <= year <= 9999,
        is_date(year, month, day),
        0 <= second < 86_400,
    ensures
        text_names(timestamp_text(year, month, day, second), year, month, day),
{
    lemma_timestamp_chars(year, month, day, second);
    lemma_four_digits(year as nat);
    lemma_two_digits(month as nat);
    lemma_two_digits(day as nat);
    reveal_strlit("-");
    assert(timestamp_text(year, month, day, second).take(10) =~= padded(year as nat, 4) + "-"@ + padded(
        month as nat,
        2,
    ) + "-"@ + padded(day as nat, 2));
}

/// A timestamp in a year of four digits has its shape.
proof fn lemma_timestamp_shape(fields: Seq<int>)
    requires
        forall|i: int| 0 <= i < 7 ==> 0 <= #[trigger] fields[i] < 100,
    ensures
        timestamp_shaped(timestamp_chars(fields)),
{
    assert(0 <= fields[0] < 100 && 0 <= fields[1] < 100 && 0 <= fields[2] < 100 && 0 <= fields[3] < 100);
    assert(0 <= fields[4] < 100 && 0 <= fields[5] < 100 && 0 <= fields[6] < 100);
}

/// Earlier dates and times have smaller timestamps.
proof fn lemma_earlier_is_smaller(
    year: int,
    month: int,
    day: int,
    second: int,
    year2: int,
    month2: int,
    day2: int,
    second2: int,
)
    requires
        0 <= year <= 9999,
        0 <= year2 <= 9999,
        is_date(year, month, day),
        is_date(year2, month2, day2),
        0 <= second < 86_400,
        0 <= second2 < 86_400,
        ({
            ||| year < year2
            ||| year == year2 && month < month2
            ||| year == year2 && month == month2 && day < day2
            ||| year == year2 && month == month2 && day == day2 && second < second2
        }),
    ensures
        text_before(
            timestamp_chars(timestamp_fields(year, month, day, second)),
            timestamp_chars(timestamp_fields(year2, month2, day2, second2)),
        ),
{
    let fields = timestamp_fields(year, month, day, second);
    let later = timestamp_fields(year2, month2, day2, second2);
    if year < year2 {
        if year / 100 < year2 / 100 {
            lemma_field_decides(fields, later, 0);
        } else {
            lemma_field_decides(fields, later, 1);
        }
    } else if month < month2 {
        lemma_field_decides(fields, later, 2);
    } else if day < day2 {
        lemma_field_decides(fields, later, 3);
    } else if second / 3600 < second2 / 3600 {
        lemma_field_decides(fields, later, 4);
    } else if second % 3600 / 60 < second2 % 3600 / 60 {
        lemma_field_decides(fields, later, 5);
    } else {
        lemma_field_decides(fields, later, 6);
    }
}

/// A timestamp in a year of four digits has its shape and names its date.
proof fn lemma_timestamp_parts(at_ms: int, text: Seq<char>) -> (date: (int, int, int))
    requires
        -62_167_219_200_000 <= at_ms < 253_402_300_800_000,
        is_timestamp(at_ms, text),
    ensures
        0 <= date.0 <= 9999,
        is_date(date.0, date.1, date.2),
        day_number(date.0, date.1, date.2) == at_ms / 1000 / 86_400,
        text == timestamp_chars(timestamp_fields(date.0, date.1, date.2, at_ms / 1000 % 86_400)),
        timestamp_shaped(text),
        names_date(text),
{
    let second = at_ms / 1000 % 86_400;
    let (year, month, day) = choose|year: int, month: int, day: int|
        is_date(year, month, day) && day_number(year, month, day) == at_ms / 1000 / 86_400 && text
            == #[trigger] timestamp_text(year, month, day, second);
    lemma_four_digit_years(year, month, day);
    lemma_timestamp_chars(year, month, day, second);
    lemma_timestamp_names_its_date(year, month, day, second);
    lemma_timestamp_shape(timestamp_fields(year, month, day, second));
    (year, month, day)
}

/// A text is no other than one that comes before it, of the same length.
proof fn lemma_before_differs(a: Seq<char>, b: Seq<char>)
    requires
        a.len() == b.len(),
        text_before(a, b),
    ensures
        a != b,
{
    let at = choose|at: int| #[trigger] comes_first_at(a, b, at);
    assert(a[at] != b[at]);
}

/// Timestamps in years of four digits have the shape `YYYY-MM-DD HH:MM:SSZ` and
/// name a date of the calendar. They sort as strings in the order of their times,
/// and are equal exactly where their times lie in one second.
pub proof fn law_timestamps_sort_by_time(a: int, b: int, text: Seq<char>, later: Seq<char>)
    requires
        -62_167_219_200_000 <= a <= b < 253_402_300_800_000,
        is_timestamp(a, text),
        is_timestamp(b, later),
    ensures
        timestamp_shaped(text),
        timestamp_shaped(later),
        names_date(text),
        names_date(later),
        text == later || text_before(text, later),
        text == later <==> a / 1000 == b / 1000,
{
    let (year, month, day) = lemma_timestamp_parts(a, text);
    let (year2, month2, day2) = lemma_timestamp_parts(b, later);
    if a / 1000 / 86_400 == b / 1000 / 86_400 {
        law_day_numbers_are_unique(year, month, day, year2, month2, day2);
    } else {
        lemma_dates_in_order(year, month, day, year2, month2, day2);
    }
    if a / 1000 != b / 1000 {
        lemma_earlier_is_smaller(
            year,
            month,
            day,
            a / 1000 % 86_400,
            year2,
            month2,
            day2,
            b / 1000 % 86_400,
        );
        lemma_before_differs(text, later);
    }
}

/// `a - b`, held within the range of the type.
pub open spec fn saturating_difference(a: int, b: int) -> int {
    if a - b > i64::MAX {
        i64::MAX as int
    } else if a - b < i64::MIN {
        i64::MIN as int
    } else {
        a - b
    }
}

/// How long ago a time was, in words.
pub open spec fn age_text(at_ms: int, now_ms: int) -> Seq<char> {
    let milliseconds = saturating_difference(now_ms, at_ms);
    let seconds = milliseconds / 1000;
    if seconds < 5 {
        "just now"@
    } else if seconds < 120 {
        signed_decimal(seconds) + "s ago"@
    } else if seconds < 7200 {
        signed_decimal(seconds / 60) + "m ago"@
    } else if seconds < 172_800 {
        signed_decimal(seconds / 3600) + "h ago"@
    } else {
        signed_decimal(seconds / 86_400) + "d ago"@
    }
}

/// A number with a unit behind it.
fn with_unit(n: i64, unit: &str) -> (text: String)
    ensures
        text@ == signed_decimal(n as int) + unit@,
{
    let mut text = signed_decimal_text(n);
    text.append(unit);
    text
}

/// How long ago a time was, in words ("2m ago"). A time in the future is
/// "just now".
pub fn relative_age(at_ms: i64, now_ms: i64) -> (text: String)
    ensures
        text@ == age_text(at_ms as int, now_ms as int),
{
    let wide: i128 = now_ms as i128 - at_ms as i128;
    let milliseconds: i64 = if wide > 0x7fff_ffff_ffff_ffffi128 {
        0x7fff_ffff_ffff_ffff
    } else if wide < -0x8000_0000_0000_0000i128 {
        i64::MIN
    } else {
        wide as i64
    };
    let seconds: i64 = floor_div(milliseconds, 1000);
    if seconds < 5 {
        "just now".to_owned()
    } else if seconds < 120 {
        with_unit(seconds, "s ago")
    } else if seconds < 7200 {
        with_unit(seconds / 60, "m ago")
    } else if seconds < 172_800 {
        with_unit(seconds / 3600, "h ago")
    } else {
        with_unit(seconds / 86_400, "d ago")
    }
}

} // verus!
