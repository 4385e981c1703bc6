//! Dates of the proleptic Gregorian calendar, counted from the Unix epoch, and
//! their ISO 8601 text.

use crate::text;
use crate::text::push_padded;
use crate::text::push_padded_signed;
use vstd::prelude::*;

verus! {

/// Seconds in a day.
pub const SECONDS_PER_DAY: i64 = 86_400;

/// Whether `year` has a 29th of February.
pub open spec fn leap_year(year: int) -> bool {
    year % 4 == 0 && (year % 100 != 0 || year % 400 == 0)
}

/// The length of a month.
pub open spec fn days_in_month(year: int, month: int) -> int {
    if month == 2 {
        if leap_year(year) {
            29
        } else {
            28
        }
    } else if month == 4 || month == 6 || month == 9 || month == 11 {
        30
    } else {
        31
    }
}

/// Days of `year` that lie before the first of `month`.
pub open spec fn days_before_month(year: int, month: int) -> int
    decreases month,
{
    if month <= 1 {
        0
    } else {
        days_before_month(year, month - 1) + days_in_month(year, month - 1)
    }
}

/// Leap years from year 1 up to, and without, `year`.
pub open spec fn leap_years_before(year: int) -> int {
    (year - 1) / 4 - (year - 1) / 100 + (year - 1) / 400
}

/// Days from 1970-01-01 to the first of January of `year`.
pub open spec fn days_before_year(year: int) -> int {
    365 * (year - 1970) + leap_years_before(year) - leap_years_before(1970)
}

/// Whether the calendar has this date.
pub open spec fn is_date(year: int, month: int, day: int) -> bool {
    1 <= month <= 12 && 1 <= day <= days_in_month(year, month)
}

/// Days from 1970-01-01 to the given date.
pub open spec fn day_number(year: int, month: int, day: int) -> int {
    days_before_year(year) + days_before_month(year, month) + day - 1
}

/// The date, as year, month and day, that lies `days` days after 1970-01-01.
pub open spec fn civil_date(days: int) -> (int, int, int) {
    choose|date: (int, int, int)|
        is_date(date.0, date.1, date.2) && #[trigger] day_number(date.0, date.1, date.2) == days
}

/// First day, in a 400-year era that starts on the first of March, of its
/// year `yoe`.
spec fn era_year_start(yoe: int) -> int {
    365 * yoe + yoe / 4 - yoe / 100 + yoe / 400
}

proof fn lemma_year_of_era(doe: int, yoe: int)
    requires
        0 <= doe < 146_097,
        yoe == (doe - doe / 1460 + doe / 36_524 - doe / 146_096) / 365,
    ensures
        0 <= yoe < 400,
        era_year_start(yoe) <= doe < era_year_start(yoe + 1),
{
}

/// Days from the first of March to the first of the month `mp` months later.
spec fn shifted_month_start(mp: int) -> int {
    (153 * mp + 2) / 5
}

proof fn lemma_shifted_month(doy: int, mp: int)
    requires
        0 <= doy <= 365,
        mp == (5 * doy + 2) / 153,
    ensures
        0 <= mp <= 11,
        shifted_month_start(mp) <= doy < shifted_month_start(mp + 1),
{
}

/// The months of a year that starts in March are those of the calendar.
proof fn lemma_month_starts(year: int, month: int)
    requires
        1 <= month <= 12,
    ensures
        month >= 3 ==> days_before_month(year, month) == days_before_month(year, 3)
            + shifted_month_start(month - 3),
        3 <= month ==> shifted_month_start(month - 2) - shifted_month_start(month - 3)
            == days_in_month(year, month),
        month == 1 ==> days_before_month(year, month) == shifted_month_start(10) - 306,
        month == 2 ==> days_before_month(year, month) == shifted_month_start(11) - 306,
        days_before_month(year, 3) == (if leap_year(year) {
            60int
        } else {
            59
        }),
{
    reveal_with_fuel(days_before_month, 13);
}

proof fn lemma_leap_years_step(year: int)
    ensures
        leap_years_before(year + 1) - leap_years_before(year) == (if leap_year(year) {
            1int
        } else {
            0
        }),
{
    assert(year / 4 - (year - 1) / 4 == if year % 4 == 0 {
        1int
    } else {
        0
    });
    assert(year / 100 - (year - 1) / 100 == if year % 100 == 0 {
        1int
    } else {
        0
    });
    assert(year / 400 - (year - 1) / 400 == if year % 400 == 0 {
        1int
    } else {
        0
    });
    assert(year % 100 == 0 ==> year % 4 == 0);
    assert(year % 400 == 0 ==> year % 100 == 0);
}

proof fn lemma_first_of_march(era: int, yoe: int)
    requires
        0 <= yoe <= 400,
    ensures
        ({
            let year = yoe + era * 400;
            day_number(year, 3, 1) == era * 146_097 + era_year_start(yoe) - 719_468
        }),
{
    let year = yoe + era * 400;
    lemma_month_starts(year, 3);
    assert(leap_years_before(1970) == 477);
    assert(year / 4 == yoe / 4 + era * 100);
    assert(year / 100 == yoe / 100 + era * 4);
    assert(year / 400 == yoe / 400 + era);
    lemma_leap_years_step(year);
}

/// The date that the shifted-year computation finds for day `doe` of `era`.
proof fn lemma_civil_from_era(era: int, doe: int, yoe: int, doy: int, mp: int)
    requires
        0 <= doe < 146_097,
        yoe == (doe - doe / 1460 + doe / 36_524 - doe / 146_096) / 365,
        doy == doe - (365 * yoe + yoe / 4 - yoe / 100),
        mp == (5 * doy + 2) / 153,
    ensures
        0 <= yoe < 400,
        0 <= doy <= 365,
        0 <= mp <= 11,
        ({
            let y = yoe + era * 400;
            let m = if mp < 10 {
                mp + 3
            } else {
                mp - 9
            };
            let d = doy - (153 * mp + 2) / 5 + 1;
            let year = if m <= 2 {
                y + 1
            } else {
                y
            };
            is_date(year, m, d) && day_number(year, m, d) == era * 146_097 + doe - 719_468
        }),
{
    lemma_year_of_era(doe, yoe);
    lemma_shifted_month(doy, mp);
    let y = yoe + era * 400;
    lemma_first_of_march(era, yoe);
    lemma_first_of_march(era, yoe + 1);
    lemma_month_starts(y, 3);
    lemma_month_starts(y + 1, 3);
    if mp < 10 {
        lemma_month_starts(y, mp + 3);
    } else {
        lemma_month_starts(y + 1, mp - 9);
        law_year_lengths(y);
        assert(day_number(y + 1, 3, 1) - day_number(y, 3, 1) == if leap_year(y + 1) {
            366int
        } else {
            365
        });
    }
}

/// A year is as many days long as its twelve months, and the first of January
/// of 1970 is day zero: `days_before_year` counts whole years.
pub proof fn law_year_lengths(year: int)
    ensures
        days_before_year(1970) == 0,
        days_before_year(year + 1) - days_before_year(year) == days_before_month(year, 13),
        days_before_month(year, 13) == (if leap_year(year) {
            366int
        } else {
            365
        }),
{
    lemma_month_starts(year, 12);
    lemma_leap_years_step(year);
    assert(days_before_month(year, 13) == days_before_month(year, 12) + days_in_month(year, 12));
}

proof fn lemma_days_before_month_step(year: int, a: int, b: int)
    requires
        1 <= a < b <= 13,
    ensures
        days_before_month(year, a) + days_in_month(year, a) <= days_before_month(year, b),
    decreases b,
{
    if a + 1 < b {
        lemma_days_before_month_step(year, a, b - 1);
    }
}

proof fn lemma_days_before_year_monotone(a: int, b: int)
    requires
        a <= b,
    ensures
        days_before_year(a) <= days_before_year(b),
    decreases b - a,
{
    if a < b {
        lemma_days_before_year_monotone(a, b - 1);
        law_year_lengths(b - 1);
    }
}

proof fn lemma_earlier_year_earlier_day(y1: int, m1: int, d1: int, y2: int, m2: int, d2: int)
    requires
        is_date(y1, m1, d1),
        is_date(y2, m2, d2),
        y1 < y2 || (y1 == y2 && m1 < m2) || (y1 == y2 && m1 == m2 && d1 < d2),
    ensures
        day_number(y1, m1, d1) < day_number(y2, m2, d2),
{
    lemma_days_before_month_step(y1, m1, 13);
    if y1 < y2 {
        law_year_lengths(y1);
        lemma_days_before_year_monotone(y1 + 1, y2);
        if m2 > 1 {
            lemma_days_before_month_step(y2, 1, m2);
        }
    } else if m1 < m2 {
        lemma_days_before_month_step(y1, m1, m2);
    }
}

/// The calendar keeps the order of the days: of two dates the one that comes
/// first by year, month and day has the smaller day number, and no two dates
/// share a day number.
pub proof fn law_dates_are_ordered(y1: int, m1: int, d1: int, y2: int, m2: int, d2: int)
    requires
        is_date(y1, m1, d1),
        is_date(y2, m2, d2),
    ensures
        day_number(y1, m1, d1) < day_number(y2, m2, d2) <==> (y1 < y2 || (y1 == y2 && (m1 < m2 || (
        m1 == m2 && d1 < d2)))),
        day_number(y1, m1, d1) == day_number(y2, m2, d2) <==> (y1 == y2 && m1 == m2 && d1 == d2),
{
    if y1 < y2 || (y1 == y2 && m1 < m2) || (y1 == y2 && m1 == m2 && d1 < d2) {
        lemma_earlier_year_earlier_day(y1, m1, d1, y2, m2, d2);
    } else if y1 != y2 || m1 != m2 || d1 != d2 {
        lemma_earlier_year_earlier_day(y2, m2, d2, y1, m1, d1);
    }
}

/// Every day number has exactly one date, `civil_date`, and every date is the
/// `civil_date` of its day number.
pub proof fn law_civil_date_inverts_day_number(days: int, year: int, month: int, day: int)
    ensures
        is_date(civil_date(days).0, civil_date(days).1, civil_date(days).2),
        day_number(civil_date(days).0, civil_date(days).1, civil_date(days).2) == days,
        is_date(year, month, day) && day_number(year, month, day) == days ==> civil_date(days) == (
            year,
            month,
            day,
        ),
{
    let z = days + 719_468;
    let era = z / 146_097;
    let doe = z % 146_097;
    let yoe = (doe - doe / 1460 + doe / 36_524 - doe / 146_096) / 365;
    let doy = doe - (365 * yoe + yoe / 4 - yoe / 100);
    let mp = (5 * doy + 2) / 153;
    lemma_civil_from_era(era, doe, yoe, doy, mp);
    let y = yoe + era * 400;
    let m = if mp < 10 {
        mp + 3
    } else {
        mp - 9
    };
    let date = (
        if m <= 2 {
            y + 1
        } else {
            y
        },
        m,
        doy - (153 * mp + 2) / 5 + 1,
    );
    assert(day_number(date.0, date.1, date.2) == days);
    let found = civil_date(days);
    if is_date(year, month, day) && day_number(year, month, day) == days {
        law_dates_are_ordered(found.0, found.1, found.2, year, month, day);
    }
}

/// Splits a Unix time in seconds into year, month, day, hour, minute and second
/// of UTC. A year outside the range of `i32` is reduced to its low 32 bits.
pub fn epoch_to_civil(secs: i64) -> (civil: (i32, u32, u32, u32, u32, u32))
    ensures
        civil.0 == civil_date(secs as int / 86_400).0 as i32,
        civil.1 == civil_date(secs as int / 86_400).1,
        civil.2 == civil_date(secs as int / 86_400).2,
        civil.3 == (secs as int % 86_400) / 3600,
        civil.4 == (secs as int % 86_400) % 3600 / 60,
        civil.5 == (secs as int % 86_400) % 60,
{
    let days: i64 = secs.checked_div_euclid(SECONDS_PER_DAY).unwrap();
    let secs_of_day: i64 = secs.checked_rem_euclid(SECONDS_PER_DAY).unwrap();
    let second_of_day: u64 = secs_of_day as u64;
    let hour: u32 = (second_of_day / 3600) as u32;
    let min: u32 = ((second_of_day % 3600) / 60) as u32;
    let sec: u32 = (second_of_day % 60) as u32;

    let z: i64 = days + 719_468;
    let era: i64 = z.checked_div_euclid(146_097).unwrap();
    let doe: u64 = (z - era * 146_097) as u64;
    assert(doe == z as int % 146_097);
    let yoe: u64 = (doe - doe / 1460 + doe / 36_524 - doe / 146_096) / 365;
    proof {
        lemma_year_of_era(doe as int, yoe as int);
    }
    let y: i64 = yoe as i64 + era * 400;
    let doy: u64 = doe - (365 * yoe + yoe / 4 - yoe / 100);
    let mp: u64 = (5 * doy + 2) / 153;
    proof {
        lemma_civil_from_era(era as int, doe as int, yoe as int, doy as int, mp as int);
    }
    let d: u32 = (doy - (153 * mp + 2) / 5 + 1) as u32;
    let m: u32 = (if mp < 10 {
        mp + 3
    } else {
        mp - 9
    }) as u32;
    let full_year: i64 = if m <= 2 {
        y + 1
    } else {
        y
    };
    proof {
        law_civil_date_inverts_day_number(days as int, full_year as int, m as int, d as int);
    }
    let year: i32 = #[verifier::truncate]
    (full_year as i32);
    (year, m, d, hour, min, sec)
}

/// Six fields with the separators of ISO 8601 between them.
pub open spec fn stamp(
    year: Seq<char>,
    month: Seq<char>,
    day: Seq<char>,
    hour: Seq<char>,
    min: Seq<char>,
    sec: Seq<char>,
) -> Seq<char> {
    year + seq!['-'] + month + seq!['-'] + day + seq!['T'] + hour + seq![':'] + min + seq![':']
        + sec + seq!['Z']
}

/// The ISO 8601 text of a Unix time in UTC: `YYYY-MM-DDThh:mm:ssZ`.
pub open spec fn iso_text(secs: i64) -> Seq<char> {
    let date = civil_date(secs as int / 86_400);
    let second = secs as int % 86_400;
    stamp(
        text::padded_signed(date.0 as i32 as int, 4),
        text::padded(date.1 as nat, 2),
        text::padded(date.2 as nat, 2),
        text::padded((second / 3600) as nat, 2),
        text::padded((second % 3600 / 60) as nat, 2),
        text::padded((second % 60) as nat, 2),
    )
}

/// Writes a Unix time in seconds as ISO 8601 text in UTC.
pub fn unix_to_iso(unix_secs: i64) -> (text: String)
    ensures
        text@ == iso_text(unix_secs),
{
    let (year, month, day, hour, min, sec) = epoch_to_civil(unix_secs);
    proof {
        reveal_strlit("-");
        reveal_strlit("T");
        reveal_strlit(":");
        reveal_strlit("Z");
    }
    let mut text = String::new();
    push_padded_signed(&mut text, year, 4);
    text.append("-");
    push_padded(&mut text, month as u64, 2);
    text.append("-");
    push_padded(&mut text, day as u64, 2);
    text.append("T");
    push_padded(&mut text, hour as u64, 2);
    text.append(":");
    push_padded(&mut text, min as u64, 2);
    text.append(":");
    push_padded(&mut text, sec as u64, 2);
    text.append("Z");
    assert(text@ =~= iso_text(unix_secs));
    text
}

/// Whether the year of a Unix time has four digits.
pub open spec fn four_digit_year(secs: i64) -> bool {
    0 <= civil_date(secs as int / 86_400).0 <= 9999
}

/// Whether `a` comes before `b` in dictionary order, character by character.
pub open spec fn dictionary_before(a: Seq<char>, b: Seq<char>) -> bool {
    exists|i: int|
        #![trigger a[i]]
        0 <= i < a.len() && i < b.len() && a.take(i) == b.take(i) && (a[i] as int) < (b[i] as int)
}

proof fn lemma_two_digits(n: int)
    requires
        0 <= n < 100,
    ensures
        text::padded(n as nat, 2) == seq![
            text::digit_char(n / 10),
            text::digit_char(n % 10),
        ],
{
    reveal_with_fuel(text::numeral, 3);
    text::lemma_digit_char_order(0, 0);
    assert(text::padded(n as nat, 2) =~= seq![
        text::digit_char(n / 10),
        text::digit_char(n % 10),
    ]);
}

proof fn lemma_four_digits(n: int)
    requires
        0 <= n < 10_000,
    ensures
        text::padded(n as nat, 4) == seq![
            text::digit_char(n / 1000),
            text::digit_char(n / 100 % 10),
            text::digit_char(n / 10 % 10),
            text::digit_char(n % 10),
        ],
{
    reveal_with_fuel(text::numeral, 5);
    text::lemma_digit_char_order(0, 0);
    assert(n / 10 / 10 == n / 100 && n / 100 / 10 == n / 1000);
    assert(text::padded(n as nat, 4) =~= seq![
        text::digit_char(n / 1000),
        text::digit_char(n / 100 % 10),
        text::digit_char(n / 10 % 10),
        text::digit_char(n % 10),
    ]);
}

proof fn lemma_first_difference(
    prefix: Seq<char>,
    a: Seq<char>,
    b: Seq<char>,
    k: int,
    rest_a: Seq<char>,
    rest_b: Seq<char>,
)
    requires
        a.len() == b.len(),
        0 <= k < a.len(),
        forall|i: int| 0 <= i < k ==> a[i] == b[i],
        (a[k] as int) < (b[k] as int),
    ensures
        dictionary_before(prefix + a + rest_a, prefix + b + rest_b),
{
    let x = prefix + a + rest_a;
    let y = prefix + b + rest_b;
    let n = prefix.len() + k;
    assert(x.take(n) =~= y.take(n));
    assert(x[n] == a[k] && y[n] == b[k]);
}

proof fn lemma_two_digit_field_order(
    prefix: Seq<char>,
    a: int,
    b: int,
    rest_a: Seq<char>,
    rest_b: Seq<char>,
)
    requires
        0 <= a < b < 100,
    ensures
        dictionary_before(
            prefix + text::padded(a as nat, 2) + rest_a,
            prefix + text::padded(b as nat, 2) + rest_b,
        ),
{
    lemma_two_digits(a);
    lemma_two_digits(b);
    let x = text::padded(a as nat, 2);
    let y = text::padded(b as nat, 2);
    if a / 10 < b / 10 {
        text::lemma_digit_char_order(a / 10, b / 10);
        lemma_first_difference(prefix, x, y, 0, rest_a, rest_b);
    } else {
        text::lemma_digit_char_order(a % 10, b % 10);
        lemma_first_difference(prefix, x, y, 1, rest_a, rest_b);
    }
}

/// Of two numbers with four digits the smaller one has the smaller digit at the
/// first place where they differ.
proof fn lemma_decimal_places(a: int, b: int)
    requires
        0 <= a < b < 10_000,
    ensures
        0 <= a / 1000 < 10 && 0 <= b / 1000 < 10,
        a / 1000 < b / 1000 || (a / 1000 == b / 1000 && a / 100 % 10 < b / 100 % 10) || (a / 1000
            == b / 1000 && a / 100 % 10 == b / 100 % 10 && a / 10 % 10 < b / 10 % 10) || (a / 1000
            == b / 1000 && a / 100 % 10 == b / 100 % 10 && a / 10 % 10 == b / 10 % 10 && a % 10 < b
            % 10),
{
}

proof fn lemma_digits_order(
    a: Seq<int>,
    b: Seq<int>,
    x: Seq<char>,
    y: Seq<char>,
    k: int,
    rest_a: Seq<char>,
    rest_b: Seq<char>,
)
    requires
        a.len() == b.len() == x.len() == y.len(),
        forall|i: int| 0 <= i < a.len() ==> x[i] == text::digit_char(#[trigger] a[i]),
        forall|i: int| 0 <= i < b.len() ==> y[i] == text::digit_char(#[trigger] b[i]),
        0 <= k < a.len(),
        0 <= a[k] < b[k] < 10,
        forall|i: int| 0 <= i < k ==> a[i] == b[i],
    ensures
        dictionary_before(x + rest_a, y + rest_b),
{
    text::lemma_digit_char_order(a[k], b[k]);
    let none = Seq::<char>::empty();
    assert(none + x =~= x && none + y =~= y);
    assert forall|i: int| 0 <= i < k implies x[i] == y[i] by {
        assert(a[i] == b[i]);
    }
    lemma_first_difference(none, x, y, k, rest_a, rest_b);
}

proof fn lemma_four_digit_field_order(a: int, b: int, rest_a: Seq<char>, rest_b: Seq<char>)
    requires
        0 <= a < b < 10_000,
    ensures
        dictionary_before(text::padded(a as nat, 4) + rest_a, text::padded(b as nat, 4) + rest_b),
{
    lemma_four_digits(a);
    lemma_four_digits(b);
    lemma_decimal_places(a, b);
    let x = text::padded(a as nat, 4);
    let y = text::padded(b as nat, 4);
    let places_a = seq![a / 1000, a / 100 % 10, a / 10 % 10, a % 10];
    let places_b = seq![b / 1000, b / 100 % 10, b / 10 % 10, b % 10];
    let k = if places_a[0] != places_b[0] {
        0int
    } else if places_a[1] != places_b[1] {
        1
    } else if places_a[2] != places_b[2] {
        2
    } else {
        3
    };
    lemma_digits_order(places_a, places_b, x, y, k, rest_a, rest_b);
}

/// The text of a time in a four-digit year is twenty characters long, with its
/// separators at fixed places.
pub proof fn law_iso_text_layout(secs: i64)
    requires
        four_digit_year(secs),
    ensures
        iso_text(secs).len() == 20,
        iso_text(secs)[4] == '-',
        iso_text(secs)[7] == '-',
        iso_text(secs)[10] == 'T',
        iso_text(secs)[13] == ':',
        iso_text(secs)[16] == ':',
        iso_text(secs)[19] == 'Z',
{
    let date = civil_date(secs as int / 86_400);
    let second = secs as int % 86_400;
    law_civil_date_inverts_day_number(secs as int / 86_400, 0, 0, 0);
    lemma_four_digits(date.0);
    lemma_two_digits(date.1);
    lemma_two_digits(date.2);
    lemma_two_digits(second / 3600);
    lemma_two_digits(second % 3600 / 60);
    lemma_two_digits(second % 60);
}

spec fn tail_after_hour(min: Seq<char>, sec: Seq<char>) -> Seq<char> {
    seq![':'] + min + seq![':'] + sec + seq!['Z']
}

spec fn tail_after_day(hour: Seq<char>, min: Seq<char>, sec: Seq<char>) -> Seq<char> {
    seq!['T'] + hour + tail_after_hour(min, sec)
}

spec fn tail_after_month(
    day: Seq<char>,
    hour: Seq<char>,
    min: Seq<char>,
    sec: Seq<char>,
) -> Seq<char> {
    seq!['-'] + day + tail_after_day(hour, min, sec)
}

spec fn tail_after_year(
    month: Seq<char>,
    day: Seq<char>,
    hour: Seq<char>,
    min: Seq<char>,
    sec: Seq<char>,
) -> Seq<char> {
    seq!['-'] + month + tail_after_month(day, hour, min, sec)
}

/// A stamp, cut before and after each of its fields.
proof fn lemma_stamp_parts(
    year: Seq<char>,
    month: Seq<char>,
    day: Seq<char>,
    hour: Seq<char>,
    min: Seq<char>,
    sec: Seq<char>,
)
    ensures
        stamp(year, month, day, hour, min, sec) == year + tail_after_year(
            month,
            day,
            hour,
            min,
            sec,
        ),
        stamp(year, month, day, hour, min, sec) == year + seq!['-'] + month + tail_after_month(
            day,
            hour,
            min,
            sec,
        ),
        stamp(year, month, day, hour, min, sec) == year + seq!['-'] + month + seq!['-'] + day
            + tail_after_day(hour, min, sec),
        stamp(year, month, day, hour, min, sec) == year + seq!['-'] + month + seq!['-'] + day
            + seq!['T'] + hour + tail_after_hour(min, sec),
        stamp(year, month, day, hour, min, sec) == year + seq!['-'] + month + seq!['-'] + day
            + seq!['T'] + hour + seq![':'] + min + (seq![':'] + sec + seq!['Z']),
{
    let whole = stamp(year, month, day, hour, min, sec);
    let before_min = year + seq!['-'] + month + seq!['-'] + day + seq!['T'] + hour + seq![':'];
    assert(whole =~= before_min + min + (seq![':'] + sec + seq!['Z']));
    let before_hour = year + seq!['-'] + month + seq!['-'] + day + seq!['T'];
    assert(whole =~= before_hour + hour + tail_after_hour(min, sec));
    let before_day = year + seq!['-'] + month + seq!['-'];
    assert(before_hour + hour + tail_after_hour(min, sec) =~= before_day + day + tail_after_day(
        hour,
        min,
        sec,
    ));
    let before_month = year + seq!['-'];
    assert(before_day + day + tail_after_day(hour, min, sec) =~= before_month + month
        + tail_after_month(day, hour, min, sec));
    assert(before_month + month + tail_after_month(day, hour, min, sec) =~= year + tail_after_year(
        month,
        day,
        hour,
        min,
        sec,
    ));
}

/// The stamp of a date and a time of day, in fixed-width fields.
#[verifier::opaque]
spec fn field_stamp(y: int, m: int, d: int, h: int, mi: int, sc: int) -> Seq<char> {
    stamp(
        text::padded(y as nat, 4),
        text::padded(m as nat, 2),
        text::padded(d as nat, 2),
        text::padded(h as nat, 2),
        text::padded(mi as nat, 2),
        text::padded(sc as nat, 2),
    )
}

proof fn lemma_date_fields_sort(
    y1: int,
    m1: int,
    d1: int,
    h1: int,
    mi1: int,
    sc1: int,
    y2: int,
    m2: int,
    d2: int,
    h2: int,
    mi2: int,
    sc2: int,
)
    requires
        0 <= y1 < 10_000,
        0 <= y2 < 10_000,
        0 <= m1 < 100,
        0 <= m2 < 100,
        0 <= d1 < 100,
        0 <= d2 < 100,
        y1 < y2 || (y1 == y2 && m1 < m2) || (y1 == y2 && m1 == m2 && d1 < d2),
    ensures
        dictionary_before(
            field_stamp(y1, m1, d1, h1, mi1, sc1),
            field_stamp(y2, m2, d2, h2, mi2, sc2),
        ),
{
    reveal(field_stamp);
    let year1 = text::padded(y1 as nat, 4);
    let year2 = text::padded(y2 as nat, 4);
    let month1 = text::padded(m1 as nat, 2);
    let month2 = text::padded(m2 as nat, 2);
    let day1 = text::padded(d1 as nat, 2);
    let day2 = text::padded(d2 as nat, 2);
    let hour1 = text::padded(h1 as nat, 2);
    let hour2 = text::padded(h2 as nat, 2);
    let min1 = text::padded(mi1 as nat, 2);
    let min2 = text::padded(mi2 as nat, 2);
    let sec1 = text::padded(sc1 as nat, 2);
    let sec2 = text::padded(sc2 as nat, 2);
    lemma_stamp_parts(year1, month1, day1, hour1, min1, sec1);
    lemma_stamp_parts(year2, month2, day2, hour2, min2, sec2);
    if y1 < y2 {
        lemma_four_digit_field_order(
            y1,
            y2,
            tail_after_year(month1, day1, hour1, min1, sec1),
            tail_after_year(month2, day2, hour2, min2, sec2),
        );
    } else if m1 < m2 {
        lemma_two_digit_field_order(
            year1 + seq!['-'],
            m1,
            m2,
            tail_after_month(day1, hour1, min1, sec1),
            tail_after_month(day2, hour2, min2, sec2),
        );
    } else {
        lemma_two_digit_field_order(
            year1 + seq!['-'] + month1 + seq!['-'],
            d1,
            d2,
            tail_after_day(hour1, min1, sec1),
            tail_after_day(hour2, min2, sec2),
        );
    }
}

proof fn lemma_time_fields_sort(
    y: int,
    m: int,
    d: int,
    h1: int,
    mi1: int,
    sc1: int,
    h2: int,
    mi2: int,
    sc2: int,
)
    requires
        0 <= h1 < 100,
        0 <= h2 < 100,
        0 <= mi1 < 100,
        0 <= mi2 < 100,
        0 <= sc1 < 100,
        0 <= sc2 < 100,
        h1 < h2 || (h1 == h2 && mi1 < mi2) || (h1 == h2 && mi1 == mi2 && sc1 < sc2),
    ensures
        dictionary_before(
            field_stamp(y, m, d, h1, mi1, sc1),
            field_stamp(y, m, d, h2, mi2, sc2),
        ),
{
    reveal(field_stamp);
    let year = text::padded(y as nat, 4);
    let month = text::padded(m as nat, 2);
    let day = text::padded(d as nat, 2);
    let hour1 = text::padded(h1 as nat, 2);
    let hour2 = text::padded(h2 as nat, 2);
    let min1 = text::padded(mi1 as nat, 2);
    let min2 = text::padded(mi2 as nat, 2);
    let sec1 = text::padded(sc1 as nat, 2);
    let sec2 = text::padded(sc2 as nat, 2);
    lemma_stamp_parts(year, month, day, hour1, min1, sec1);
    lemma_stamp_parts(year, month, day, hour2, min2, sec2);
    let before_hour = year + seq!['-'] + month + seq!['-'] + day + seq!['T'];
    if h1 < h2 {
        lemma_two_digit_field_order(
            before_hour,
            h1,
            h2,
            tail_after_hour(min1, sec1),
            tail_after_hour(min2, sec2),
        );
    } else if mi1 < mi2 {
        lemma_two_digit_field_order(
            before_hour + hour1 + seq![':'],
            mi1,
            mi2,
            seq![':'] + sec1 + seq!['Z'],
            seq![':'] + sec2 + seq!['Z'],
        );
    } else {
        lemma_two_digit_field_order(
            before_hour + hour1 + seq![':'] + min1 + seq![':'],
            sc1,
            sc2,
            seq!['Z'],
            seq!['Z'],
        );
    }
}

proof fn lemma_iso_text_fields(secs: i64)
    requires
        four_digit_year(secs),
    ensures
        ({
            let date = civil_date(secs as int / 86_400);
            let second = secs as int % 86_400;
            iso_text(secs) == field_stamp(
                date.0,
                date.1,
                date.2,
                second / 3600,
                second % 3600 / 60,
                second % 60,
            )
        }),
{
    reveal(field_stamp);
}

proof fn lemma_time_of_day_order(s1: int, s2: int)
    requires
        0 <= s1 < s2 < 86_400,
    ensures
        s1 / 3600 < s2 / 3600 || (s1 / 3600 == s2 / 3600 && s1 % 3600 / 60 < s2 % 3600 / 60) || (s1
            / 3600 == s2 / 3600 && s1 % 3600 / 60 == s2 % 3600 / 60 && s1 % 60 < s2 % 60),
{
}

proof fn lemma_before_differs(a: Seq<char>, b: Seq<char>)
    requires
        dictionary_before(a, b),
    ensures
        a != b,
{
}

/// Within the four-digit years the dictionary order of the texts is the order
/// of the times; in particular different times have different texts.
pub proof fn law_iso_text_sorts_by_time(earlier: i64, later: i64)
    requires
        four_digit_year(earlier),
        four_digit_year(later),
        earlier < later,
    ensures
        dictionary_before(iso_text(earlier), iso_text(later)),
        iso_text(earlier) != iso_text(later),
{
    let days1 = earlier as int / 86_400;
    let days2 = later as int / 86_400;
    let (y1, m1, d1) = civil_date(days1);
    let (y2, m2, d2) = civil_date(days2);
    let s1 = earlier as int % 86_400;
    let s2 = later as int % 86_400;
    let (h1, mi1, sc1) = (s1 / 3600, s1 % 3600 / 60, s1 % 60);
    let (h2, mi2, sc2) = (s2 / 3600, s2 % 3600 / 60, s2 % 60);
    assert(dictionary_before(
        field_stamp(y1, m1, d1, h1, mi1, sc1),
        field_stamp(y2, m2, d2, h2, mi2, sc2),
    )) by {
        law_civil_date_inverts_day_number(days1, 0, 0, 0);
        law_civil_date_inverts_day_number(days2, 0, 0, 0);
        if days1 < days2 {
            law_dates_are_ordered(y1, m1, d1, y2, m2, d2);
            lemma_date_fields_sort(y1, m1, d1, h1, mi1, sc1, y2, m2, d2, h2, mi2, sc2);
        } else {
            lemma_time_of_day_order(s1, s2);
            lemma_time_fields_sort(y1, m1, d1, h1, mi1, sc1, h2, mi2, sc2);
        }
    }
    lemma_iso_text_fields(earlier);
    lemma_iso_text_fields(later);
    lemma_before_differs(iso_text(earlier), iso_text(later));
}

/// The lengths of the twelve months.
pub proof fn law_month_lengths(year: int)
    ensures
        days_in_month(year, 1) == 31,
        leap_year(year) ==> days_in_month(year, 2) == 29,
        !leap_year(year) ==> days_in_month(year, 2) == 28,
        days_in_month(year, 3) == 31,
        days_in_month(year, 4) == 30,
        days_in_month(year, 5) == 31,
        days_in_month(year, 6) == 30,
        days_in_month(year, 7) == 31,
        days_in_month(year, 8) == 31,
        days_in_month(year, 9) == 30,
        days_in_month(year, 10) == 31,
        days_in_month(year, 11) == 30,
        days_in_month(year, 12) == 31,
{
}

/// Every fourth year is a leap year, but of the full centuries only every fourth
/// one.
pub proof fn law_leap_years(year: int)
    ensures
        year % 4 != 0 ==> !leap_year(year),
        year % 4 == 0 && year % 100 != 0 ==> leap_year(year),
        year % 100 == 0 && year % 400 != 0 ==> !leap_year(year),
        year % 400 == 0 ==> leap_year(year),
{
}

/// Day zero is the first of January of 1970. After a day comes the next one of its
/// month, after the last one of a month the first of the next month, and after the
/// last one of December the first of January of the next year.
pub proof fn law_days_follow_each_other(days: int)
    ensures
        civil_date(0) == (1970int, 1int, 1int),
        ({
            let (year, month, day) = civil_date(days);
            &&& 1 <= month <= 12
            &&& 1 <= day <= days_in_month(year, month)
            &&& civil_date(days + 1) == if day < days_in_month(year, month) {
                (year, month, day + 1)
            } else if month < 12 {
                (year, month + 1, 1int)
            } else {
                (year + 1, 1int, 1int)
            }
        }),
{
    law_year_lengths(1970);
    assert(days_before_month(1970, 1) == 0);
    law_civil_date_inverts_day_number(0, 1970, 1, 1);
    law_civil_date_inverts_day_number(days, 0, 0, 0);
    let (year, month, day) = civil_date(days);
    if day < days_in_month(year, month) {
        law_civil_date_inverts_day_number(days + 1, year, month, day + 1);
    } else if month < 12 {
        assert(days_before_month(year, month + 1) == days_before_month(year, month)
            + days_in_month(year, month));
        law_civil_date_inverts_day_number(days + 1, year, month + 1, 1);
    } else {
        law_year_lengths(year);
        assert(days_before_month(year, 13) == days_before_month(year, 12) + days_in_month(
            year,
            12,
        ));
        assert(days_before_month(year + 1, 1) == 0);
        law_civil_date_inverts_day_number(days + 1, year + 1, 1, 1);
    }
}

/// The six fields of a time give the time back, where the year fits: the days of
/// the date, and the hours, minutes and seconds of the day, all in their ranges.
pub proof fn law_fields_give_back_the_time(
    secs: i64,
    civil: (i32, u32, u32, u32, u32, u32),
)
    requires
        civil.0 == civil_date(secs as int / 86_400).0 as i32,
        civil.1 == civil_date(secs as int / 86_400).1,
        civil.2 == civil_date(secs as int / 86_400).2,
        civil.3 == (secs as int % 86_400) / 3600,
        civil.4 == (secs as int % 86_400) % 3600 / 60,
        civil.5 == (secs as int % 86_400) % 60,
        i32::MIN <= civil_date(secs as int / 86_400).0 <= i32::MAX,
    ensures
        day_number(civil.0 as int, civil.1 as int, civil.2 as int) * 86_400 + civil.3 * 3600
            + civil.4 * 60 + civil.5 == secs,
        1 <= civil.1 <= 12,
        1 <= civil.2 <= 31,
        civil.3 < 24,
        civil.4 < 60,
        civil.5 < 60,
{
    law_civil_date_inverts_day_number(secs as int / 86_400, 0, 0, 0);
}

/// The text of a time tells, from its end: `Z`, the second, a colon, the minute, a
/// colon, the hour, `T`, the day, a dash, the month, a dash, each in two digits; and
/// in front of that the year, in four characters or more, with a minus sign where
/// it is negative.
pub proof fn law_iso_text_tells_every_field(secs: i64)
    ensures
        ({
            let iso = iso_text(secs);
            let n = iso.len() as int;
            let date = civil_date(secs as int / 86_400);
            let second = secs as int % 86_400;
            &&& n >= 20
            &&& date.0 as i32 >= 0 ==> text::value_of(iso.take(n - 16), 10) == date.0 as i32
            &&& (date.0 as i32) < 0 ==> iso[0] == '-' && text::value_of(iso.subrange(1, n - 16), 10)
                == -(date.0 as i32)
            &&& iso[n - 16] == '-'
            &&& text::value_of(iso.subrange(n - 15, n - 13), 10) == date.1
            &&& iso[n - 13] == '-'
            &&& text::value_of(iso.subrange(n - 12, n - 10), 10) == date.2
            &&& iso[n - 10] == 'T'
            &&& text::value_of(iso.subrange(n - 9, n - 7), 10) == second / 3600
            &&& iso[n - 7] == ':'
            &&& text::value_of(iso.subrange(n - 6, n - 4), 10) == second % 3600 / 60
            &&& iso[n - 4] == ':'
            &&& text::value_of(iso.subrange(n - 3, n - 1), 10) == second % 60
            &&& iso[n - 1] == 'Z'
        }),
{
    let iso = iso_text(secs);
    let n = iso.len() as int;
    let date = civil_date(secs as int / 86_400);
    let second = secs as int % 86_400;
    law_civil_date_inverts_day_number(secs as int / 86_400, 0, 0, 0);
    let year = text::padded_signed(date.0 as i32 as int, 4);
    let month = text::padded(date.1 as nat, 2);
    let day = text::padded(date.2 as nat, 2);
    let hour = text::padded((second / 3600) as nat, 2);
    let min = text::padded((second % 3600 / 60) as nat, 2);
    let sec = text::padded((second % 60) as nat, 2);
    lemma_two_digits(date.1);
    lemma_two_digits(date.2);
    lemma_two_digits(second / 3600);
    lemma_two_digits(second % 3600 / 60);
    lemma_two_digits(second % 60);
    text::law_signed_value(date.0 as i32 as int, 4);
    text::law_padded_value(date.1 as nat, 2);
    text::law_padded_value(date.2 as nat, 2);
    text::law_padded_value((second / 3600) as nat, 2);
    text::law_padded_value((second % 3600 / 60) as nat, 2);
    text::law_padded_value((second % 60) as nat, 2);
    lemma_stamp_cuts(year, month, day, hour, min, sec);
    assert(iso == stamp(year, month, day, hour, min, sec));
    assert(iso.take(n - 16).skip(1) =~= iso.subrange(1, n - 16));
    assert(iso[0] == iso.take(n - 16)[0]);
}

proof fn lemma_stamp_cuts(
    year: Seq<char>,
    month: Seq<char>,
    day: Seq<char>,
    hour: Seq<char>,
    min: Seq<char>,
    sec: Seq<char>,
)
    requires
        month.len() == 2,
        day.len() == 2,
        hour.len() == 2,
        min.len() == 2,
        sec.len() == 2,
    ensures
        ({
            let whole = stamp(year, month, day, hour, min, sec);
            let n = whole.len() as int;
            &&& n == year.len() + 16
            &&& whole.take(n - 16) == year
            &&& whole[n - 16] == '-'
            &&& whole.subrange(n - 15, n - 13) == month
            &&& whole[n - 13] == '-'
            &&& whole.subrange(n - 12, n - 10) == day
            &&& whole[n - 10] == 'T'
            &&& whole.subrange(n - 9, n - 7) == hour
            &&& whole[n - 7] == ':'
            &&& whole.subrange(n - 6, n - 4) == min
            &&& whole[n - 4] == ':'
            &&& whole.subrange(n - 3, n - 1) == sec
            &&& whole[n - 1] == 'Z'
        }),
{
    let whole = stamp(year, month, day, hour, min, sec);
    let n = whole.len() as int;
    assert(n == year.len() + 16);
    assert(whole.take(n - 16) =~= year);
    assert(whole.subrange(n - 15, n - 13) =~= month);
    assert(whole.subrange(n - 12, n - 10) =~= day);
    assert(whole.subrange(n - 9, n - 7) =~= hour);
    assert(whole.subrange(n - 6, n - 4) =~= min);
    assert(whole.subrange(n - 3, n - 1) =~= sec);
}

} // verus!
