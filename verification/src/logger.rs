//! Names, times and lines of the session log files, and which files are kept.

use vstd::prelude::*;
use crate::text::{
    chars_of, comes_before, decimal, decimal_value, law_decimals_read_back,
    law_digits_stand_for_the_number, push_decimal, push_text, push_two_digits, text_before, texts,
    two_digits,
};

verus! {

/// How many session files are kept.
pub const MAX_SESSIONS: usize = 30;

/// A year with a leap day.
pub open spec fn is_leap(year: int) -> bool {
    year % 4 == 0 && (year % 100 != 0 || year % 400 == 0)
}

/// Leap years from year 1 to the given one, counted on for earlier years.
pub open spec fn leap_years(year: int) -> int {
    year / 4 - year / 100 + year / 400
}

/// Days of the year before the first day of a month.
pub open spec fn days_before_month(year: int, month: int) -> int {
    let leap: int = if is_leap(year) {
        1
    } else {
        0
    };
    if month <= 1 {
        0
    } else if month == 2 {
        31
    } else if month == 3 {
        59 + leap
    } else if month == 4 {
        90 + leap
    } else if month == 5 {
        120 + leap
    } else if month == 6 {
        151 + leap
    } else if month == 7 {
        181 + leap
    } else if month == 8 {
        212 + leap
    } else if month == 9 {
        243 + leap
    } else if month == 10 {
        273 + leap
    } else if month == 11 {
        304 + leap
    } else if month == 12 {
        334 + leap
    } else {
        365 + leap
    }
}

/// A day of the Gregorian calendar.
pub open spec fn valid_date(year: int, month: int, day: int) -> bool {
    1 <= month <= 12 && 1 <= day <= days_before_month(year, month + 1) - days_before_month(
        year,
        month,
    )
}

/// Days from 1 January 1970 to the given date.
pub open spec fn day_number(year: int, month: int, day: int) -> int {
    365 * (year - 1970) + leap_years(year - 1) - leap_years(1969) + days_before_month(year, month)
        + day - 1
}

/// Leap years are counted one by one.
proof fn lemma_leap_step(year: int)
    ensures
        leap_years(year) == leap_years(year - 1) + if is_leap(year) {
            1int
        } else {
            0int
        },
{
    lemma_quotient_step(year, 4);
    lemma_quotient_step(year, 100);
    lemma_quotient_step(year, 400);
    assert(year % 400 == 0 ==> year % 100 == 0);
    assert(year % 100 == 0 ==> year % 4 == 0);
}

/// A quotient grows where the divisor divides.
proof fn lemma_quotient_step(n: int, k: int)
    requires
        k > 1,
    ensures
        n / k == (n - 1) / k + if n % k == 0 {
            1int
        } else {
            0int
        },
{
    vstd::arithmetic::div_mod::lemma_fundamental_div_mod(n, k);
    vstd::arithmetic::div_mod::lemma_mod_bound(n, k);
    let q = n / k;
    let r = n % k;
    if r == 0 {
        assert(n - 1 == (q - 1) * k + (k - 1)) by (nonlinear_arith)
            requires
                n == k * q + r,
                r == 0,
        ;
        vstd::arithmetic::div_mod::lemma_fundamental_div_mod_converse(n - 1, k, q - 1, k - 1);
    } else {
        assert(n - 1 == q * k + (r - 1)) by (nonlinear_arith)
            requires
                n == k * q + r,
        ;
        vstd::arithmetic::div_mod::lemma_fundamental_div_mod_converse(n - 1, k, q, r - 1);
    }
}

/// Two dates with the same day number are the same date.
pub proof fn law_dates_are_unique(y1: int, m1: int, d1: int, y2: int, m2: int, d2: int)
    requires
        valid_date(y1, m1, d1),
        valid_date(y2, m2, d2),
        day_number(y1, m1, d1) == day_number(y2, m2, d2),
    ensures
        y1 == y2,
        m1 == m2,
        d1 == d2,
{
    lemma_day_in_year(y1, m1, d1);
    lemma_day_in_year(y2, m2, d2);
    if y1 < y2 {
        lemma_years_ascend(y1, y2);
    } else if y2 < y1 {
        lemma_years_ascend(y2, y1);
    }
}

proof fn lemma_day_in_year(year: int, month: int, day: int)
    requires
        valid_date(year, month, day),
    ensures
        day_number(year, 1, 1) <= day_number(year, month, day) < day_number(year + 1, 1, 1),
{
    lemma_leap_step(year);
}

proof fn lemma_years_ascend(earlier: int, later: int)
    requires
        earlier < later,
    ensures
        day_number(earlier + 1, 1, 1) <= day_number(later, 1, 1),
    decreases later - earlier,
{
    if earlier + 1 < later {
        lemma_years_ascend(earlier + 1, later);
        lemma_leap_step(earlier + 1);
    }
}

/// The first day of March of a year, from which months are counted so that the leap
/// day comes last.
proof fn lemma_march(era: int, yoe: int)
    requires
        0 <= yoe < 400,
    ensures
        day_number(400 * era + yoe, 3, 1) == 146097 * era + 365 * yoe + yoe / 4 - yoe / 100
            - 719468,
{
    let year = 400 * era + yoe;
    lemma_leap_step(year);
    assert(year / 4 == 100 * era + yoe / 4);
    assert(year / 100 == 4 * era + yoe / 100);
    assert(year / 400 == era);
    assert(leap_years(1969) == 477);
}

/// Month and day behind a number of days since 1 March.
fn month_and_day(doy: i64) -> (md: (i64, i64))
    requires
        0 <= doy <= 365,
    ensures
        1 <= md.0 <= 12,
        md.0 >= 3 ==> doy == days_before_month(2023, md.0 as int) - 59 + md.1 - 1,
        md.0 == 1 ==> doy == 306 + md.1 - 1,
        md.0 == 2 ==> doy == 337 + md.1 - 1,
        1 <= md.1,
        md.0 != 2 ==> md.1 <= days_before_month(2023, md.0 + 1) - days_before_month(
            2023,
            md.0 as int,
        ),
        md.0 == 2 ==> md.1 <= 29,
        md.0 == 2 && md.1 == 29 ==> doy == 365,
{
    let mp: i64 = (5 * doy + 2) / 153;
    let day: i64 = doy - (153 * mp + 2) / 5 + 1;
    let month: i64 = if mp < 10 {
        mp + 3
    } else {
        mp - 9
    };
    proof {
        assert(!is_leap(2023));
        assert(0 <= mp <= 11);
        if mp == 0 {
        } else if mp == 1 {
        } else if mp == 2 {
        } else if mp == 3 {
        } else if mp == 4 {
        } else if mp == 5 {
        } else if mp == 6 {
        } else if mp == 7 {
        } else if mp == 8 {
        } else if mp == 9 {
        } else if mp == 10 {
        } else {
        }
    }
    (month, day)
}

/// Year of the era and day of the year behind a day of an era of 400 years that
/// begins in March.
fn year_of_era(doe: i64) -> (split: (i64, i64))
    requires
        0 <= doe < 146_097,
    ensures
        0 <= split.0 < 400,
        0 <= split.1 <= 365,
        doe == 365 * split.0 + split.0 / 4 - split.0 / 100 + split.1,
        split.1 == 365 ==> (split.0 + 1) % 4 == 0 && ((split.0 + 1) % 100 != 0 || split.0 == 399),
{
    // Of the four centuries only the last one ends with a leap day.
    let century: i64 = if doe / 36_524 < 3 {
        doe / 36_524
    } else {
        3
    };
    let in_century: i64 = doe - century * 36_524;
    assert(0 <= in_century <= 36_524);
    assert(century < 3 ==> in_century < 36_524);
    let group: i64 = in_century / 1_461;
    let in_group: i64 = in_century - group * 1_461;
    assert(0 <= group <= 24);
    assert(group == 24 && century < 3 ==> in_group < 1_460);
    let turn: i64 = if in_group / 365 < 3 {
        in_group / 365
    } else {
        3
    };
    let doy: i64 = in_group - turn * 365;
    assert(doy == 365 ==> turn == 3 && in_group == 1_460);
    let yoe: i64 = 100 * century + 4 * group + turn;
    assert(yoe / 4 == 25 * century + group);
    assert(yoe / 100 == century);
    (yoe, doy)
}

/// Putting year, month and day together.
proof fn lemma_assemble(days: int, era: int, yoe: int, doy: int, month: int, day: int)
    requires
        0 <= yoe < 400,
        0 <= doy <= 365,
        days == 146097 * era + 365 * yoe + yoe / 4 - yoe / 100 + doy - 719468,
        doy == 365 ==> (yoe + 1) % 4 == 0 && ((yoe + 1) % 100 != 0 || yoe == 399),
        1 <= month <= 12,
        1 <= day,
        month >= 3 ==> doy == days_before_month(2023, month) - 59 + day - 1,
        month == 1 ==> doy == 306 + day - 1,
        month == 2 ==> doy == 337 + day - 1,
        month != 2 ==> day <= days_before_month(2023, month + 1) - days_before_month(2023, month),
        month == 2 ==> day <= 29,
        month == 2 && day == 29 ==> doy == 365,
    ensures
        ({
            let year = if month <= 2 {
                400 * era + yoe + 1
            } else {
                400 * era + yoe
            };
            valid_date(year, month, day) && day_number(year, month, day) == days
        }),
{
    if month <= 2 {
        lemma_assemble_early(days, era, yoe, doy, month, day);
    } else {
        lemma_assemble_late(days, era, yoe, doy, month, day);
    }
}

/// March to December belong to the year that began in their own January.
proof fn lemma_assemble_late(days: int, era: int, yoe: int, doy: int, month: int, day: int)
    requires
        0 <= yoe < 400,
        days == 146097 * era + 365 * yoe + yoe / 4 - yoe / 100 + doy - 719468,
        3 <= month <= 12,
        1 <= day,
        doy == days_before_month(2023, month) - 59 + day - 1,
        day <= days_before_month(2023, month + 1) - days_before_month(2023, month),
    ensures
        valid_date(400 * era + yoe, month, day),
        day_number(400 * era + yoe, month, day) == days,
{
    lemma_march(era, yoe);
    assert(!is_leap(2023));
    lemma_months_alike(400 * era + yoe, month);
    lemma_months_alike(400 * era + yoe, month + 1);
}

/// Behind February all years run alike.
proof fn lemma_months_alike(year: int, month: int)
    requires
        3 <= month <= 13,
    ensures
        days_before_month(year, month) - days_before_month(year, 3) == days_before_month(2023, month)
            - 59,
{
    assert(!is_leap(2023));
}

/// January and February belong to the next year.
proof fn lemma_assemble_early(days: int, era: int, yoe: int, doy: int, month: int, day: int)
    requires
        0 <= yoe < 400,
        days == 146097 * era + 365 * yoe + yoe / 4 - yoe / 100 + doy - 719468,
        doy == 365 ==> (yoe + 1) % 4 == 0 && ((yoe + 1) % 100 != 0 || yoe == 399),
        1 <= month <= 2,
        1 <= day,
        month == 1 ==> doy == 306 + day - 1 && day <= 31,
        month == 2 ==> doy == 337 + day - 1 && day <= 29,
        month == 2 && day == 29 ==> doy == 365,
    ensures
        valid_date(400 * era + yoe + 1, month, day),
        day_number(400 * era + yoe + 1, month, day) == days,
{
    let march_year = 400 * era + yoe;
    let next = march_year + 1;
    lemma_march(era, yoe);
    lemma_leap_step(march_year);
    if doy == 365 {
        lemma_leap_in_era(era, yoe + 1);
    }
}

/// Leap years repeat with every era.
proof fn lemma_leap_in_era(era: int, yoe: int)
    requires
        1 <= yoe <= 400,
        yoe % 4 == 0,
        yoe % 100 != 0 || yoe == 400,
    ensures
        is_leap(400 * era + yoe),
{
    let year = 400 * era + yoe;
    assert(year % 4 == yoe % 4);
    assert(year % 100 == yoe % 100);
    assert(year % 400 == yoe % 400);
}

/// The date of a day number.
pub fn civil_from_days(days: i64) -> (date: (i64, i64, i64))
    requires
        -0x4000_0000_0000_0000 <= days <= 0x4000_0000_0000_0000,
    ensures
        valid_date(date.0 as int, date.1 as int, date.2 as int),
        day_number(date.0 as int, date.1 as int, date.2 as int) == days,
{
    let z: i64 = days + 719_468;
    let era: i64 = floor_div(z, 146_097);
    assert(z == era * 146_097 + z as int % 146_097 && 0 <= z as int % 146_097 < 146_097);
    let doe: i64 = z - era * 146_097;
    let (yoe, doy) = year_of_era(doe);
    let (month, day) = month_and_day(doy);
    proof {
        lemma_assemble(
            days as int,
            era as int,
            yoe as int,
            doy as int,
            month as int,
            day as int,
        );
    }
    let year: i64 = if month <= 2 {
        era * 400 + yoe + 1
    } else {
        era * 400 + yoe
    };
    (year, month, day)
}

/// Division that rounds down.
fn floor_div(value: i64, by: i64) -> (quotient: i64)
    requires
        by > 0,
    ensures
        quotient == value as int / by as int,
{
    if value >= 0 {
        value / by
    } else {
        let magnitude: i64 = -(value + 1);
        let q: i64 = magnitude / by;
        proof {
            let m = magnitude as int;
            let b = by as int;
            vstd::arithmetic::div_mod::lemma_fundamental_div_mod(m, b);
            vstd::arithmetic::div_mod::lemma_mod_bound(m, b);
            let r = m % b;
            assert(value as int == (-(q as int) - 1) * b + (b - 1 - r)) by (nonlinear_arith)
                requires
                    m == b * q + r,
                    value as int == -m - 1,
            ;
            vstd::arithmetic::div_mod::lemma_fundamental_div_mod_converse(
                value as int,
                b,
                -(q as int) - 1,
                b - 1 - r,
            );
        }
        -q - 1
    }
}

/// Zeros in front of a number so that it fills a width.
pub open spec fn zero_padded(n: nat, width: nat) -> Seq<char> {
    let digits = decimal(n);
    if digits.len() >= width {
        digits
    } else {
        Seq::new((width - digits.len()) as nat, |i: int| '0') + digits
    }
}

/// A year with at least four characters, the sign among them.
pub open spec fn year_text(year: int) -> Seq<char> {
    if year >= 0 {
        zero_padded(year as nat, 4)
    } else {
        seq!['-'] + zero_padded((-year) as nat, 3)
    }
}

fn push_zero_padded(out: &mut String, n: u64, width: usize)
    ensures
        final(out)@ == old(out)@ + zero_padded(n as nat, width as nat),
{
    let mut digits = String::new();
    push_decimal(&mut digits, n);
    assert(digits@ =~= decimal(n as nat));
    let len: usize = chars_of(digits.as_str()).len();
    let ghost before = out@;
    let mut filled: usize = len;
    while filled < width
        invariant
            len <= filled,
            filled <= width || filled == len,
            out@ == before + Seq::new((filled - len) as nat, |i: int| '0'),
        decreases width - filled,
    {
        out.push('0');
        filled += 1;
        assert(out@ =~= before + Seq::new((filled - len) as nat, |i: int| '0'));
    }
    push_text(out, digits.as_str());
    assert(out@ =~= before + zero_padded(n as nat, width as nat));
}

/// Seconds since the last midnight.
pub open spec fn second_of_day(secs: int) -> int {
    secs % 86_400
}

/// A date and a time of day as `YYYYMMDD-HHMMSS`.
pub open spec fn stamp_text(year: int, month: int, day: int, second: int) -> Seq<char> {
    year_text(year) + two_digits(month) + two_digits(day) + seq!['-'] + two_digits(second / 3600)
        + two_digits((second % 3600) / 60) + two_digits(second % 60)
}

/// The date of a point in time, given in seconds since 1970.
pub open spec fn is_date_of(secs: int, year: int, month: int, day: int) -> bool {
    valid_date(year, month, day) && day_number(year, month, day) == secs / 86_400
}

/// Formats seconds since 1970 as `YYYYMMDD-HHMMSS` in UTC.
pub fn stamp(secs: i64) -> (text: String)
    ensures
        exists|year: int, month: int, day: int| #[trigger]
            is_date_of(secs as int, year, month, day) && text@ == stamp_text(
                year,
                month,
                day,
                second_of_day(secs as int),
            ),
{
    let days: i64 = floor_div(secs, 86_400);
    assert(secs == days * 86_400 + secs as int % 86_400 && 0 <= secs as int % 86_400 < 86_400);
    let second: i64 = if secs >= 0 {
        secs % 86_400
    } else {
        86_399 - (-(secs + 1)) % 86_400
    };
    assert(second == secs as int % 86_400) by {
        if secs < 0 {
            let m = -(secs + 1);
            assert(secs as int == -(m as int) - 1);
        }
    }
    let (year, month, day) = civil_from_days(days);
    let mut text = String::new();
    if year >= 0 {
        push_zero_padded(&mut text, year as u64, 4);
    } else {
        text.push('-');
        push_zero_padded(&mut text, (-(year + 1)) as u64 + 1, 3);
    }
    assert(text@ =~= year_text(year as int));
    push_two_digits(&mut text, month as u64);
    push_two_digits(&mut text, day as u64);
    text.push('-');
    push_two_digits(&mut text, (second / 3600) as u64);
    push_two_digits(&mut text, ((second % 3600) / 60) as u64);
    push_two_digits(&mut text, (second % 60) as u64);
    assert(text@ =~= stamp_text(year as int, month as int, day as int, second as int));
    assert(is_date_of(secs as int, year as int, month as int, day as int));
    text
}

/// A point in time has one date, so its stamp is unique.
pub proof fn law_stamp_is_unique(
    secs: int,
    y1: int,
    m1: int,
    d1: int,
    y2: int,
    m2: int,
    d2: int,
)
    requires
        is_date_of(secs, y1, m1, d1),
        is_date_of(secs, y2, m2, d2),
    ensures
        stamp_text(y1, m1, d1, second_of_day(secs)) == stamp_text(
            y2,
            m2,
            d2,
            second_of_day(secs),
        ),
{
    law_dates_are_unique(y1, m1, d1, y2, m2, d2);
}

/// Spaces behind a text so that it fills five characters.
pub open spec fn level_text(level: Seq<char>) -> Seq<char> {
    if level.len() >= 5 {
        level
    } else {
        level + Seq::new((5 - level.len()) as nat, |i: int| ' ')
    }
}

/// A log line: time of day, level, event and details.
pub open spec fn line_text(
    second: int,
    millis: nat,
    level: Seq<char>,
    event: Seq<char>,
    details: Seq<char>,
) -> Seq<char> {
    seq!['['] + two_digits(second / 3600) + seq![':'] + two_digits((second % 3600) / 60) + seq![
        ':',
    ] + two_digits(second % 60) + seq!['.'] + zero_padded(millis, 3) + "] "@ + level_text(level)
        + " "@ + event + ": "@ + details + "\n"@
}

/// Words a log line for a point in time.
pub fn log_line(secs: u64, millis: u32, level: &str, event: &str, details: &str) -> (line: String)
    ensures
        line@ == line_text(second_of_day(secs as int), millis as nat, level@, event@, details@),
{
    let second: u64 = secs % 86_400;
    let mut line = String::new();
    line.push('[');
    push_two_digits(&mut line, second / 3600);
    line.push(':');
    push_two_digits(&mut line, (second % 3600) / 60);
    line.push(':');
    push_two_digits(&mut line, second % 60);
    line.push('.');
    push_zero_padded(&mut line, millis as u64, 3);
    push_text(&mut line, "] ");
    let ghost head = line@;
    push_text(&mut line, level);
    let mut filled: usize = chars_of(level).len();
    while filled < 5
        invariant
            level@.len() <= filled,
            filled <= 5 || filled == level@.len(),
            line@ == head + level@ + Seq::new((filled - level@.len()) as nat, |i: int| ' '),
        decreases 5 - filled,
    {
        line.push(' ');
        filled += 1;
        assert(line@ =~= head + level@ + Seq::new((filled - level@.len()) as nat, |i: int| ' '));
    }
    assert(line@ =~= head + level_text(level@));
    push_text(&mut line, " ");
    push_text(&mut line, event);
    push_text(&mut line, ": ");
    push_text(&mut line, details);
    push_text(&mut line, "\n");
    assert(line@ =~= line_text(
        second_of_day(secs as int),
        millis as nat,
        level@,
        event@,
        details@,
    ));
    line
}

/// The name of a session file.
pub open spec fn file_name(
    stamp: Seq<char>,
    role: Seq<char>,
    mode: Seq<char>,
    pid: nat,
) -> Seq<char> {
    "session-"@ + stamp + "-"@ + role + "-"@ + mode + "-p"@ + decimal(pid) + ".log"@
}

/// Names the file of a session that starts at a point in time. The process number
/// keeps two programs on one computer apart.
pub fn session_file_name(secs: i64, role: &str, mode: &str, pid: u32) -> (name: String)
    ensures
        exists|year: int, month: int, day: int| #[trigger]
            is_date_of(secs as int, year, month, day) && name@ == file_name(
                stamp_text(year, month, day, second_of_day(secs as int)),
                role@,
                mode@,
                pid as nat,
            ),
{
    let time = stamp(secs);
    let mut name: String = "session-".to_owned();
    push_text(&mut name, time.as_str());
    push_text(&mut name, "-");
    push_text(&mut name, role);
    push_text(&mut name, "-");
    push_text(&mut name, mode);
    push_text(&mut name, "-p");
    push_decimal(&mut name, pid as u64);
    push_text(&mut name, ".log");
    assert(name@ =~= file_name(time@, role@, mode@, pid as nat));
    name
}

/// Numbers below one hundred, each as two digits.
pub open spec fn pairs_text(numbers: Seq<int>) -> Seq<char>
    decreases numbers.len(),
{
    if numbers.len() == 0 {
        Seq::empty()
    } else {
        two_digits(numbers[0]) + pairs_text(numbers.skip(1))
    }
}

proof fn lemma_two_digits_ascend(low: int, high: int)
    requires
        0 <= low < high < 100,
    ensures
        text_before(two_digits(low), two_digits(high)),
{
    let a = two_digits(low);
    let b = two_digits(high);
    if low / 10 == high / 10 {
        assert(low % 10 < high % 10);
        assert(a.skip(1) =~= seq![a[1]]);
        assert(b.skip(1) =~= seq![b[1]]);
        assert(text_before(a.skip(1), b.skip(1)));
    } else {
        assert(low / 10 < high / 10);
    }
}

/// Lists of numbers are ordered as their digits are.
proof fn lemma_pairs_ascend(
    low: Seq<int>,
    high: Seq<int>,
    at: int,
    low_rest: Seq<char>,
    high_rest: Seq<char>,
)
    requires
        0 <= at < low.len(),
        low.len() == high.len(),
        forall|i: int| 0 <= i < at ==> low[i] == high[i],
        0 <= low[at] < high[at] < 100,
    ensures
        text_before(pairs_text(low) + low_rest, pairs_text(high) + high_rest),
    decreases at,
{
    let a = pairs_text(low.skip(1)) + low_rest;
    let b = pairs_text(high.skip(1)) + high_rest;
    assert(pairs_text(low) + low_rest =~= two_digits(low[0]) + a);
    assert(pairs_text(high) + high_rest =~= two_digits(high[0]) + b);
    if at == 0 {
        lemma_two_digits_ascend(low[0], high[0]);
        crate::text::lemma_text_before_extends(two_digits(low[0]), two_digits(high[0]), a, b);
    } else {
        lemma_pairs_ascend(low.skip(1), high.skip(1), at - 1, low_rest, high_rest);
        crate::text::lemma_text_before_prefix(two_digits(low[0]), a, b);
    }
}

/// A year of at most four digits.
proof fn lemma_year_in_pairs(year: int)
    requires
        0 <= year <= 9999,
    ensures
        year_text(year) == two_digits(year / 100) + two_digits(year % 100),
{
    let n = year as nat;
    reveal_with_fuel(decimal, 4);
    assert(n / 10 / 10 == n / 100);
    assert(n / 10 / 10 / 10 == n / 1000);
    assert((n / 10) % 10 == (n % 100) / 10);
    assert((n / 100) % 10 == (n / 100) % 10);
    assert(year_text(year) =~= two_digits(year / 100) + two_digits(year % 100));
}

/// A date in pairs of digits.
pub open spec fn date_pairs(year: int, month: int, day: int) -> Seq<int> {
    seq![year / 100, year % 100, month, day]
}

/// A time of day in pairs of digits.
pub open spec fn time_pairs(second: int) -> Seq<int> {
    seq![second / 3600, (second % 3600) / 60, second % 60]
}

proof fn lemma_stamp_in_pairs(year: int, month: int, day: int, second: int)
    requires
        0 <= year <= 9999,
    ensures
        stamp_text(year, month, day, second) == pairs_text(date_pairs(year, month, day)) + seq!['-']
            + pairs_text(time_pairs(second)),
{
    lemma_year_in_pairs(year);
    reveal_with_fuel(pairs_text, 5);
    let date = date_pairs(year, month, day);
    let time = time_pairs(second);
    assert(date.skip(1).skip(1).skip(1).skip(1).len() == 0);
    assert(time.skip(1).skip(1).skip(1).len() == 0);
    assert(pairs_text(date) =~= two_digits(year / 100) + two_digits(year % 100) + two_digits(month)
        + two_digits(day));
    assert(pairs_text(time) =~= two_digits(second / 3600) + two_digits((second % 3600) / 60)
        + two_digits(second % 60));
    assert(stamp_text(year, month, day, second) =~= pairs_text(date) + seq!['-'] + pairs_text(time));
}

/// Of two days the one with the smaller number has the earlier date.
proof fn lemma_dates_ascend(y1: int, m1: int, d1: int, y2: int, m2: int, d2: int)
    requires
        valid_date(y1, m1, d1),
        valid_date(y2, m2, d2),
        day_number(y1, m1, d1) < day_number(y2, m2, d2),
    ensures
        y1 < y2 || (y1 == y2 && (m1 < m2 || (m1 == m2 && d1 < d2))),
{
    lemma_day_in_year(y1, m1, d1);
    lemma_day_in_year(y2, m2, d2);
    if y2 < y1 {
        lemma_years_ascend(y2, y1);
    } else if y1 == y2 && m2 < m1 {
        lemma_months_ascend(y1, m2, m1);
    }
}

proof fn lemma_months_ascend(year: int, earlier: int, later: int)
    requires
        1 <= earlier < later <= 12,
    ensures
        days_before_month(year, earlier + 1) <= days_before_month(year, later),
{
}

/// Where two dates differ first.
proof fn lemma_date_difference(y1: int, m1: int, d1: int, y2: int, m2: int, d2: int) -> (at: int)
    requires
        valid_date(y1, m1, d1),
        valid_date(y2, m2, d2),
        0 <= y1 <= 9999,
        0 <= y2 <= 9999,
        day_number(y1, m1, d1) < day_number(y2, m2, d2),
    ensures
        0 <= at < 4,
        forall|i: int|
            0 <= i < at ==> #[trigger] date_pairs(y1, m1, d1)[i] == date_pairs(y2, m2, d2)[i],
        0 <= date_pairs(y1, m1, d1)[at] < date_pairs(y2, m2, d2)[at] < 100,
{
    lemma_dates_ascend(y1, m1, d1, y2, m2, d2);
    if y1 / 100 < y2 / 100 {
        0
    } else if y1 < y2 {
        1
    } else if m1 < m2 {
        2
    } else {
        3
    }
}

/// Where two times of day differ first.
proof fn lemma_time_difference(s1: int, s2: int) -> (at: int)
    requires
        0 <= s1 < s2 < 86_400,
    ensures
        0 <= at < 3,
        forall|i: int| 0 <= i < at ==> #[trigger] time_pairs(s1)[i] == time_pairs(s2)[i],
        0 <= time_pairs(s1)[at] < time_pairs(s2)[at] < 100,
{
    if s1 / 3600 < s2 / 3600 {
        0
    } else if (s1 % 3600) / 60 < (s2 % 3600) / 60 {
        1
    } else {
        2
    }
}

/// A date and a time in pairs, with something behind them.
proof fn lemma_split_stamp(date: Seq<char>, time: Seq<char>, rest: Seq<char>)
    ensures
        date + seq!['-'] + time + rest == date + (seq!['-'] + time + rest),
        date + seq!['-'] + time + rest == (date + seq!['-']) + (time + rest),
{
    assert(date + seq!['-'] + time + rest =~= date + (seq!['-'] + time + rest));
    assert(date + seq!['-'] + time + rest =~= (date + seq!['-']) + (time + rest));
}

/// A stamp of an earlier day comes first, whatever follows the stamps.
proof fn lemma_days_ascend(
    date1: Seq<int>,
    time1: Seq<int>,
    rest1: Seq<char>,
    date2: Seq<int>,
    time2: Seq<int>,
    rest2: Seq<char>,
    at: int,
)
    requires
        date1.len() == date2.len(),
        0 <= at < date1.len(),
        forall|i: int| 0 <= i < at ==> date1[i] == date2[i],
        0 <= date1[at] < date2[at] < 100,
    ensures
        text_before(
            pairs_text(date1) + seq!['-'] + pairs_text(time1) + rest1,
            pairs_text(date2) + seq!['-'] + pairs_text(time2) + rest2,
        ),
{
    lemma_split_stamp(pairs_text(date1), pairs_text(time1), rest1);
    lemma_split_stamp(pairs_text(date2), pairs_text(time2), rest2);
    lemma_pairs_ascend(
        date1,
        date2,
        at,
        seq!['-'] + pairs_text(time1) + rest1,
        seq!['-'] + pairs_text(time2) + rest2,
    );
}

/// A stamp of an earlier second of one day comes first, whatever follows the stamps.
proof fn lemma_times_ascend(
    date: Seq<int>,
    time1: Seq<int>,
    rest1: Seq<char>,
    time2: Seq<int>,
    rest2: Seq<char>,
    at: int,
)
    requires
        time1.len() == time2.len(),
        0 <= at < time1.len(),
        forall|i: int| 0 <= i < at ==> time1[i] == time2[i],
        0 <= time1[at] < time2[at] < 100,
    ensures
        text_before(
            pairs_text(date) + seq!['-'] + pairs_text(time1) + rest1,
            pairs_text(date) + seq!['-'] + pairs_text(time2) + rest2,
        ),
{
    lemma_split_stamp(pairs_text(date), pairs_text(time1), rest1);
    lemma_split_stamp(pairs_text(date), pairs_text(time2), rest2);
    lemma_pairs_ascend(time1, time2, at, rest1, rest2);
    crate::text::lemma_text_before_prefix(
        pairs_text(date) + seq!['-'],
        pairs_text(time1) + rest1,
        pairs_text(time2) + rest2,
    );
}

/// A stamp of an earlier second comes first, whatever follows the stamps.
proof fn lemma_stamps_ascend(
    secs1: int,
    date1: (int, int, int),
    rest1: Seq<char>,
    secs2: int,
    date2: (int, int, int),
    rest2: Seq<char>,
)
    requires
        is_date_of(secs1, date1.0, date1.1, date1.2),
        is_date_of(secs2, date2.0, date2.1, date2.2),
        0 <= date1.0 <= 9999,
        0 <= date2.0 <= 9999,
        secs1 < secs2,
    ensures
        text_before(
            stamp_text(date1.0, date1.1, date1.2, second_of_day(secs1)) + rest1,
            stamp_text(date2.0, date2.1, date2.2, second_of_day(secs2)) + rest2,
        ),
{
    let (y1, m1, d1) = date1;
    let (y2, m2, d2) = date2;
    let s1 = second_of_day(secs1);
    let s2 = second_of_day(secs2);
    lemma_stamp_in_pairs(y1, m1, d1, s1);
    lemma_stamp_in_pairs(y2, m2, d2, s2);
    if secs1 / 86_400 < secs2 / 86_400 {
        let at = lemma_date_difference(y1, m1, d1, y2, m2, d2);
        lemma_days_ascend(
            date_pairs(y1, m1, d1),
            time_pairs(s1),
            rest1,
            date_pairs(y2, m2, d2),
            time_pairs(s2),
            rest2,
            at,
        );
    } else {
        law_dates_are_unique(y1, m1, d1, y2, m2, d2);
        let at = lemma_time_difference(s1, s2);
        lemma_times_ascend(
            date_pairs(y1, m1, d1),
            time_pairs(s1),
            rest1,
            time_pairs(s2),
            rest2,
            at,
        );
    }
}

/// What follows the stamp in the name of a session file.
pub open spec fn name_rest(role: Seq<char>, mode: Seq<char>, pid: nat) -> Seq<char> {
    "-"@ + role + "-"@ + mode + "-p"@ + decimal(pid) + ".log"@
}

proof fn lemma_split_name(stamp: Seq<char>, role: Seq<char>, mode: Seq<char>, pid: nat)
    ensures
        file_name(stamp, role, mode, pid) == "session-"@ + (stamp + name_rest(role, mode, pid)),
{
    assert(file_name(stamp, role, mode, pid) =~= "session-"@ + (stamp + name_rest(role, mode, pid)));
}

/// The names of session files are in the order of their age: of two sessions, whatever
/// they are, the file of the earlier one comes first.
pub proof fn law_names_sort_by_age(
    secs1: int,
    date1: (int, int, int),
    role1: Seq<char>,
    mode1: Seq<char>,
    pid1: nat,
    secs2: int,
    date2: (int, int, int),
    role2: Seq<char>,
    mode2: Seq<char>,
    pid2: nat,
)
    requires
        is_date_of(secs1, date1.0, date1.1, date1.2),
        is_date_of(secs2, date2.0, date2.1, date2.2),
        0 <= date1.0 <= 9999,
        0 <= date2.0 <= 9999,
        secs1 < secs2,
    ensures
        text_before(
            file_name(
                stamp_text(date1.0, date1.1, date1.2, second_of_day(secs1)),
                role1,
                mode1,
                pid1,
            ),
            file_name(
                stamp_text(date2.0, date2.1, date2.2, second_of_day(secs2)),
                role2,
                mode2,
                pid2,
            ),
        ),
{
    let stamp1 = stamp_text(date1.0, date1.1, date1.2, second_of_day(secs1));
    let stamp2 = stamp_text(date2.0, date2.1, date2.2, second_of_day(secs2));
    let rest1 = name_rest(role1, mode1, pid1);
    let rest2 = name_rest(role2, mode2, pid2);
    lemma_stamps_ascend(secs1, date1, rest1, secs2, date2, rest2);
    crate::text::lemma_text_before_prefix("session-"@, stamp1 + rest1, stamp2 + rest2);
    lemma_split_name(stamp1, role1, mode1, pid1);
    lemma_split_name(stamp2, role2, mode2, pid2);
}

/// A directory with a name below it.
pub open spec fn joined(base: Seq<char>, separator: char, name: Seq<char>) -> Seq<char> {
    if base.len() == 0 || base.last() == separator || base.last() == '/' {
        base + name
    } else {
        base + seq![separator] + name
    }
}

fn join(base: &str, separator: char, name: &str) -> (path: String)
    ensures
        path@ == joined(base@, separator, name@),
{
    let chars = chars_of(base);
    let mut path: String = base.to_owned();
    if !(chars.len() == 0 || chars[chars.len() - 1] == separator || chars[chars.len() - 1] == '/') {
        path.push(separator);
    }
    push_text(&mut path, name);
    assert(path@ =~= joined(base@, separator, name@));
    path
}

/// Where the log files lie, below the data directory of the user.
pub fn logs_dir_string(base: Option<&str>, separator: char) -> (path: Option<String>)
    ensures
        path is Some <==> base is Some,
        path matches Some(text) ==> text@ == joined(
            joined(base->0@, separator, "godrinking"@),
            separator,
            "logs"@,
        ),
{
    match base {
        None => None,
        Some(dir) => {
            let app = join(dir, separator, "godrinking");
            Some(join(app.as_str(), separator, "logs"))
        },
    }
}

/// A file name with something in front of the extension `log`.
pub open spec fn is_log_name(name: Seq<char>) -> bool {
    name.len() > 4 && crate::text::ends_with(name, ".log"@)
}

/// Whether a file name has the extension `log`.
pub fn is_log_file(name: &str) -> (found: bool)
    ensures
        found == is_log_name(name@),
{
    let chars = chars_of(name);
    let suffix = chars_of(".log");
    proof {
        reveal_strlit(".log");
    }
    chars.len() > 4 && crate::text::stands_at(&chars, &suffix, chars.len() - 4)
}

/// Names in ascending order.
pub open spec fn ascending(names: Seq<Seq<char>>) -> bool {
    forall|i: int, j: int|
        0 <= i < j < names.len() ==> !text_before(#[trigger] names[j], #[trigger] names[i])
}

/// Puts a name in its place in an ascending list.
fn insert_name(list: &mut Vec<String>, name: String)
    requires
        ascending(texts(old(list)@)),
    ensures
        ascending(texts(final(list)@)),
        texts(final(list)@).to_multiset() == texts(old(list)@).to_multiset().insert(name@),
{
    let mut i: usize = list.len();
    while i > 0 && comes_before(name.as_str(), list[i - 1].as_str())
        invariant
            i <= list@.len(),
            list@ == old(list)@,
            forall|j: int| i <= j < list@.len() ==> text_before(name@, #[trigger] list@[j]@),
        decreases i,
    {
        i -= 1;
    }
    let ghost before = texts(list@);
    let ghost wanted = name@;
    list.insert(i, name);
    proof {
        let after = texts(list@);
        assert(after =~= before.insert(i as int, wanted));
        vstd::seq_lib::to_multiset_insert(before, i as int, wanted);
        assert forall|a: int, b: int| 0 <= a < b < after.len() implies !text_before(
            #[trigger] after[b],
            #[trigger] after[a],
        ) by {
            let a0 = if a < i {
                a
            } else {
                a - 1
            };
            let b0 = if b < i {
                b
            } else {
                b - 1
            };
            if a != i && b != i {
                assert(after[a] == before[a0] && after[b] == before[b0]);
                assert(!text_before(before[b0], before[a0]));
            } else if a == i {
                assert(after[b] == before[b0]);
                assert(text_before(wanted, list@[b]@));
                if text_before(after[b], wanted) {
                    crate::text::lemma_text_before_transitive(wanted, after[b], wanted);
                    crate::text::lemma_text_before_irreflexive(wanted);
                }
            } else {
                // Nothing in front of the place comes behind the name.
                assert(after[a] == before[a0]);
                assert(!text_before(wanted, before[i - 1]));
                if a0 < i - 1 && text_before(wanted, before[a0]) {
                    assert(!text_before(before[i - 1], before[a0]));
                    crate::text::lemma_text_before_total(before[i - 1], before[a0]);
                    if before[a0] != before[i - 1] {
                        crate::text::lemma_text_before_transitive(
                            wanted,
                            before[a0],
                            before[i - 1],
                        );
                    }
                }
            }
        }
    }
}

/// The log files of a directory in ascending order, which is the order of age.
pub open spec fn is_age_order(files: Seq<Seq<char>>, sorted: Seq<Seq<char>>) -> bool {
    &&& ascending(sorted)
    &&& sorted.to_multiset() == files.filter(|name: Seq<char>| is_log_name(name)).to_multiset()
}

/// The log files of a directory in ascending order.
pub fn age_order(files: &Vec<String>) -> (sorted: Vec<String>)
    ensures
        is_age_order(texts(files@), texts(sorted@)),
{
    let mut sorted: Vec<String> = Vec::new();
    let ghost kind = |name: Seq<char>| is_log_name(name);
    let ghost all = texts(files@);
    let mut i: usize = 0;
    proof {
        reveal(Seq::filter);
        assert(all.take(0).filter(kind) =~= Seq::<Seq<char>>::empty());
        assert(texts(sorted@) =~= Seq::<Seq<char>>::empty());
    }
    while i < files.len()
        invariant
            i <= files@.len(),
            all == texts(files@),
            kind == (|name: Seq<char>| is_log_name(name)),
            ascending(texts(sorted@)),
            texts(sorted@).to_multiset() == all.take(i as int).filter(kind).to_multiset(),
        decreases files@.len() - i,
    {
        proof {
            reveal(Seq::filter);
            assert(all.take(i as int + 1).drop_last() =~= all.take(i as int));
            assert(all.take(i as int + 1).last() == files@[i as int]@);
            broadcast use vstd::seq_lib::to_multiset_build;

        }
        if is_log_file(files[i].as_str()) {
            insert_name(&mut sorted, files[i].clone());
        }
        i += 1;
    }
    assert(all.take(i as int) =~= all);
    sorted
}

/// How many of a number of files are too many.
pub open spec fn surplus(count: nat) -> int {
    if count <= MAX_SESSIONS {
        0
    } else {
        count - MAX_SESSIONS
    }
}

/// The files that go when room is made for a new session: the oldest ones, until no
/// more than the greatest number stays.
pub fn prune(files: &Vec<String>) -> (removed: Vec<String>)
    ensures
        exists|sorted: Seq<Seq<char>>| #[trigger]
            is_age_order(texts(files@), sorted) && texts(removed@) == sorted.take(
                surplus(sorted.len()),
            ),
{
    let mut sorted = age_order(files);
    let ghost order = texts(sorted@);
    let too_many: usize = if sorted.len() <= MAX_SESSIONS {
        0
    } else {
        sorted.len() - MAX_SESSIONS
    };
    sorted.truncate(too_many);
    assert(texts(sorted@) =~= order.take(too_many as int));
    assert(is_age_order(texts(files@), order));
    sorted
}

/// The log files of a directory have one order of age.
pub proof fn law_age_order_is_unique(
    files: Seq<Seq<char>>,
    one: Seq<Seq<char>>,
    other: Seq<Seq<char>>,
)
    requires
        is_age_order(files, one),
        is_age_order(files, other),
    ensures
        one == other,
{
    let leq = |a: Seq<char>, b: Seq<char>| !text_before(b, a);
    assert forall|a: Seq<char>| #[trigger] leq(a, a) by {
        crate::text::lemma_text_before_irreflexive(a);
    }
    assert forall|a: Seq<char>, b: Seq<char>| #[trigger] leq(a, b) && #[trigger] leq(b, a) implies a
        == b by {
        crate::text::lemma_text_before_total(a, b);
    }
    assert forall|a: Seq<char>, b: Seq<char>| #[trigger] leq(a, b) || #[trigger] leq(b, a) by {
        if text_before(a, b) && text_before(b, a) {
            crate::text::lemma_text_before_transitive(a, b, a);
            crate::text::lemma_text_before_irreflexive(a);
        }
    }
    assert forall|a: Seq<char>, b: Seq<char>, c: Seq<char>| #[trigger]
        leq(a, b) && #[trigger] leq(b, c) implies leq(a, c) by {
        if text_before(c, a) {
            crate::text::lemma_text_before_total(a, b);
            if a != b {
                crate::text::lemma_text_before_transitive(c, a, b);
            }
        }
    }
    assert(vstd::relations::sorted_by(one, leq));
    assert(vstd::relations::sorted_by(other, leq));
    vstd::seq_lib::lemma_sorted_unique(one, other, leq);
}

/// Pruning leaves at most the greatest number of files, takes no more than it has to, and
/// no file that stays is older than one that goes.
pub proof fn law_pruning_keeps_the_newest(files: Seq<Seq<char>>, sorted: Seq<Seq<char>>)
    requires
        is_age_order(files, sorted),
    ensures
        sorted.skip(surplus(sorted.len())).len() <= MAX_SESSIONS,
        surplus(sorted.len()) > 0 ==> sorted.skip(surplus(sorted.len())).len() == MAX_SESSIONS,
        forall|gone: int, kept: int|
            0 <= gone < surplus(sorted.len()) <= kept < sorted.len() ==> !text_before(
                #[trigger] sorted[kept],
                #[trigger] sorted[gone],
            ),
{
}

/// A log file with the time of its last change and its content.
#[derive(Debug, PartialEq, Eq)]
pub struct LogFile {
    pub name: String,
    pub modified_secs: i64,
    pub modified_nanos: u32,
    pub content: String,
}

/// One session log as it is shown.
#[derive(Debug, PartialEq, Eq)]
pub struct LogSession {
    pub session: String,
    pub timestamp: String,
    pub lines: Vec<String>,
}

/// `left` was changed after `right`.
pub open spec fn newer(left: LogFile, right: LogFile) -> bool {
    left.modified_secs > right.modified_secs || (left.modified_secs == right.modified_secs
        && left.modified_nanos > right.modified_nanos)
}

/// Files with the newest first.
pub open spec fn newest_first(files: Seq<LogFile>) -> bool {
    forall|i: int, j: int|
        0 <= i < j < files.len() ==> !newer(#[trigger] files[j], #[trigger] files[i])
}

fn insert_file(list: &mut Vec<LogFile>, file: LogFile)
    requires
        newest_first(old(list)@),
    ensures
        newest_first(final(list)@),
        final(list)@.to_multiset() == old(list)@.to_multiset().insert(file),
{
    let mut i: usize = list.len();
    while i > 0 && (file.modified_secs > list[i - 1].modified_secs || (file.modified_secs == list[i
        - 1].modified_secs && file.modified_nanos > list[i - 1].modified_nanos))
        invariant
            i <= list@.len(),
            list@ == old(list)@,
            forall|j: int| i <= j < list@.len() ==> newer(file, #[trigger] list@[j]),
        decreases i,
    {
        i -= 1;
    }
    let ghost before = list@;
    list.insert(i, file);
    proof {
        vstd::seq_lib::to_multiset_insert(before, i as int, file);
        assert(list@ =~= before.insert(i as int, file));
        assert forall|a: int, b: int| 0 <= a < b < list@.len() implies !newer(
            #[trigger] list@[b],
            #[trigger] list@[a],
        ) by {
            let a0 = if a < i {
                a
            } else {
                a - 1
            };
            let b0 = if b < i {
                b
            } else {
                b - 1
            };
            if a != i {
                assert(list@[a] == before[a0]);
            }
            if b != i {
                assert(list@[b] == before[b0]);
            }
            if a != i && b == i {
                assert(!newer(file, before[i - 1]));
                if a0 < i - 1 {
                    assert(!newer(before[i - 1], before[a0]));
                }
            }
        }
    }
}

/// The log files with the newest first.
pub fn sort_newest_first(files: Vec<LogFile>) -> (sorted: Vec<LogFile>)
    ensures
        newest_first(sorted@),
        sorted@.to_multiset() == files@.to_multiset(),
{
    let ghost all = files@;
    let mut rest = files;
    let mut sorted: Vec<LogFile> = Vec::new();
    proof {
        broadcast use vstd::seq_lib::group_to_multiset_ensures;

        assert(sorted@.to_multiset().len() == 0);
        assert(sorted@.to_multiset().add(rest@.to_multiset()) =~= all.to_multiset());
    }
    while rest.len() > 0
        invariant
            newest_first(sorted@),
            sorted@.to_multiset().add(rest@.to_multiset()) =~= all.to_multiset(),
        decreases rest@.len(),
    {
        let ghost before = rest@;
        let ghost built = sorted@;
        if let Some(file) = rest.pop() {
            proof {
                assert(before =~= rest@.push(file));
                vstd::seq_lib::to_multiset_build(rest@, file);
            }
            insert_file(&mut sorted, file);
            assert(sorted@.to_multiset().add(rest@.to_multiset()) =~= built.to_multiset().add(
                before.to_multiset(),
            ));
        }
    }
    assert(rest@ =~= Seq::<LogFile>::empty());
    proof {
        broadcast use vstd::seq_lib::group_to_multiset_ensures;

        assert(rest@.to_multiset().len() == 0);
        assert(sorted@.to_multiset() =~= all.to_multiset());
    }
    sorted
}

/// How a log file is shown: its name without the extension, the time of its last
/// change and its lines.
pub open spec fn shown_as(session: LogSession, file: LogFile) -> bool {
    &&& session.session@ == file.name@.take(file.name@.len() - 4)
    &&& texts(session.lines@) == crate::text::lines(file.content@)
    &&& exists|year: int, month: int, day: int| #[trigger]
        is_date_of(file.modified_secs as int, year, month, day) && session.timestamp@ == stamp_text(
            year,
            month,
            day,
            second_of_day(file.modified_secs as int),
        )
}

/// How a log file is shown.
pub fn show_file(file: &LogFile) -> (session: LogSession)
    requires
        is_log_name(file.name@),
    ensures
        shown_as(session, *file),
{
    let chars = chars_of(file.name.as_str());
    let name = crate::text::text_of(&crate::text::part(&chars, 0, chars.len() - 4));
    assert(name@ =~= file.name@.take(file.name@.len() - 4));
    LogSession {
        session: name,
        timestamp: stamp(file.modified_secs),
        lines: crate::text::lines_of(file.content.as_str()),
    }
}

/// The files that are shown: of the newest ones, up to the greatest number, those
/// that were not changed before 1970.
pub open spec fn shown_files(sorted: Seq<LogFile>) -> Seq<LogFile> {
    sorted.take(
        if sorted.len() <= MAX_SESSIONS {
            sorted.len() as int
        } else {
            MAX_SESSIONS as int
        },
    ).filter(|file: LogFile| file.modified_secs >= 0)
}

/// The log files among the files of a directory.
pub open spec fn log_files(files: Seq<LogFile>) -> Seq<LogFile> {
    files.filter(|file: LogFile| is_log_name(file.name@))
}

fn keep_log_files(files: Vec<LogFile>) -> (kept: Vec<LogFile>)
    ensures
        kept@ == log_files(files@),
        forall|i: int| 0 <= i < kept@.len() ==> is_log_name((#[trigger] kept@[i]).name@),
{
    let ghost all = files@;
    let ghost kind = |file: LogFile| is_log_name(file.name@);
    let mut rest = files;
    let mut kept: Vec<LogFile> = Vec::new();
    let ghost mut done: int = 0;
    proof {
        reveal(Seq::filter);
        assert(all.take(0).filter(kind) =~= Seq::<LogFile>::empty());
        assert(rest@ =~= all.skip(0));
    }
    while rest.len() > 0
        invariant
            0 <= done <= all.len(),
            rest@ == all.skip(done),
            kind == (|file: LogFile| is_log_name(file.name@)),
            kept@ == all.take(done).filter(kind),
            forall|i: int| 0 <= i < kept@.len() ==> is_log_name((#[trigger] kept@[i]).name@),
        decreases rest@.len(),
    {
        proof {
            reveal(Seq::filter);
            assert(all.take(done + 1).drop_last() =~= all.take(done));
            assert(all.take(done + 1).last() == rest@[0]);
            assert(rest@.remove(0) =~= all.skip(done + 1));
            done = done + 1;
        }
        let file = rest.remove(0);
        if is_log_file(file.name.as_str()) {
            kept.push(file);
        }
    }
    assert(all.take(done) =~= all);
    kept
}

/// The session logs that are shown, newest first.
pub fn read_sessions(files: Vec<LogFile>) -> (sessions: Vec<LogSession>)
    ensures
        exists|sorted: Seq<LogFile>|
            {
                &&& #[trigger] newest_first(sorted)
                &&& sorted.to_multiset() == log_files(files@).to_multiset()
                &&& sessions@.len() == shown_files(sorted).len()
                &&& forall|k: int|
                    0 <= k < sessions@.len() ==> shown_as(
                        #[trigger] sessions@[k],
                        shown_files(sorted)[k],
                    )
            },
{
    let files = keep_log_files(files);
    let ghost all = files@;
    let mut sorted = sort_newest_first(files);
    let ghost order = sorted@;
    let limit: usize = if sorted.len() <= MAX_SESSIONS {
        sorted.len()
    } else {
        MAX_SESSIONS
    };
    sorted.truncate(limit);
    let ghost top = order.take(limit as int);
    assert(sorted@ =~= top);
    let ghost since = |file: LogFile| file.modified_secs >= 0;
    let mut sessions: Vec<LogSession> = Vec::new();
    let mut k: usize = 0;
    proof {
        reveal(Seq::filter);
        assert(top.take(0).filter(since) =~= Seq::<LogFile>::empty());
        assert forall|i: int| 0 <= i < top.len() implies is_log_name((#[trigger] top[i]).name@) by {
            broadcast use vstd::seq_lib::group_to_multiset_ensures;

            assert(order.contains(order[i]));
            assert(order.to_multiset().count(order[i]) > 0);
            assert(all.contains(order[i]));
        }
    }
    while k < sorted.len()
        invariant
            k <= sorted@.len(),
            sorted@ == top,
            since == (|file: LogFile| file.modified_secs >= 0),
            forall|i: int| 0 <= i < top.len() ==> is_log_name((#[trigger] top[i]).name@),
            sessions@.len() == top.take(k as int).filter(since).len(),
            forall|i: int|
                0 <= i < sessions@.len() ==> shown_as(
                    #[trigger] sessions@[i],
                    top.take(k as int).filter(since)[i],
                ),
        decreases sorted@.len() - k,
    {
        proof {
            reveal(Seq::filter);
            assert(top.take(k as int + 1).drop_last() =~= top.take(k as int));
            assert(top.take(k as int + 1).last() == top[k as int]);
        }
        if sorted[k].modified_secs >= 0 {
            sessions.push(show_file(&sorted[k]));
        }
        k += 1;
    }
    assert(top.take(k as int) =~= top);
    assert(shown_files(order) == top.filter(since));
    sessions
}

/// The calendar: thirty days have April, June, September and November, all others one more,
/// but for February, which has its leap day in every fourth year that is no full century, and
/// in every fourth century.
pub proof fn law_months_have_their_days(year: int, month: int, day: int)
    requires
        1 <= month <= 12,
    ensures
        valid_date(year, month, 28),
        valid_date(year, month, 29) <==> month != 2 || (year % 4 == 0 && (year % 100 != 0 || year
            % 400 == 0)),
        valid_date(year, month, 30) <==> month != 2,
        valid_date(year, month, 31) <==> month == 1 || month == 3 || month == 5 || month == 7
            || month == 8 || month == 10 || month == 12,
        !valid_date(year, month, 0),
        !valid_date(year, month, 32),
        valid_date(year, month, day) ==> 1 <= day <= 31,
{
}

/// Days are counted one by one from the first day of 1970: the day behind a day has the next
/// number, across the ends of months and years.
pub proof fn law_days_follow_each_other(year: int, month: int, day: int)
    requires
        valid_date(year, month, day),
    ensures
        day_number(1970, 1, 1) == 0,
        valid_date(year, month, day + 1) ==> day_number(year, month, day + 1) == day_number(
            year,
            month,
            day,
        ) + 1,
        !valid_date(year, month, day + 1) && month < 12 ==> day_number(year, month + 1, 1)
            == day_number(year, month, day) + 1,
        !valid_date(year, month, day + 1) && month == 12 ==> day_number(year + 1, 1, 1)
            == day_number(year, month, day) + 1,
{
    lemma_leap_step(year);
}

/// A point in time lies on its day, so many seconds behind midnight.
pub proof fn law_seconds_count_from_midnight(secs: int)
    ensures
        0 <= second_of_day(secs) < 86_400,
        secs == secs / 86_400 * 86_400 + second_of_day(secs),
        second_of_day(secs + 86_400) == second_of_day(secs),
{
}

proof fn lemma_zeros_in_front(zeros: nat, digits: Seq<char>)
    ensures
        decimal_value(Seq::new(zeros, |i: int| '0') + digits) == decimal_value(digits),
    decreases zeros + digits.len(),
{
    let front = Seq::new(zeros, |i: int| '0');
    let all = front + digits;
    if digits.len() > 0 {
        lemma_zeros_in_front(zeros, digits.drop_last());
        assert(all.drop_last() =~= front + digits.drop_last());
        assert(all.last() == digits.last());
    } else if zeros > 0 {
        let less = Seq::new((zeros - 1) as nat, |i: int| '0');
        lemma_zeros_in_front((zeros - 1) as nat, digits);
        assert(all.drop_last() =~= less + digits);
        assert(all.last() == '0');
    } else {
        assert(all =~= digits);
    }
}

/// Zeros in front fill a number up and do not change it.
pub proof fn law_padding_keeps_the_number(n: nat, width: nat)
    ensures
        decimal_value(zero_padded(n, width)) == n,
        zero_padded(n, width).len() >= width,
        decimal(n).len() <= width ==> zero_padded(n, width).len() == width,
        decimal(n).len() >= width ==> zero_padded(n, width) == decimal(n),
{
    law_decimals_read_back(n);
    if decimal(n).len() < width {
        lemma_zeros_in_front((width - decimal(n).len()) as nat, decimal(n));
    }
}

/// A stamp is read back: four digits of the year, two each of month and day, a dash, and two
/// each of hour, minute and second.
pub proof fn law_stamps_are_read_back(year: int, month: int, day: int, second: int)
    requires
        0 <= year <= 9999,
        valid_date(year, month, day),
        0 <= second < 86_400,
    ensures
        ({
            let text = stamp_text(year, month, day, second);
            &&& text.len() == 15
            &&& decimal_value(text.subrange(0, 2)) * 100 + decimal_value(text.subrange(2, 4))
                == year
            &&& decimal_value(text.subrange(4, 6)) == month
            &&& decimal_value(text.subrange(6, 8)) == day
            &&& text[8] == '-'
            &&& decimal_value(text.subrange(9, 11)) * 3600 + decimal_value(text.subrange(11, 13))
                * 60 + decimal_value(text.subrange(13, 15)) == second
            &&& decimal_value(text.subrange(11, 13)) < 60
            &&& decimal_value(text.subrange(13, 15)) < 60
        }),
{
    lemma_year_in_pairs(year);
    let text = stamp_text(year, month, day, second);
    assert(text.subrange(0, 2) =~= two_digits(year / 100));
    assert(text.subrange(2, 4) =~= two_digits(year % 100));
    assert(text.subrange(4, 6) =~= two_digits(month));
    assert(text.subrange(6, 8) =~= two_digits(day));
    assert(text.subrange(9, 11) =~= two_digits(second / 3600));
    assert(text.subrange(11, 13) =~= two_digits((second % 3600) / 60));
    assert(text.subrange(13, 15) =~= two_digits(second % 60));
    law_months_have_their_days(year, month, day);
    law_digits_stand_for_the_number(year / 100);
    law_digits_stand_for_the_number(year % 100);
    law_digits_stand_for_the_number(month);
    law_digits_stand_for_the_number(day);
    law_digits_stand_for_the_number(second / 3600);
    law_digits_stand_for_the_number((second % 3600) / 60);
    law_digits_stand_for_the_number(second % 60);
    assert(second % 3600 % 60 == second % 60);
}

/// A level fills five characters at least, and stands in front of the blanks that fill it up.
pub proof fn law_levels_fill_their_column(level: Seq<char>, i: int)
    ensures
        level_text(level).len() >= 5,
        level.len() <= 5 ==> level_text(level).len() == 5,
        level.len() >= 5 ==> level_text(level) == level,
        level_text(level).take(level.len() as int) == level,
        level.len() <= i < level_text(level).len() ==> level_text(level)[i] == ' ',
{
    assert(level_text(level).take(level.len() as int) =~= level);
}

/// A log line begins with its time in brackets, down to the millisecond, and then has its
/// level, its event and its details, each whole and in this order, and a line end.
pub proof fn law_lines_hold_everything(
    second: int,
    millis: nat,
    level: Seq<char>,
    event: Seq<char>,
    details: Seq<char>,
)
    requires
        0 <= second < 86_400,
        millis < 1000,
    ensures
        ({
            let line = line_text(second, millis, level, event, details);
            &&& line[0] == '['
            &&& decimal_value(line.subrange(1, 3)) * 3600 + decimal_value(line.subrange(4, 6)) * 60
                + decimal_value(line.subrange(7, 9)) == second
            &&& line[3] == ':' && line[6] == ':' && line[9] == '.'
            &&& decimal_value(line.subrange(10, 13)) == millis
            &&& line.skip(13) == "] "@ + level_text(level) + " "@ + event + ": "@ + details + "\n"@
        }),
{
    let line = line_text(second, millis, level, event, details);
    law_padding_keeps_the_number(millis, 3);
    reveal_with_fuel(decimal, 4);
    assert(decimal(millis).len() <= 3);
    assert(line.subrange(1, 3) =~= two_digits(second / 3600));
    assert(line.subrange(4, 6) =~= two_digits((second % 3600) / 60));
    assert(line.subrange(7, 9) =~= two_digits(second % 60));
    assert(line.subrange(10, 13) =~= zero_padded(millis, 3));
    assert(line.skip(13) =~= "] "@ + level_text(level) + " "@ + event + ": "@ + details + "\n"@);
    law_digits_stand_for_the_number(second / 3600);
    law_digits_stand_for_the_number((second % 3600) / 60);
    law_digits_stand_for_the_number(second % 60);
    assert(second % 3600 % 60 == second % 60);
}

/// The name of a session file is that of a log file, and two programs on one computer never
/// share one: their process numbers keep the names apart.
pub proof fn law_programs_have_their_own_files(
    stamp: Seq<char>,
    role: Seq<char>,
    mode: Seq<char>,
    pid: nat,
    other: nat,
)
    ensures
        is_log_name(file_name(stamp, role, mode, pid)),
        file_name(stamp, role, mode, pid) == file_name(stamp, role, mode, other) ==> pid == other,
        crate::text::begins_with(file_name(stamp, role, mode, pid), "session-"@ + stamp + "-"@),
{
    reveal_strlit(".log");
    reveal_strlit("session-");
    let a = file_name(stamp, role, mode, pid);
    let b = file_name(stamp, role, mode, other);
    let front = "session-"@ + stamp + "-"@ + role + "-"@ + mode + "-p"@;
    let opening = "session-"@ + stamp + "-"@;
    let n = front.len() as int;
    law_decimals_read_back(pid);
    law_decimals_read_back(other);
    assert(a.subrange(n, a.len() - 4) =~= decimal(pid));
    assert(b.subrange(n, b.len() - 4) =~= decimal(other));
    assert(a.subrange(a.len() - 4, a.len() as int) =~= ".log"@);
    assert(a.subrange(0, opening.len() as int) =~= opening);
}

/// A log file has a name and the extension, whatever the name is; the extension alone, or
/// another one, does not make one.
pub proof fn law_log_files_have_the_extension(stem: Seq<char>, name: Seq<char>)
    ensures
        is_log_name(stem + ".log"@) <==> stem.len() > 0,
        is_log_name(name) ==> name.take(name.len() - 4) + ".log"@ == name,
{
    reveal_strlit(".log");
    let whole = stem + ".log"@;
    assert(whole.subrange(whole.len() - 4, whole.len() as int) =~= ".log"@);
    if is_log_name(name) {
        assert(name.take(name.len() - 4) + name.subrange(name.len() - 4, name.len() as int)
            =~= name);
    }
}

/// A name below a directory stands behind exactly one separator.
pub proof fn law_one_separator_joins(base: Seq<char>, separator: char, name: Seq<char>)
    ensures
        base.len() > 0 && base.last() != separator && base.last() != '/' ==> joined(
            base,
            separator,
            name,
        ) == base.push(separator) + name,
        joined(base.push(separator), separator, name) == base.push(separator) + name,
        joined(base.push('/'), separator, name) == base.push('/') + name,
        joined(Seq::empty(), separator, name) == name,
{
    if base.len() > 0 && base.last() != separator && base.last() != '/' {
        assert(base + seq![separator] =~= base.push(separator));
    }
    assert(Seq::<char>::empty() + name =~= name);
}

/// Thirty sessions are kept, and what goes is just what is over.
pub proof fn law_thirty_sessions_are_kept(count: nat)
    ensures
        count <= 30 ==> surplus(count) == 0,
        count > 30 ==> surplus(count) + 30 == count,
{
}

/// Of two files the one that was changed later is the newer, down to the nanosecond; two that
/// were changed at once are alike.
pub proof fn law_later_changes_are_newer(left: LogFile, right: LogFile)
    ensures
        left.modified_secs > right.modified_secs ==> newer(left, right) && !newer(right, left),
        left.modified_secs == right.modified_secs && left.modified_nanos > right.modified_nanos
            ==> newer(left, right) && !newer(right, left),
        left.modified_secs == right.modified_secs && left.modified_nanos == right.modified_nanos
            ==> !newer(left, right) && !newer(right, left),
{
}

/// Of the thirty newest files those that were changed since 1970 are shown, and no other.
pub proof fn law_newest_files_are_shown(sorted: Seq<LogFile>, k: int)
    requires
        0 <= k < sorted.len(),
    ensures
        k < 30 && sorted[k].modified_secs >= 0 ==> shown_files(sorted).contains(sorted[k]),
        shown_files(sorted).len() <= 30,
        forall|i: int|
            0 <= i < shown_files(sorted).len() ==> (#[trigger] shown_files(sorted)[i]).modified_secs
                >= 0 && sorted.contains(shown_files(sorted)[i]),
{
    let n: int = if sorted.len() <= 30 {
        sorted.len() as int
    } else {
        30
    };
    let top = sorted.take(n);
    let pred = |file: LogFile| file.modified_secs >= 0;
    if k < 30 && sorted[k].modified_secs >= 0 {
        assert(top[k] == sorted[k]);
        assert(top.contains(sorted[k]));
        assert(pred(sorted[k]));
        top.lemma_filter_contains(pred, k);
    }
    assert(shown_files(sorted) == top.filter(pred));
    top.lemma_filter_len(pred);
    assert forall|i: int| 0 <= i < shown_files(sorted).len() implies (#[trigger] shown_files(
        sorted,
    )[i]).modified_secs >= 0 && sorted.contains(shown_files(sorted)[i]) by {
        let file = shown_files(sorted)[i];
        top.lemma_filter_pred(pred, i);
        assert(top.filter(pred).contains(file));
        top.lemma_filter_contains_rev(pred, file);
        let j = top.index_of(file);
        assert(sorted[j] == file);
    }
}

proof fn lemma_filter_keeps_order(files: Seq<LogFile>, pred: spec_fn(LogFile) -> bool)
    requires
        newest_first(files),
    ensures
        newest_first(files.filter(pred)),
    decreases files.len(),
{
    reveal(Seq::filter);
    if files.len() > 0 {
        let less = files.drop_last();
        assert(newest_first(less)) by {
            assert forall|i: int, j: int| 0 <= i < j < less.len() implies !newer(
                #[trigger] less[j],
                #[trigger] less[i],
            ) by {
                assert(less[i] == files[i] && less[j] == files[j]);
            }
        }
        lemma_filter_keeps_order(less, pred);
        let before = less.filter(pred);
        let all = files.filter(pred);
        assert forall|i: int, j: int| 0 <= i < j < all.len() implies !newer(
            #[trigger] all[j],
            #[trigger] all[i],
        ) by {
            if j < before.len() {
                assert(all[i] == before[i] && all[j] == before[j]);
            } else {
                assert(all[i] == before[i]);
                assert(before.contains(before[i]));
                less.lemma_filter_contains_rev(pred, before[i]);
                let k = less.index_of(before[i]);
                assert(files[k] == before[i]);
                assert(all[j] == files[files.len() - 1]);
            }
        }
    }
}

/// What is shown is shown with the newest first.
pub proof fn law_shown_files_stay_in_order(sorted: Seq<LogFile>)
    requires
        newest_first(sorted),
    ensures
        newest_first(shown_files(sorted)),
{
    let top = sorted.take(
        if sorted.len() <= MAX_SESSIONS {
            sorted.len() as int
        } else {
            MAX_SESSIONS as int
        },
    );
    assert(newest_first(top)) by {
        assert forall|i: int, j: int| 0 <= i < j < top.len() implies !newer(
            #[trigger] top[j],
            #[trigger] top[i],
        ) by {
            assert(top[i] == sorted[i] && top[j] == sorted[j]);
        }
    }
    lemma_filter_keeps_order(top, |file: LogFile| file.modified_secs >= 0);
}

} // verus!
