use vstd::prelude::*;
use crate::arith::floor_div;
use vstd::arithmetic::div_mod::lemma_fundamental_div_mod;
use vstd::arithmetic::div_mod::lemma_fundamental_div_mod_converse;

verus! {

/// Fixed-point resolution of days: one unit is a millionth of a day.
pub const DAY_UNITS: i64 = 1_000_000;

/// The calendar in which a date is written.
#[derive(Clone, Copy, Debug, PartialEq, Eq, Structural)]
pub enum CalType {
    Gregorian,
    Julian,
}

/// Year and month as the day-number formula sees them: January and February
/// count as months 13 and 14 of the preceding year.
pub open spec fn shifted_year(year: int, month: int) -> int {
    if month == 1 || month == 2 { year - 1 } else { year }
}

pub open spec fn shifted_month(month: int) -> int {
    if month == 1 || month == 2 { month + 12 } else { month }
}

/// The century correction: `2 - A + floor(A / 4)` with `A = floor(y / 100)`
/// for the Gregorian calendar, none for the Julian one.
pub open spec fn century_correction(cal: CalType, y: int) -> int {
    match cal {
        CalType::Gregorian => 2 - y / 100 + (y / 100) / 4,
        CalType::Julian => 0,
    }
}

/// Whole-day part of the Julian Day at the start (0h) of day zero of the month:
/// `floor(365.25 (y + 4716)) + floor(30.6001 (m + 1)) + B - 1524`, in days,
/// with the half day still to be taken off.
pub open spec fn month_base_days(year: int, month: int, cal: CalType) -> int {
    let y = shifted_year(year, month);
    let m = shifted_month(month);
    (1461 * (y + 4716)) / 4 + (306001 * (m + 1)) / 10000 + century_correction(cal, y) - 1524
}

/// The Julian Day, in units of `DAY_UNITS` per day, of the given day of the
/// month (itself in units of `DAY_UNITS`, fraction of the day included).
pub open spec fn julian_day_spec(year: int, month: int, day: int, cal: CalType) -> int {
    month_base_days(year, month, cal) * DAY_UNITS - DAY_UNITS / 2 + day
}

/// Largest magnitude accepted for a day of the month, in units of `DAY_UNITS`.
pub const MAX_DAY_MAGNITUDE: i64 = 1_000_000_000_000_000_000;

/// Julian Day (Meeus) of a date of the given calendar, in units of
/// `DAY_UNITS` per day. `decimal_day` is the day of the month in the same
/// units, time of day as its fraction, referred to UTC. Nothing is validated:
/// any month and day give a well-defined number.
pub fn julian_day(year: i16, month: u8, decimal_day: i64, cal_type: CalType) -> (r: i64)
    requires
        -MAX_DAY_MAGNITUDE <= decimal_day <= MAX_DAY_MAGNITUDE,
    ensures
        r == julian_day_spec(year as int, month as int, decimal_day as int, cal_type),
{
    let (y, m): (i64, i64) = if month == 1 || month == 2 {
        (year as i64 - 1, month as i64 + 12)
    } else {
        (year as i64, month as i64)
    };
    let b: i64 = match cal_type {
        CalType::Gregorian => {
            let a = floor_div(y, 100);
            2 - a + floor_div(a, 4)
        },
        CalType::Julian => 0,
    };
    let days = floor_div(1461 * (y + 4716), 4) + (306001 * (m + 1)) / 10000 + b - 1524;
    assert(-20_000_000 < days < 20_000_000);
    days * DAY_UNITS - DAY_UNITS / 2 + decimal_day
}

/// Leap years: every fourth year in the Julian calendar; in the Gregorian
/// one, not the century years, save those divisible by 400.
pub open spec fn is_leap_year(year: int, cal: CalType) -> bool {
    match cal {
        CalType::Gregorian => year % 4 == 0 && (year % 100 != 0 || year % 400 == 0),
        CalType::Julian => year % 4 == 0,
    }
}

/// Number of days in a month (1 to 12) of the given year.
pub open spec fn month_length(year: int, month: int, cal: CalType) -> int {
    if month == 2 {
        if is_leap_year(year, cal) { 29 } else { 28 }
    } else if month == 4 || month == 6 || month == 9 || month == 11 {
        30
    } else {
        31
    }
}

/// A date that exists in its calendar: the day, fraction included, lies from
/// the first of the month to the end of its last day.
pub open spec fn is_valid_date(year: int, month: int, day: int, cal: CalType) -> bool {
    1 <= month <= 12 && DAY_UNITS <= day < (month_length(year, month, cal) + 1) * DAY_UNITS
}

/// Position of a month in the sequence of all months.
pub open spec fn month_index(year: int, month: int) -> int {
    12 * year + month
}

proof fn lemma_year_term_step(y: int)
    ensures
        (1461 * (y + 4716)) / 4 - (1461 * (y + 4715)) / 4 == if y % 4 == 0 { 366int } else { 365int },
{
    lemma_fundamental_div_mod(y, 4);
    let q = y / 4;
    let r = y % 4;
    assert(1461 * (y + 4716) == 4 * (1461 * (q + 1179)) + 1461 * r);
    assert(1461 * (y + 4715) == 4 * (1461 * (q + 1179) - 366) + 1461 * r + 3);
    if r == 0 {
        lemma_fundamental_div_mod_converse(1461 * (y + 4716), 4, 1461 * (q + 1179), 0);
        lemma_fundamental_div_mod_converse(1461 * (y + 4715), 4, 1461 * (q + 1179) - 366, 3);
    } else if r == 1 {
        lemma_fundamental_div_mod_converse(1461 * (y + 4716), 4, 1461 * (q + 1179) + 365, 1);
        lemma_fundamental_div_mod_converse(1461 * (y + 4715), 4, 1461 * (q + 1179), 0);
    } else if r == 2 {
        lemma_fundamental_div_mod_converse(1461 * (y + 4716), 4, 1461 * (q + 1179) + 730, 2);
        lemma_fundamental_div_mod_converse(1461 * (y + 4715), 4, 1461 * (q + 1179) + 365, 1);
    } else {
        lemma_fundamental_div_mod_converse(1461 * (y + 4716), 4, 1461 * (q + 1179) + 1095, 3);
        lemma_fundamental_div_mod_converse(1461 * (y + 4715), 4, 1461 * (q + 1179) + 730, 2);
    }
}

proof fn lemma_div_step(y: int, d: int)
    requires
        d > 0,
    ensures
        y / d - (y - 1) / d == if y % d == 0 { 1int } else { 0int },
{
    lemma_fundamental_div_mod(y, d);
    let q = y / d;
    let r = y % d;
    assert(y - 1 == (q - 1) * d + d - 1 + r && y - 1 == q * d + r - 1) by (nonlinear_arith)
        requires
            y == d * q + r,
    ;
    if r == 0 {
        lemma_fundamental_div_mod_converse(y - 1, d, q - 1, d - 1);
    } else {
        lemma_fundamental_div_mod_converse(y - 1, d, q, r - 1);
    }
}

proof fn lemma_century_step(y: int, cal: CalType)
    ensures
        century_correction(cal, y) - century_correction(cal, y - 1) == if cal == CalType::Gregorian
            && y % 100 == 0 && y % 400 != 0 {
            -1int
        } else {
            0int
        },
{
    lemma_div_step(y, 100);
    lemma_div_step(y, 400);
    lemma_fundamental_div_mod(y, 100);
    let a = y / 100;
    if y % 100 == 0 {
        lemma_div_step(a, 4);
        lemma_fundamental_div_mod(a, 4);
        assert(y == 100 * a);
        if a % 4 == 0 {
            lemma_fundamental_div_mod_converse(y, 400, a / 4, 0);
        } else {
            lemma_fundamental_div_mod(y, 400);
            assert(y % 400 != 0) by {
                if y % 400 == 0 {
                    lemma_fundamental_div_mod_converse(a, 4, y / 400, 0);
                }
            }
        }
        assert((y - 1) / 100 == a - 1);
    }
}

/// Consecutive months: the next one starts where this one ends.
proof fn lemma_month_step(year: int, month: int, cal: CalType)
    requires
        1 <= month <= 12,
    ensures
        month < 12 ==> month_base_days(year, month + 1, cal) == month_base_days(year, month, cal)
            + month_length(year, month, cal),
        month == 12 ==> month_base_days(year + 1, 1, cal) == month_base_days(year, month, cal)
            + month_length(year, month, cal),
{
    if month == 2 {
        lemma_year_term_step(year);
        lemma_century_step(year, cal);
        assert(year % 4 == 0 <==> (year + 4716) % 4 == 0);
    }
}

/// Month starts never decrease along the sequence of months.
proof fn lemma_month_base_monotone(y1: int, m1: int, y2: int, m2: int, cal: CalType)
    requires
        1 <= m1 <= 12,
        1 <= m2 <= 12,
        month_index(y1, m1) < month_index(y2, m2),
    ensures
        month_base_days(y1, m1, cal) + month_length(y1, m1, cal) <= month_base_days(y2, m2, cal),
    decreases month_index(y2, m2) - month_index(y1, m1),
{
    lemma_month_step(y1, m1, cal);
    let (ny, nm) = if m1 == 12 { (y1 + 1, 1int) } else { (y1, m1 + 1) };
    if month_index(ny, nm) < month_index(y2, m2) {
        lemma_month_base_monotone(ny, nm, y2, m2, cal);
    } else {
        assert(ny == y2 && nm == m2);
    }
}

/// Later dates of one calendar never have a smaller Julian Day: for valid
/// dates, increasing (year, month, day) lexicographically gives a
/// non-decreasing day number.
pub proof fn lemma_julian_day_monotone(
    y1: int,
    m1: int,
    d1: int,
    y2: int,
    m2: int,
    d2: int,
    cal: CalType,
)
    requires
        is_valid_date(y1, m1, d1, cal),
        is_valid_date(y2, m2, d2, cal),
        y1 < y2 || (y1 == y2 && m1 < m2) || (y1 == y2 && m1 == m2 && d1 <= d2),
    ensures
        julian_day_spec(y1, m1, d1, cal) <= julian_day_spec(y2, m2, d2, cal),
{
    if month_index(y1, m1) < month_index(y2, m2) {
        lemma_month_base_monotone(y1, m1, y2, m2, cal);
        let b1 = month_base_days(y1, m1, cal);
        let l1 = month_length(y1, m1, cal);
        let b2 = month_base_days(y2, m2, cal);
        assert(b1 * DAY_UNITS + d1 < b2 * DAY_UNITS + d2) by (nonlinear_arith)
            requires
                b1 + l1 <= b2,
                d1 < (l1 + 1) * DAY_UNITS,
                DAY_UNITS <= d2,
                DAY_UNITS == 1_000_000,
        ;
    }
}

} // verus!
