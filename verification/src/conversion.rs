//! From milliseconds since the epoch to the fields of a calendar value.
//!
//! The time of day is exact. Year, month and day are derived as a
//! single-precision computation derives them from the count of whole days
//! and the mean length of the Gregorian year: every quotient, sum and
//! product of that computation is rounded to 24 significant bits, and the
//! result is what those roundings make it, not the proleptic Gregorian
//! date. The two can differ at any distance from the epoch: the walk of
//! the months ends at a month as long as no more days remain than the
//! month has, so that the day can be one more than its month has (59 days
//! after the epoch give the 29th of February 1970, 90 days the 32nd of
//! March), and the last day of a year can come out as the first of January
//! of the same year.
//!
//! The quantities are held as whole numbers: the count of years in units
//! of `2^-32` year, the days into the year in units of `2^-47` day. At
//! these scales each rounding is a rounding of whole numbers.
use vstd::prelude::*;
use crate::calendar::{
    days_in_month, is_leap_year, leap_year, month_days, month_label, month_name,
    month_table_days, table_days,
};
use crate::date::{CalendarValue, FirstDate};
use crate::rounding::{
    lemma_rounded_is_near, lemma_rounded_reaches, lemma_spacing_divides, power_of_two,
    round_quotient, rounded, spacing,
};

verus! {

/// The milliseconds of a day.
pub const MILLISECONDS_IN_DAY: u64 = 86400000;

/// The milliseconds of an hour.
pub const MILLISECONDS_IN_HOUR: u64 = 3600000;

/// The milliseconds of a minute.
pub const MILLISECONDS_IN_MINUTE: u64 = 60000;

/// The milliseconds of a second.
pub const MILLISECONDS_IN_SECOND: u64 = 1000;

/// The year of the epoch.
pub const EPOCH_YEAR: u128 = 1970;

/// The mean length of the Gregorian year, 365.2425 days, as single
/// precision holds it: this many units of `2^-15` day.
pub const YEAR_LENGTH: u128 = 11968266;

/// `2^32`: the units of a year in which the count of years is held.
pub const YEAR_UNITS: u128 = 4294967296;

/// `2^47`: the units of a day in which the days into the year are held.
pub const DAY_UNITS: u128 = 140737488355328;

/// The largest year that a calendar value holds.
pub const LAST_YEAR: u128 = 65535;

/// The whole days between the epoch and the instant `millis`.
pub open spec fn epoch_days(millis: int) -> nat {
    (millis / MILLISECONDS_IN_DAY as int) as nat
}

/// The years between the epoch and the instant, in units of `2^-32` year:
/// the whole days, rounded to single precision, divided by the mean length
/// of the year, and the quotient rounded.
pub open spec fn epoch_years(millis: int) -> nat {
    rounded(rounded(epoch_days(millis), 1) * DAY_UNITS as nat, YEAR_LENGTH as nat)
}

/// The calendar year of the instant: the epoch's year added to the count of
/// years, the sum rounded and cut to a whole number; no year lies beyond
/// the largest that a calendar value holds.
pub open spec fn year_of(millis: int) -> int {
    let sum = rounded(epoch_years(millis) + EPOCH_YEAR as nat * YEAR_UNITS as nat, 1)
        / YEAR_UNITS as nat;
    if sum > LAST_YEAR {
        LAST_YEAR as int
    } else {
        sum as int
    }
}

/// The days between the start of the year and the instant, in units of
/// `2^-47` day: the fraction of the count of years, multiplied by the mean
/// length of the year, and the product rounded.
pub open spec fn days_into_year(millis: int) -> nat {
    rounded((epoch_years(millis) % YEAR_UNITS as nat) * YEAR_LENGTH as nat, 1)
}

/// Walks the month table from the month `month` on with `remaining` days,
/// in units of `2^-47` day, and returns the month at which the walk ends
/// with what is left of the days.
///
/// The walk ends at the first month whose table length is not less than
/// the remaining days. A month that is passed takes its days away,
/// February one more in a leap year. A walk that passes December ends in
/// January.
pub open spec fn month_walk(remaining: int, month: int, leap: bool) -> (int, int)
    decreases 13 - month,
{
    if month > 12 {
        (1, remaining)
    } else if remaining <= table_days(month) * DAY_UNITS as int {
        (month, remaining)
    } else {
        month_walk(remaining - days_in_month(month, leap) * DAY_UNITS as int, month + 1, leap)
    }
}

/// The day of the month for what the walk has left: one more than the whole
/// days in it, and the first where less than nothing is left.
pub open spec fn day_of_month(remaining: int) -> int {
    if remaining < 0 {
        1
    } else {
        remaining / DAY_UNITS as int + 1
    }
}

/// The calendar value of the instant `millis` milliseconds after the epoch,
/// with no timezone and no daylight saving applied.
pub open spec fn calendar_of_millis(millis: int) -> CalendarValue {
    let year = year_of(millis);
    let leap = leap_year(year);
    let walk = month_walk(days_into_year(millis) as int, 1, leap);
    let time = millis % MILLISECONDS_IN_DAY as int;
    CalendarValue {
        year: year,
        is_leap_year: leap,
        month: walk.0,
        month_name: month_name(walk.0),
        day: day_of_month(walk.1),
        hour: time / MILLISECONDS_IN_HOUR as int,
        minute: (time % MILLISECONDS_IN_HOUR as int) / MILLISECONDS_IN_MINUTE as int,
        second: (time % MILLISECONDS_IN_MINUTE as int) / MILLISECONDS_IN_SECOND as int,
        millisecond: time % MILLISECONDS_IN_SECOND as int,
        timezone_name: "unset"@,
        timezone_offset: None,
        is_daylight_savings: None,
    }
}

/// No instant at or after the epoch falls into a year before the epoch's.
pub proof fn lemma_years_start_at_the_epoch(millis: int)
    requires
        millis >= 0,
    ensures
        1970 <= year_of(millis) <= 65535,
{
    let sum: nat = epoch_years(millis) + 1970 * 4294967296;
    let start: nat = 1970 * 4294967296;
    if sum < 16777216 * 4294967296 {
        reveal_with_fuel(power_of_two, 33);
        lemma_spacing_divides(sum, 4294967296);
        let step = spacing(sum);
        let times = 4294967296nat / step;
        vstd::arithmetic::div_mod::lemma_fundamental_div_mod(4294967296, step as int);
        assert(start == step * (1970 * times)) by (nonlinear_arith)
            requires
                4294967296 == step * times,
                start == 1970 * 4294967296,
        ;
        vstd::arithmetic::div_mod::lemma_fundamental_div_mod_converse(
            start as int,
            step as int,
            (1970 * times) as int,
            0,
        );
        lemma_rounded_reaches(sum, start);
    } else {
        lemma_rounded_is_near(sum);
    }
}

/// Walks the month table with the days into the year and returns the month
/// and the day of the month.
fn month_and_day(days: u128, leap: bool) -> (place: (u8, u8))
    requires
        days < 366 * DAY_UNITS,
    ensures
        place.0 == month_walk(days as int, 1, leap).0,
        place.1 == day_of_month(month_walk(days as int, 1, leap).1),
        1 <= place.0 <= 12,
        1 <= place.1 <= 32,
{
    let unit: i128 = DAY_UNITS as i128;
    let mut remaining: i128 = days as i128;
    let mut month: u8 = 1;
    let mut found: bool = false;
    while month <= 12 && !found
        invariant
            1 <= month <= 13,
            found ==> month <= 12,
            unit == 140737488355328,
            -unit < remaining < 366 * unit,
            remaining <= days - 28 * (month - 1) * 140737488355328,
            found ==> remaining <= table_days(month as int) * unit,
            found ==> month_walk(days as int, 1, leap) == (month as int, remaining as int),
            !found ==> month_walk(days as int, 1, leap) == month_walk(
                remaining as int,
                month as int,
                leap,
            ),
        decreases 13 - month + (if found { 0int } else { 1int }),
    {
        if remaining <= month_table_days(month) as i128 * unit {
            found = true;
        } else {
            remaining = remaining - month_days(month, leap) as i128 * unit;
            month = month + 1;
        }
    }
    if !found {
        month = 1;
    }
    let day: u8 = if remaining < 0 {
        1
    } else {
        (remaining / unit + 1) as u8
    };
    (month, day)
}

/// Converts the instant `millis` milliseconds after the epoch into a
/// calendar value. Timezone and daylight saving are left unset.
///
/// The time of day is exact. The date is that of [`calendar_of_millis`],
/// which is not always the Gregorian date: the day is at least one and can
/// be one more than its month has, up to 32, also close to the epoch.
pub fn generate_first_date_from_millis(millis: isize) -> (date: FirstDate)
    requires
        millis >= 0,
    ensures
        date@ == calendar_of_millis(millis as int),
        date@.valid(),
        date.day <= 32,
        date.year >= 1970,
{
    proof {
        lemma_years_start_at_the_epoch(millis as int);
    }
    let instant: u64 = millis as u64;
    let days: u64 = instant / MILLISECONDS_IN_DAY;
    let time: u64 = instant % MILLISECONDS_IN_DAY;

    let days_single: u128 = round_quotient(days as u128, 1);
    let years: u128 = round_quotient(days_single * DAY_UNITS, YEAR_LENGTH);
    let sum: u128 = round_quotient(years + EPOCH_YEAR * YEAR_UNITS, 1) / YEAR_UNITS;
    let year: u16 = if sum > LAST_YEAR {
        65535
    } else {
        sum as u16
    };
    let leap: bool = is_leap_year(year);

    let fraction: u128 = years % YEAR_UNITS;
    let days_into: u128 = round_quotient(fraction * YEAR_LENGTH, 1);
    let (month, day) = month_and_day(days_into, leap);

    FirstDate {
        day: day,
        hour: (time / MILLISECONDS_IN_HOUR) as u8,
        year: year,
        second: ((time % MILLISECONDS_IN_MINUTE) / MILLISECONDS_IN_SECOND) as u8,
        minute: ((time % MILLISECONDS_IN_HOUR) / MILLISECONDS_IN_MINUTE) as u8,
        millisecond: (time % MILLISECONDS_IN_SECOND) as u16,
        timezone_offset: None,
        is_daylight_savings: None,
        month: month,
        month_name: month_label(month),
        timezone_name: String::from_str("unset"),
        is_leap_year: leap,
    }
}

} // verus!
