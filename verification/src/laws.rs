//! What holds of the arithmetic of calendar values, whatever the value.
use vstd::prelude::*;
use crate::calendar::leap_year;
use crate::carry::{carry_amount, wrapped_value};
use crate::conversion::calendar_of_millis;
use crate::date::{
    moved, one_based_carry, one_based_value, step_carry, stepped, steps_to_year,
    with_daylight_savings, CalendarValue, TimeUnit,
};
use crate::dst::{daylight_saving, in_daylight_saving, Window};
use crate::error::DateError;

verus! {

/// Nothing is lost in a carry: the wrapped value lies inside the unit, and
/// together with the carried moduli it makes up the total.
pub proof fn lemma_carry_is_exact(total: int, modulus: int)
    requires
        modulus > 0,
    ensures
        0 <= wrapped_value(total, modulus) < modulus,
        wrapped_value(total, modulus) + carry_amount(total, modulus) * modulus == total,
{
    vstd::arithmetic::div_mod::lemma_fundamental_div_mod(total, modulus);
    vstd::arithmetic::div_mod::lemma_mod_bound(total, modulus);
    assert(modulus * (total / modulus) == (total / modulus) * modulus) by (nonlinear_arith);
}

/// The same of a unit that counts from one: its value lies between one and
/// the modulus, and together with the carried moduli it makes up the total.
pub proof fn lemma_one_based_carry_is_exact(total: int, modulus: int)
    requires
        modulus > 0,
    ensures
        1 <= one_based_value(total, modulus) <= modulus,
        one_based_value(total, modulus) + one_based_carry(total, modulus) * modulus == total,
{
    lemma_carry_is_exact(total, modulus);
    assert((carry_amount(total, modulus) - 1) * modulus == carry_amount(total, modulus) * modulus
        - modulus) by (nonlinear_arith);
}

/// Adding to a unit leaves every smaller unit as it is, and with them the
/// timezone and the state of daylight saving.
pub proof fn lemma_smaller_units_stay(date: CalendarValue, delta: int, unit: TimeUnit)
    ensures
        steps_to_year(unit) < 6 ==> moved(date, delta, unit).millisecond == date.millisecond,
        steps_to_year(unit) < 5 ==> moved(date, delta, unit).second == date.second,
        steps_to_year(unit) < 4 ==> moved(date, delta, unit).minute == date.minute,
        steps_to_year(unit) < 3 ==> moved(date, delta, unit).hour == date.hour,
        steps_to_year(unit) < 2 ==> moved(date, delta, unit).day == date.day,
        steps_to_year(unit) < 1 ==> moved(date, delta, unit).month == date.month,
        steps_to_year(unit) < 1 ==> moved(date, delta, unit).month_name == date.month_name,
        moved(date, delta, unit).timezone_name == date.timezone_name,
        moved(date, delta, unit).timezone_offset == date.timezone_offset,
        moved(date, delta, unit).is_daylight_savings == date.is_daylight_savings,
    decreases steps_to_year(unit),
{
    let carry = step_carry(date, delta, unit);
    if carry != 0 {
        lemma_smaller_units_stay(
            stepped(date, delta, unit),
            carry,
            crate::date::next_larger(unit),
        );
    }
}

/// Adding to a unit gives that unit the value of its own step, whatever
/// the carry then does to the larger units.
pub proof fn lemma_own_unit_is_stepped(date: CalendarValue, delta: int, unit: TimeUnit)
    ensures
        unit == TimeUnit::Millisecond ==> moved(date, delta, unit).millisecond == wrapped_value(
            date.millisecond + delta,
            1000,
        ),
        unit == TimeUnit::Second ==> moved(date, delta, unit).second == wrapped_value(
            date.second + delta,
            60,
        ),
        unit == TimeUnit::Minute ==> moved(date, delta, unit).minute == wrapped_value(
            date.minute + delta,
            60,
        ),
        unit == TimeUnit::Hour ==> moved(date, delta, unit).hour == wrapped_value(
            date.hour + delta,
            24,
        ),
        unit == TimeUnit::Day ==> moved(date, delta, unit).day == one_based_value(
            date.day + delta,
            crate::calendar::days_in_month(date.month, date.is_leap_year),
        ),
        unit == TimeUnit::Month ==> moved(date, delta, unit).month == one_based_value(
            date.month + delta,
            12,
        ),
        unit == TimeUnit::Year ==> moved(date, delta, unit).year == date.year + delta,
{
    let carry = step_carry(date, delta, unit);
    if carry != 0 {
        lemma_smaller_units_stay(
            stepped(date, delta, unit),
            carry,
            crate::date::next_larger(unit),
        );
    }
}

/// The milliseconds that the time of day of a calendar value has run.
pub open spec fn time_of_day(date: CalendarValue) -> int {
    ((date.hour * 60 + date.minute) * 60 + date.second) * 1000 + date.millisecond
}

/// The milliseconds of one step of a unit of the clock; nothing for the
/// units of the calendar.
pub open spec fn clock_width(unit: TimeUnit) -> int {
    match unit {
        TimeUnit::Millisecond => 1,
        TimeUnit::Second => 1000,
        TimeUnit::Minute => 60000,
        TimeUnit::Hour => 3600000,
        _ => 0,
    }
}

/// The conversion keeps the time: the time of day of the calendar value of
/// an instant is what the instant has run of its day.
pub proof fn lemma_conversion_keeps_the_time(millis: int)
    requires
        millis >= 0,
    ensures
        time_of_day(calendar_of_millis(millis)) == millis % 86400000,
{
}

/// The clock is exact: adding to one of its units moves the time of day
/// by just that much, whole days aside. The whole days are those that the
/// hour carries into the day, and they are what the proof returns. Adding
/// to a unit of the calendar leaves the time of day alone.
pub proof fn lemma_clock_is_exact(date: CalendarValue, delta: int, unit: TimeUnit) -> (days: int)
    ensures
        time_of_day(moved(date, delta, unit)) + days * 86400000 == time_of_day(date) + delta
            * clock_width(unit),
    decreases steps_to_year(unit),
{
    let carry = step_carry(date, delta, unit);
    let next = stepped(date, delta, unit);
    match unit {
        TimeUnit::Millisecond => {
            lemma_carry_is_exact(date.millisecond + delta, 1000);
            if carry != 0 {
                lemma_clock_is_exact(next, carry, TimeUnit::Second)
            } else {
                0
            }
        },
        TimeUnit::Second => {
            lemma_carry_is_exact(date.second + delta, 60);
            if carry != 0 {
                lemma_clock_is_exact(next, carry, TimeUnit::Minute)
            } else {
                0
            }
        },
        TimeUnit::Minute => {
            lemma_carry_is_exact(date.minute + delta, 60);
            if carry != 0 {
                lemma_clock_is_exact(next, carry, TimeUnit::Hour)
            } else {
                0
            }
        },
        TimeUnit::Hour => {
            lemma_carry_is_exact(date.hour + delta, 24);
            if carry != 0 {
                lemma_smaller_units_stay(next, carry, TimeUnit::Day);
            }
            carry
        },
        _ => {
            lemma_smaller_units_stay(date, delta, unit);
            0
        },
    }
}

/// The largest carry, in size, that a delta of a size up to `bound` sends
/// on from a unit of a valid value whose day a byte holds.
pub open spec fn carry_bound(unit: TimeUnit, bound: int) -> int {
    match unit {
        TimeUnit::Millisecond => (bound + 999) / 1000,
        TimeUnit::Second => (bound + 59) / 60,
        TimeUnit::Minute => (bound + 59) / 60,
        TimeUnit::Hour => (bound + 23) / 24,
        TimeUnit::Day => (bound + 254) / 28,
        TimeUnit::Month => (bound + 11) / 12,
        TimeUnit::Year => 0,
    }
}

/// The farthest that a delta of a size up to `bound`, added to a unit, can
/// move the year.
pub open spec fn year_bound(unit: TimeUnit, bound: int) -> int
    decreases steps_to_year(unit),
{
    if unit == TimeUnit::Year {
        bound
    } else {
        year_bound(crate::date::next_larger(unit), carry_bound(unit, bound))
    }
}

/// One step of a unit below the year, for a valid value whose day a byte
/// holds: the value stays such a value, and the carry is no larger than
/// [`carry_bound`] says.
pub proof fn lemma_step_stays_small(date: CalendarValue, delta: int, unit: TimeUnit, bound: int)
    requires
        date.valid(),
        date.day <= 255,
        -bound <= delta <= bound,
        unit != TimeUnit::Year,
    ensures
        stepped(date, delta, unit).valid(),
        stepped(date, delta, unit).day <= 255,
        stepped(date, delta, unit).year == date.year,
        -carry_bound(unit, bound) <= step_carry(date, delta, unit) <= carry_bound(unit, bound),
{
    match unit {
        TimeUnit::Millisecond => {
            lemma_carry_is_exact(date.millisecond + delta, 1000);
        },
        TimeUnit::Second => {
            lemma_carry_is_exact(date.second + delta, 60);
        },
        TimeUnit::Minute => {
            lemma_carry_is_exact(date.minute + delta, 60);
        },
        TimeUnit::Hour => {
            lemma_carry_is_exact(date.hour + delta, 24);
        },
        TimeUnit::Day => {
            let length = crate::calendar::days_in_month(date.month, date.is_leap_year);
            lemma_one_based_carry_is_exact(date.day + delta, length);
            let total = date.day + delta;
            let wide = one_based_carry(total, length);
            let value = one_based_value(total, length);
            assert(-(bound + 254) <= wide * 28 <= bound + 254) by (nonlinear_arith)
                requires
                    value + wide * length == total,
                    1 <= value <= length,
                    28 <= length <= 31,
                    1 - bound <= total <= 255 + bound,
            ;
        },
        TimeUnit::Month => {
            lemma_one_based_carry_is_exact(date.month + delta, 12);
        },
        TimeUnit::Year => {},
    }
}

/// A delta of a size up to `bound`, added to a unit of a valid value whose
/// day a byte holds, moves the year by no more than [`year_bound`] says.
pub proof fn lemma_year_moves_within(date: CalendarValue, delta: int, unit: TimeUnit, bound: int)
    requires
        date.valid(),
        date.day <= 255,
        -bound <= delta <= bound,
    ensures
        date.year - year_bound(unit, bound) <= moved(date, delta, unit).year <= date.year
            + year_bound(unit, bound),
    decreases steps_to_year(unit),
{
    if unit != TimeUnit::Year {
        let carry = step_carry(date, delta, unit);
        let next = stepped(date, delta, unit);
        let larger = crate::date::next_larger(unit);
        lemma_step_stays_small(date, delta, unit, bound);
        if carry == 0 {
            assert(moved(date, delta, unit) == next);
            lemma_year_bound_is_not_negative(unit, bound);
        } else {
            assert(moved(date, delta, unit) == moved(next, carry, larger));
            lemma_year_moves_within(next, carry, larger, carry_bound(unit, bound));
        }
    }
}

/// No bound on the year is negative.
pub proof fn lemma_year_bound_is_not_negative(unit: TimeUnit, bound: int)
    requires
        bound >= 0,
    ensures
        year_bound(unit, bound) >= 0,
    decreases steps_to_year(unit),
{
    if unit != TimeUnit::Year {
        lemma_year_bound_is_not_negative(crate::date::next_larger(unit), carry_bound(unit, bound));
    }
}

/// The year stays near: a delta of 16 bits, added to a valid value whose
/// day a byte holds, moves the year by no more than five years where it is
/// added to a unit of the clock, by no more than 99 where it is added to
/// the day, and by no more than 2731 where it is added to the month. So
/// an addition is possible for every year that keeps this distance from
/// both ends of the range of years.
pub proof fn lemma_year_stays_near(date: CalendarValue, delta: int, unit: TimeUnit)
    requires
        date.valid(),
        date.day <= 255,
        -32768 <= delta <= 32768,
    ensures
        steps_to_year(unit) >= 3 ==> date.year - 5 <= moved(date, delta, unit).year <= date.year
            + 5,
        unit == TimeUnit::Day ==> date.year - 99 <= moved(date, delta, unit).year <= date.year
            + 99,
        unit == TimeUnit::Month ==> date.year - 2731 <= moved(date, delta, unit).year
            <= date.year + 2731,
{
    lemma_year_moves_within(date, delta, unit, 32768);
    match unit {
        TimeUnit::Millisecond => {
            assert(year_bound(TimeUnit::Millisecond, 32768) == 1) by {
                reveal_with_fuel(year_bound, 8);
            }
        },
        TimeUnit::Second => {
            assert(year_bound(TimeUnit::Second, 32768) == 1) by {
                reveal_with_fuel(year_bound, 8);
            }
        },
        TimeUnit::Minute => {
            assert(year_bound(TimeUnit::Minute, 32768) == 1) by {
                reveal_with_fuel(year_bound, 8);
            }
        },
        TimeUnit::Hour => {
            assert(year_bound(TimeUnit::Hour, 32768) == 5) by {
                reveal_with_fuel(year_bound, 8);
            }
        },
        TimeUnit::Day => {
            assert(year_bound(TimeUnit::Day, 32768) == 99) by {
                reveal_with_fuel(year_bound, 8);
            }
        },
        TimeUnit::Month => {
            assert(year_bound(TimeUnit::Month, 32768) == 2731) by {
                reveal_with_fuel(year_bound, 8);
            }
        },
        TimeUnit::Year => {},
    }
}

/// Years are added without regard to the day: the year takes the delta,
/// the leap-year flag follows the new year, and the day and every other
/// field stay as they are, be the day one that the month has in the new
/// year or not.
pub proof fn lemma_years_leave_the_day(date: CalendarValue, years: int)
    ensures
        moved(date, years, TimeUnit::Year) == (CalendarValue {
            year: date.year + years,
            is_leap_year: leap_year(date.year + years),
            ..date
        }),
        moved(date, years, TimeUnit::Year).day == date.day,
        moved(date, years, TimeUnit::Year).month == date.month,
{
}

/// Switching daylight saving on and then off again brings the hour back to
/// what it was, for a value on which it was not on before.
pub proof fn lemma_daylight_saving_round_trip(date: CalendarValue)
    requires
        date.valid(),
        date.is_daylight_savings != Some(true),
    ensures
        with_daylight_savings(with_daylight_savings(date, true), false).hour == date.hour,
        with_daylight_savings(with_daylight_savings(date, true), false).is_daylight_savings
            == Some(false),
{
    let on = with_daylight_savings(date, true);
    lemma_own_unit_is_stepped(date, 1, TimeUnit::Hour);
    lemma_smaller_units_stay(date, 1, TimeUnit::Hour);
    lemma_own_unit_is_stepped(on, -1, TimeUnit::Hour);
    lemma_smaller_units_stay(on, -1, TimeUnit::Hour);
}

/// Switching daylight saving to the state that it is in changes nothing:
/// a second call with the same argument leaves the value of the first.
pub proof fn lemma_daylight_saving_is_idempotent(date: CalendarValue, is_dst: bool)
    ensures
        with_daylight_savings(with_daylight_savings(date, is_dst), is_dst)
            == with_daylight_savings(date, is_dst),
{
    lemma_smaller_units_stay(date, 1, TimeUnit::Hour);
    lemma_smaller_units_stay(date, -1, TimeUnit::Hour);
}

/// In January, February and December daylight saving is not in force,
/// whatever the window is and whatever the transition source printed.
pub proof fn lemma_no_daylight_saving_in_winter(
    date: CalendarValue,
    window: Window,
    output: Seq<char>,
)
    requires
        date.month == 1 || date.month == 2 || date.month == 12,
    ensures
        !in_daylight_saving(date, window),
        daylight_saving(date, output) == Ok::<bool, DateError>(false),
{
}

/// Adding to a valid calendar value gives a valid one, as long as the year
/// does not fall below zero.
pub proof fn lemma_moving_keeps_validity(date: CalendarValue, delta: int, unit: TimeUnit)
    requires
        date.valid(),
        moved(date, delta, unit).year >= 0,
    ensures
        moved(date, delta, unit).valid(),
    decreases steps_to_year(unit),
{
    let carry = step_carry(date, delta, unit);
    let next = stepped(date, delta, unit);
    match unit {
        TimeUnit::Millisecond => lemma_carry_is_exact(date.millisecond + delta, 1000),
        TimeUnit::Second => lemma_carry_is_exact(date.second + delta, 60),
        TimeUnit::Minute => lemma_carry_is_exact(date.minute + delta, 60),
        TimeUnit::Hour => lemma_carry_is_exact(date.hour + delta, 24),
        TimeUnit::Day => lemma_one_based_carry_is_exact(
            date.day + delta,
            crate::calendar::days_in_month(date.month, date.is_leap_year),
        ),
        TimeUnit::Month => lemma_one_based_carry_is_exact(date.month + delta, 12),
        TimeUnit::Year => {},
    }
    if carry != 0 {
        lemma_moving_keeps_validity(next, carry, crate::date::next_larger(unit));
    }
}

} // verus!
