//! The calendar value and its arithmetic.
use vstd::prelude::*;
use crate::calendar::{days_in_month, is_leap_year, leap_year, month_label, month_name};
use crate::carry::{add_day_helper, add_helper, carry_amount, wrapped_value, AddEnum};
use crate::conversion::{calendar_of_millis, generate_first_date_from_millis};
use crate::error::DateError;
use crate::format::{append_decimal, append_padded, date_text};
use crate::timezone::{local_timezone_offset, offset_in, table_texts};

verus! {

/// The units in which a calendar value can be moved.
#[derive(Clone, Copy, Debug, PartialEq, Eq, Structural)]
pub enum TimeUnit {
    Day,
    Year,
    Hour,
    Month,
    Minute,
    Second,
    Millisecond,
}

/// A date and a time of day, with the timezone and the daylight-saving
/// state that have been applied to it.
///
/// The fields are open. The operations ask for a value that meets the
/// invariant [`CalendarValue::valid`], which [`FirstDate::is_valid`] tests,
/// and they keep it.
#[derive(Debug, Clone)]
pub struct FirstDate {
    pub day: u8,
    pub hour: u8,
    pub month: u8,
    pub year: u16,
    pub minute: u8,
    pub second: u8,
    pub millisecond: u16,
    pub is_leap_year: bool,
    pub month_name: String,
    pub timezone_name: String,
    pub timezone_offset: Option<i8>,
    pub is_daylight_savings: Option<bool>,
}

/// The mathematical model of a [`FirstDate`]: the same fields over
/// unbounded integers and texts.
pub struct CalendarValue {
    pub day: int,
    pub hour: int,
    pub month: int,
    pub year: int,
    pub minute: int,
    pub second: int,
    pub millisecond: int,
    pub is_leap_year: bool,
    pub month_name: Seq<char>,
    pub timezone_name: Seq<char>,
    pub timezone_offset: Option<int>,
    pub is_daylight_savings: Option<bool>,
}

impl CalendarValue {
    /// The invariant of a calendar value: month and time of day lie in
    /// their ranges, the day is at least one, and the two derived fields
    /// agree with the fields that they are derived from. The day is not
    /// held to the length of its month.
    pub open spec fn valid(self) -> bool {
        &&& 1 <= self.month <= 12
        &&& 1 <= self.day
        &&& 0 <= self.hour < 24
        &&& 0 <= self.minute < 60
        &&& 0 <= self.second < 60
        &&& 0 <= self.millisecond < 1000
        &&& 0 <= self.year
        &&& self.is_leap_year == leap_year(self.year)
        &&& self.month_name == month_name(self.month)
    }
}

impl View for FirstDate {
    type V = CalendarValue;

    open spec fn view(&self) -> CalendarValue {
        CalendarValue {
            day: self.day as int,
            hour: self.hour as int,
            month: self.month as int,
            year: self.year as int,
            minute: self.minute as int,
            second: self.second as int,
            millisecond: self.millisecond as int,
            is_leap_year: self.is_leap_year,
            month_name: self.month_name@,
            timezone_name: self.timezone_name@,
            timezone_offset: match self.timezone_offset {
                Some(offset) => Some(offset as int),
                None => None,
            },
            is_daylight_savings: self.is_daylight_savings,
        }
    }
}

impl Default for FirstDate {
    /// The first day of the year zero at midnight, in UTC and without
    /// daylight saving.
    fn default() -> (date: FirstDate)
        ensures
            date.day == 1,
            date.hour == 0,
            date.year == 0,
            date.month == 1,
            date.minute == 0,
            date.second == 0,
            date.millisecond == 0,
            date.is_leap_year,
            date.timezone_offset == Some(0i8),
            date.is_daylight_savings == Some(false),
            date.month_name@ == "January"@,
            date.timezone_name@ == "unset"@,
            date@.valid(),
    {
        FirstDate {
            day: 1,
            hour: 0,
            year: 0,
            month: 1,
            minute: 0,
            second: 0,
            millisecond: 0,
            is_leap_year: true,
            timezone_offset: Some(0),
            is_daylight_savings: Some(false),
            month_name: String::from_str("January"),
            timezone_name: String::from_str("unset"),
        }
    }
}

/// The place of a unit in the chain: the year is the end of it.
pub open spec fn steps_to_year(unit: TimeUnit) -> nat {
    match unit {
        TimeUnit::Year => 0,
        TimeUnit::Month => 1,
        TimeUnit::Day => 2,
        TimeUnit::Hour => 3,
        TimeUnit::Minute => 4,
        TimeUnit::Second => 5,
        TimeUnit::Millisecond => 6,
    }
}

/// The value of a unit that counts from one, for a total and a modulus:
/// where floor division leaves zero, the unit holds its modulus instead.
pub open spec fn one_based_value(total: int, modulus: int) -> int {
    if wrapped_value(total, modulus) == 0 {
        modulus
    } else {
        wrapped_value(total, modulus)
    }
}

/// The carry that goes with [`one_based_value`]: one less than that of
/// floor division where the unit holds its modulus.
pub open spec fn one_based_carry(total: int, modulus: int) -> int {
    if wrapped_value(total, modulus) == 0 {
        carry_amount(total, modulus) - 1
    } else {
        carry_amount(total, modulus)
    }
}

/// The unit that takes the carry of `unit`; the year, at the end of the
/// chain, stands for itself.
pub open spec fn next_larger(unit: TimeUnit) -> TimeUnit {
    match unit {
        TimeUnit::Millisecond => TimeUnit::Second,
        TimeUnit::Second => TimeUnit::Minute,
        TimeUnit::Minute => TimeUnit::Hour,
        TimeUnit::Hour => TimeUnit::Day,
        TimeUnit::Day => TimeUnit::Month,
        TimeUnit::Month => TimeUnit::Year,
        TimeUnit::Year => TimeUnit::Year,
    }
}

/// What adding `delta` does to the field `unit` itself, the larger units
/// left alone.
///
/// Millisecond, second, minute and hour count from zero and take the
/// wrapped total. Day and month count from one: the day's modulus is the
/// length of the month that the value stands in, and the month's name
/// follows the month. The year takes the total as it is, and the leap-year
/// flag is derived again from it; the day is not touched.
pub open spec fn stepped(date: CalendarValue, delta: int, unit: TimeUnit) -> CalendarValue {
    match unit {
        TimeUnit::Millisecond => CalendarValue {
            millisecond: wrapped_value(date.millisecond + delta, 1000),
            ..date
        },
        TimeUnit::Second => CalendarValue {
            second: wrapped_value(date.second + delta, 60),
            ..date
        },
        TimeUnit::Minute => CalendarValue {
            minute: wrapped_value(date.minute + delta, 60),
            ..date
        },
        TimeUnit::Hour => CalendarValue { hour: wrapped_value(date.hour + delta, 24), ..date },
        TimeUnit::Day => CalendarValue {
            day: one_based_value(
                date.day + delta,
                days_in_month(date.month, date.is_leap_year),
            ),
            ..date
        },
        TimeUnit::Month => CalendarValue {
            month: one_based_value(date.month + delta, 12),
            month_name: month_name(one_based_value(date.month + delta, 12)),
            ..date
        },
        TimeUnit::Year => CalendarValue {
            year: date.year + delta,
            is_leap_year: leap_year(date.year + delta),
            ..date
        },
    }
}

/// The carry that adding `delta` to the field `unit` hands to the next
/// larger unit; the year hands on nothing.
pub open spec fn step_carry(date: CalendarValue, delta: int, unit: TimeUnit) -> int {
    match unit {
        TimeUnit::Millisecond => carry_amount(date.millisecond + delta, 1000),
        TimeUnit::Second => carry_amount(date.second + delta, 60),
        TimeUnit::Minute => carry_amount(date.minute + delta, 60),
        TimeUnit::Hour => carry_amount(date.hour + delta, 24),
        TimeUnit::Day => one_based_carry(
            date.day + delta,
            days_in_month(date.month, date.is_leap_year),
        ),
        TimeUnit::Month => one_based_carry(date.month + delta, 12),
        TimeUnit::Year => 0,
    }
}

/// The calendar value that `date` becomes when `delta` is added to its
/// field `unit`: the field is stepped, and a carry other than zero is added
/// to the next larger unit in the same way, from the millisecond up to the
/// year.
pub open spec fn moved(date: CalendarValue, delta: int, unit: TimeUnit) -> CalendarValue
    decreases steps_to_year(unit),
{
    let carry = step_carry(date, delta, unit);
    if carry == 0 {
        stepped(date, delta, unit)
    } else {
        moved(stepped(date, delta, unit), carry, next_larger(unit))
    }
}

/// The calendar value that `date` becomes when daylight saving is switched
/// to `is_dst`: an hour later where it was not in force and now is, an hour
/// earlier where it was in force and no longer is, and unchanged where the
/// state stays what it was or was never set and is switched off.
pub open spec fn with_daylight_savings(date: CalendarValue, is_dst: bool) -> CalendarValue {
    if is_dst && date.is_daylight_savings != Some(true) {
        CalendarValue { is_daylight_savings: Some(true), ..moved(date, 1, TimeUnit::Hour) }
    } else if !is_dst && date.is_daylight_savings == Some(true) {
        CalendarValue { is_daylight_savings: Some(false), ..moved(date, -1, TimeUnit::Hour) }
    } else {
        date
    }
}

/// The calendar value that `date` becomes when the timezone with the
/// offset `offset` is applied: the clock moves by that many hours, and the
/// offset is recorded.
pub open spec fn with_timezone(date: CalendarValue, offset: int) -> CalendarValue {
    CalendarValue { timezone_offset: Some(offset), ..moved(date, offset, TimeUnit::Hour) }
}

/// What applying the timezone `name` of the table `table` comes to: the
/// offset to apply, or the failure. The lookup may fail, and an offset that
/// it gives may be one that a calendar value cannot record, which is a
/// failure too.
pub open spec fn offset_to_apply(table: Seq<Seq<char>>, name: Seq<char>) -> Result<
    int,
    DateError,
> {
    match offset_in(table, name) {
        Ok(offset) => if i8::MIN <= offset <= i8::MAX {
            Ok(offset)
        } else {
            Err(DateError::OffsetOutOfRange)
        },
        Err(error) => Err(error),
    }
}

/// The operations of a calendar value.
pub trait FirstDateOperations: View<V = CalendarValue> + Sized {
    /// The calendar value of the instant `millis` milliseconds after the
    /// epoch, in UTC: no timezone and no daylight saving is applied.
    fn from_millis(millis: isize) -> (date: Self)
        requires
            millis >= 0,
        ensures
            date@ == calendar_of_millis(millis as int),
            date@.valid(),
            date@.day <= 32,
            date@.year >= 1970,
    ;

    /// Adds `time_to_add`, which may be negative, to the field `unit`, and
    /// carries into the larger units, as [`moved`] says. The year that this
    /// leads to has to be one that the value can hold, which
    /// [`FirstDate::can_add`] tells.
    fn add(&mut self, time_to_add: i16, unit: TimeUnit)
        requires
            old(self)@.valid(),
            0 <= moved(old(self)@, time_to_add as int, unit).year <= u16::MAX,
        ensures
            final(self)@ == moved(old(self)@, time_to_add as int, unit),
            final(self)@.valid(),
    ;

    /// Switches daylight saving on or off. The clock moves by an hour only
    /// where the state changes, so that a repeated call changes nothing.
    /// Switching it off where it was never set changes nothing either.
    fn set_daylight_savings(&mut self, is_dst: bool)
        requires
            old(self)@.valid(),
            0 <= with_daylight_savings(old(self)@, is_dst).year <= u16::MAX,
        ensures
            final(self)@ == with_daylight_savings(old(self)@, is_dst),
            final(self)@.valid(),
    ;

    /// Looks the timezone up in the lines of the timezone table, moves the
    /// clock by its offset and records the offset. Where the lookup fails,
    /// or gives an offset that the value cannot record, the value stays as
    /// it is and the failure is returned.
    fn set_timezone(&mut self, timezone_name: String, timezone_table: &Vec<String>) -> (outcome:
        Result<(), DateError>)
        requires
            old(self)@.valid(),
            offset_to_apply(table_texts(timezone_table@), timezone_name@) is Ok ==> 0 <= moved(
                old(self)@,
                offset_to_apply(table_texts(timezone_table@), timezone_name@)->Ok_0,
                TimeUnit::Hour,
            ).year <= u16::MAX,
        ensures
            match offset_to_apply(table_texts(timezone_table@), timezone_name@) {
                Ok(offset) => outcome is Ok && final(self)@ == with_timezone(old(self)@, offset),
                Err(error) => outcome == Err::<(), DateError>(error) && final(self)@ == old(
                    self,
                )@,
            },
            final(self)@.valid(),
    ;

    /// The text of the value in the pattern `MM/DD/YYYY H:MM:SS`, on a
    /// clock of 24 hours or, with ` AM` or ` PM` behind it, on one of 12.
    fn date_string(&self, display_24_hour: bool) -> (text: String)
        ensures
            text@ == date_text(self@, display_24_hour),
    ;
}

/// The unit that takes the carry of `unit`.
fn larger_unit(unit: TimeUnit) -> (larger: TimeUnit)
    ensures
        larger == next_larger(unit),
{
    match unit {
        TimeUnit::Millisecond => TimeUnit::Second,
        TimeUnit::Second => TimeUnit::Minute,
        TimeUnit::Minute => TimeUnit::Hour,
        TimeUnit::Hour => TimeUnit::Day,
        TimeUnit::Day => TimeUnit::Month,
        TimeUnit::Month => TimeUnit::Year,
        TimeUnit::Year => TimeUnit::Year,
    }
}

/// Splits an outcome for a unit that counts from zero into value and carry.
fn zero_based_parts(outcome: AddEnum) -> (parts: (u16, i16, Option<String>))
    ensures
        parts.0 == outcome.value(),
        parts.1 == outcome.carry(),
        parts.2 == match outcome {
            AddEnum::SameUnit(_, label) => label,
            AddEnum::NextUnit(_, _, label) => label,
        },
{
    match outcome {
        AddEnum::SameUnit(value, label) => (value, 0, label),
        AddEnum::NextUnit(value, carry, label) => (value, carry, label),
    }
}

impl FirstDate {
    /// Tells whether the value meets the invariant of a calendar value.
    pub fn is_valid(&self) -> (valid: bool)
        ensures
            valid == self@.valid(),
    {
        if 1 <= self.month && self.month <= 12 {
            let name: String = month_label(self.month);
            1 <= self.day && self.hour < 24 && self.minute < 60 && self.second < 60
                && self.millisecond < 1000 && self.is_leap_year == is_leap_year(self.year)
                && self.month_name == name
        } else {
            false
        }
    }

    /// A value with the same fields.
    fn copy(&self) -> (same: FirstDate)
        ensures
            same@ == self@,
    {
        FirstDate {
            day: self.day,
            hour: self.hour,
            month: self.month,
            year: self.year,
            minute: self.minute,
            second: self.second,
            millisecond: self.millisecond,
            is_leap_year: self.is_leap_year,
            month_name: self.month_name.clone(),
            timezone_name: self.timezone_name.clone(),
            timezone_offset: self.timezone_offset,
            is_daylight_savings: self.is_daylight_savings,
        }
    }

    /// Tells whether `time_to_add` can be added to the field `unit`: whether
    /// the year that the addition leads to is one that a calendar value
    /// holds.
    pub fn can_add(&self, time_to_add: i16, unit: TimeUnit) -> (possible: bool)
        requires
            self@.valid(),
        ensures
            possible == (0 <= moved(self@, time_to_add as int, unit).year <= u16::MAX),
    {
        let mut scratch: FirstDate = self.copy();
        match scratch.walk(time_to_add, unit) {
            Some(years) => {
                let year: i32 = scratch.year as i32 + years as i32;
                0 <= year && year <= 65535
            },
            None => true,
        }
    }

    /// Walks the chain below the year: adds `amount` to the field `unit` and
    /// carries on until a carry is zero or the year is reached. Returns the
    /// delta that is left to add to the year, if the year is reached.
    fn walk(&mut self, amount: i16, unit: TimeUnit) -> (years: Option<i16>)
        requires
            old(self)@.valid(),
        ensures
            final(self)@.valid(),
            match years {
                Some(delta) => moved(old(self)@, amount as int, unit) == moved(
                    final(self)@,
                    delta as int,
                    TimeUnit::Year,
                ),
                None => moved(old(self)@, amount as int, unit) == final(self)@,
            },
    {
        let ghost target = moved(old(self)@, amount as int, unit);
        let mut pending: i16 = amount;
        let mut at: TimeUnit = unit;
        let mut done: bool = false;
        while !done && at != TimeUnit::Year
            invariant
                self@.valid(),
                done ==> self@ == target,
                !done ==> moved(self@, pending as int, at) == target,
            decreases
                    (if done {
                        0
                    } else {
                        steps_to_year(at) + 1
                    }),
        {
            let carry: i16 = self.step(pending, at);
            if carry == 0 {
                done = true;
            } else {
                pending = carry;
                at = larger_unit(at);
            }
        }
        if done {
            None
        } else {
            Some(pending)
        }
    }

    /// Adds `amount` to the field `unit` alone and returns the carry for
    /// the next larger unit.
    fn step(&mut self, amount: i16, unit: TimeUnit) -> (carry: i16)
        requires
            old(self)@.valid(),
            unit == TimeUnit::Year ==> 0 <= old(self).year + amount <= u16::MAX,
        ensures
            final(self)@ == stepped(old(self)@, amount as int, unit),
            carry == step_carry(old(self)@, amount as int, unit),
            final(self)@.valid(),
    {
        match unit {
            TimeUnit::Millisecond => {
                let (value, carry, _) = zero_based_parts(
                    add_helper(self.millisecond as i16, amount, 1000),
                );
                self.millisecond = value;
                carry
            },
            TimeUnit::Second => {
                let (value, carry, _) = zero_based_parts(
                    add_helper(self.second as i16, amount, 60),
                );
                self.second = value as u8;
                carry
            },
            TimeUnit::Minute => {
                let (value, carry, _) = zero_based_parts(
                    add_helper(self.minute as i16, amount, 60),
                );
                self.minute = value as u8;
                carry
            },
            TimeUnit::Hour => {
                let (value, carry, _) = zero_based_parts(
                    add_helper(self.hour as i16, amount, 24),
                );
                self.hour = value as u8;
                carry
            },
            TimeUnit::Day => {
                let length: u8 = crate::calendar::month_days(self.month, self.is_leap_year);
                let (value, carry, _) = zero_based_parts(
                    add_day_helper(self.day as i16, amount, self.month as i8, self.is_leap_year),
                );
                proof {
                    let total = self.day + amount;
                    vstd::arithmetic::div_mod::lemma_fundamental_div_mod(total, length as int);
                    assert(carry as int > i16::MIN) by (nonlinear_arith)
                        requires
                            total == length as int * carry as int + value as int,
                            0 <= value as int,
                            length as int >= 28,
                            total >= -32768,
                    ;
                }
                if value == 0 {
                    self.day = length;
                    carry - 1
                } else {
                    self.day = value as u8;
                    carry
                }
            },
            TimeUnit::Month => {
                let (value, carry, label) = zero_based_parts(
                    add_helper(self.month as i16, amount, 12),
                );
                match label {
                    Some(name) => {
                        self.month = value as u8;
                        self.month_name = name;
                        carry
                    },
                    None => {
                        self.month = 12;
                        self.month_name = month_label(12);
                        carry - 1
                    },
                }
            },
            TimeUnit::Year => {
                let year: i32 = self.year as i32 + amount as i32;
                self.year = year as u16;
                self.is_leap_year = is_leap_year(self.year);
                0
            },
        }
    }
}

impl FirstDateOperations for FirstDate {
    fn from_millis(millis: isize) -> (date: Self) {
        generate_first_date_from_millis(millis)
    }

    fn add(&mut self, time_to_add: i16, unit: TimeUnit) {
        match self.walk(time_to_add, unit) {
            Some(years) => {
                self.step(years, TimeUnit::Year);
            },
            None => {},
        }
    }

    fn set_timezone(&mut self, timezone_name: String, timezone_table: &Vec<String>) -> (outcome:
        Result<(), DateError>) {
        match local_timezone_offset(timezone_name, timezone_table) {
            Ok(offset) => {
                if offset < -128 || offset > 127 {
                    Err(DateError::OffsetOutOfRange)
                } else {
                    self.add(offset, TimeUnit::Hour);
                    self.timezone_offset = Some(offset as i8);
                    Ok(())
                }
            },
            Err(error) => Err(error),
        }
    }

    fn date_string(&self, display_24_hour: bool) -> (text: String) {
        let mut text: String = String::new();
        append_padded(&mut text, self.month as u32, 2);
        text.append("/");
        append_padded(&mut text, self.day as u32, 2);
        text.append("/");
        append_padded(&mut text, self.year as u32, 4);
        text.append(" ");
        if display_24_hour {
            append_decimal(&mut text, self.hour as u32);
        } else {
            append_decimal(&mut text, (self.hour % 12) as u32);
        }
        text.append(":");
        append_padded(&mut text, self.minute as u32, 2);
        text.append(":");
        append_padded(&mut text, self.second as u32, 2);
        if !display_24_hour {
            if self.hour < 12 {
                text.append(" AM");
            } else {
                text.append(" PM");
            }
        }
        proof {
            assert(text@ =~= date_text(self@, display_24_hour));
        }
        text
    }

    fn set_daylight_savings(&mut self, is_dst: bool) {
        let in_force: bool = match self.is_daylight_savings {
            Some(state) => state,
            None => false,
        };
        if is_dst && !in_force {
            self.add(1, TimeUnit::Hour);
            self.is_daylight_savings = Some(true);
        } else if !is_dst && in_force {
            self.add(-1, TimeUnit::Hour);
            self.is_daylight_savings = Some(false);
        }
    }
}

} // verus!
