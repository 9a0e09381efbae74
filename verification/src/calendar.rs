//! The Gregorian leap-year rule and the table of months.
use vstd::prelude::*;

verus! {

/// The number of months in a year; as a modulus it marks the month unit.
pub const MONTHS_IN_YEAR: i16 = 12;

/// The Gregorian rule: every fourth year is a leap year, except that a
/// century year is one only when it is divisible by 400.
pub open spec fn leap_year(year: int) -> bool {
    year % 4 == 0 && (year % 100 != 0 || year % 400 == 0)
}

/// The display name of the month with the one-based number `month`; the
/// empty text for a number that names no month.
pub open spec fn month_name(month: int) -> Seq<char> {
    if month == 1 {
        "January"@
    } else if month == 2 {
        "February"@
    } else if month == 3 {
        "March"@
    } else if month == 4 {
        "April"@
    } else if month == 5 {
        "May"@
    } else if month == 6 {
        "June"@
    } else if month == 7 {
        "July"@
    } else if month == 8 {
        "August"@
    } else if month == 9 {
        "September"@
    } else if month == 10 {
        "October"@
    } else if month == 11 {
        "November"@
    } else if month == 12 {
        "December"@
    } else {
        Seq::empty()
    }
}

/// The length in days that the month table gives the month with the
/// one-based number `month`: February's is that of a common year.
pub open spec fn table_days(month: int) -> int {
    if month == 2 {
        28
    } else if month == 4 || month == 6 || month == 9 || month == 11 {
        30
    } else {
        31
    }
}

/// The length in days of the month `month` of a leap or a common year.
pub open spec fn days_in_month(month: int, leap: bool) -> int {
    if leap && month == 2 {
        table_days(month) + 1
    } else {
        table_days(month)
    }
}

/// Tells whether `year_to_test` is a leap year of the Gregorian calendar.
pub fn is_leap_year(year_to_test: u16) -> (leap: bool)
    ensures
        leap == leap_year(year_to_test as int),
        leap == (year_to_test % 4 == 0 && (year_to_test % 100 != 0 || year_to_test % 400
            == 0)),
{
    year_to_test % 4 == 0 && (year_to_test % 100 != 0 || year_to_test % 400 == 0)
}

/// The display name of a month, by its one-based number.
pub fn month_label(month: u8) -> (name: String)
    requires
        1 <= month <= 12,
    ensures
        name@ == month_name(month as int),
{
    let text: &str = match month {
        1 => "January",
        2 => "February",
        3 => "March",
        4 => "April",
        5 => "May",
        6 => "June",
        7 => "July",
        8 => "August",
        9 => "September",
        10 => "October",
        11 => "November",
        _ => "December",
    };
    String::from_str(text)
}

/// The table length of a month, by its one-based number.
pub fn month_table_days(month: u8) -> (days: u8)
    requires
        1 <= month <= 12,
    ensures
        days == table_days(month as int),
{
    if month == 2 {
        28
    } else if month == 4 || month == 6 || month == 9 || month == 11 {
        30
    } else {
        31
    }
}

/// The length of a month of a leap or a common year, by its one-based number.
pub fn month_days(month: u8, leap: bool) -> (days: u8)
    requires
        1 <= month <= 12,
    ensures
        days == days_in_month(month as int, leap),
        28 <= days <= 31,
{
    if leap && month == 2 {
        month_table_days(month) + 1
    } else {
        month_table_days(month)
    }
}

} // verus!
