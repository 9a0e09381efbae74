//! Numbers as decimal text, and the text of a calendar value.
use vstd::prelude::*;
use crate::date::CalendarValue;

verus! {

/// The character of a decimal digit.
pub open spec fn digit_char(digit: int) -> char {
    ('0' as int + digit) as char
}

/// The decimal notation of a number, without leading zeros.
pub open spec fn decimal(number: nat) -> Seq<char>
    decreases number,
{
    if number < 10 {
        seq![digit_char(number as int)]
    } else {
        decimal(number / 10).push(digit_char((number % 10) as int))
    }
}

/// The decimal notation of a number, with zeros before it where it has
/// fewer than `width` digits.
pub open spec fn padded(number: nat, width: nat) -> Seq<char> {
    let digits = decimal(number);
    if digits.len() >= width {
        digits
    } else {
        Seq::new((width - digits.len()) as nat, |i: int| '0') + digits
    }
}

/// The hour as the clock shows it: as it is on a clock of 24 hours, and
/// from 0 to 11 on one of 12.
pub open spec fn shown_hour(hour: int, display_24_hour: bool) -> nat {
    if display_24_hour {
        hour as nat
    } else {
        (hour % 12) as nat
    }
}

/// What follows the time: nothing on a clock of 24 hours, the half of the
/// day on one of 12.
pub open spec fn day_half(hour: int, display_24_hour: bool) -> Seq<char> {
    if display_24_hour {
        Seq::empty()
    } else if hour < 12 {
        " AM"@
    } else {
        " PM"@
    }
}

/// The text of a calendar value, in the pattern `MM/DD/YYYY H:MM:SS`:
/// month, day, minute and second with two digits, the year with four, the
/// hour as it is. On a clock of 12 hours ` AM` or ` PM` follows.
pub open spec fn date_text(date: CalendarValue, display_24_hour: bool) -> Seq<char> {
    padded(date.month as nat, 2) + "/"@ + padded(date.day as nat, 2) + "/"@ + padded(
        date.year as nat,
        4,
    ) + " "@ + decimal(shown_hour(date.hour, display_24_hour)) + ":"@ + padded(
        date.minute as nat,
        2,
    ) + ":"@ + padded(date.second as nat, 2) + day_half(date.hour, display_24_hour)
}

/// The text of a decimal digit.
fn digit_text(digit: u32) -> (text: &'static str)
    requires
        digit < 10,
    ensures
        text@ == seq![digit_char(digit as int)],
{
    proof {
        reveal_strlit("0");
        reveal_strlit("1");
        reveal_strlit("2");
        reveal_strlit("3");
        reveal_strlit("4");
        reveal_strlit("5");
        reveal_strlit("6");
        reveal_strlit("7");
        reveal_strlit("8");
        reveal_strlit("9");
    }
    let text: &'static str = match digit {
        0 => "0",
        1 => "1",
        2 => "2",
        3 => "3",
        4 => "4",
        5 => "5",
        6 => "6",
        7 => "7",
        8 => "8",
        _ => "9",
    };
    proof {
        assert(text@ =~= seq![digit_char(digit as int)]);
    }
    text
}

/// Appends the decimal notation of a number to a text.
pub fn append_decimal(text: &mut String, number: u32)
    ensures
        final(text)@ == old(text)@ + decimal(number as nat),
    decreases number,
{
    if number < 10 {
        text.append(digit_text(number));
    } else {
        append_decimal(text, number / 10);
        text.append(digit_text(number % 10));
        proof {
            assert(old(text)@ + decimal((number / 10) as nat) + seq![
                digit_char((number % 10) as int),
            ] =~= old(text)@ + decimal(number as nat));
        }
    }
}

/// The number of digits in the decimal notation of a number.
fn digit_count(number: u32) -> (count: usize)
    ensures
        count == decimal(number as nat).len(),
        1 <= count <= 1 + number / 10,
    decreases number,
{
    if number < 10 {
        1
    } else {
        digit_count(number / 10) + 1
    }
}

/// Appends the decimal notation of a number to a text, with zeros before
/// it up to the width.
pub fn append_padded(text: &mut String, number: u32, width: usize)
    ensures
        final(text)@ == old(text)@ + padded(number as nat, width as nat),
{
    let count: usize = digit_count(number);
    let mut written: usize = count;
    proof {
        reveal_strlit("0");
        assert(old(text)@ + Seq::new(0nat, |i: int| '0') =~= old(text)@);
    }
    while written < width
        invariant
            count <= written,
            written <= width || written == count,
            text@ == old(text)@ + Seq::new((written - count) as nat, |i: int| '0'),
        decreases width - written,
    {
        text.append("0");
        proof {
            reveal_strlit("0");
            assert("0"@ =~= seq!['0']);
            assert(text@ =~= old(text)@ + Seq::new((written + 1 - count) as nat, |i: int| '0'));
        }
        written = written + 1;
    }
    let ghost zeros = text@;
    append_decimal(text, number);
    proof {
        assert(text@ =~= old(text)@ + padded(number as nat, width as nat));
    }
}

} // verus!
