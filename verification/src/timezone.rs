//! The timezone table: one entry to a line, the name of a timezone first
//! and its offset from UTC in whole hours last, with single blanks between
//! the tokens.
use vstd::prelude::*;
use crate::error::DateError;
use crate::text::{
    chars_of, contains, contains_text, digit, digit_value, digits_at, number_at, pieces,
    split_at_mark, texts, value_of_digit,
};

verus! {

/// Tells whether a character is white space, as Unicode defines it.
pub open spec fn is_white_space(c: char) -> bool {
    ||| '\u{9}' <= c <= '\u{d}'
    ||| c == ' '
    ||| c == '\u{85}'
    ||| c == '\u{a0}'
    ||| c == '\u{1680}'
    ||| '\u{2000}' <= c <= '\u{200a}'
    ||| c == '\u{2028}'
    ||| c == '\u{2029}'
    ||| c == '\u{202f}'
    ||| c == '\u{205f}'
    ||| c == '\u{3000}'
}

/// A text without the white space at its start.
pub open spec fn without_leading_space(text: Seq<char>) -> Seq<char>
    decreases text.len(),
{
    if text.len() > 0 && is_white_space(text.first()) {
        without_leading_space(text.drop_first())
    } else {
        text
    }
}

/// A text without the white space at its end.
pub open spec fn without_trailing_space(text: Seq<char>) -> Seq<char>
    decreases text.len(),
{
    if text.len() > 0 && is_white_space(text.last()) {
        without_trailing_space(text.drop_last())
    } else {
        text
    }
}

/// The name of the timezone of the machine, as the file that names it
/// gives it: the contents of the file without the white space around them.
/// Where the file could not be read, the name is a sentence that says so.
pub open spec fn timezone_named(timezone_file: Option<Seq<char>>) -> Seq<char> {
    match timezone_file {
        Some(contents) => without_trailing_space(without_leading_space(contents)),
        None => "Unable to get system timezone."@,
    }
}

/// The last of the tokens of a line: what stands behind its last blank.
pub open spec fn last_token(line: Seq<char>) -> Seq<char> {
    pieces(line, ' ').last()
}

/// Tells whether a token starts with a sign.
pub open spec fn has_sign(token: Seq<char>) -> bool {
    token.len() > 0 && (token[0] == '+' || token[0] == '-')
}

/// The whole number that a token denotes: an optional sign, then one or
/// more decimal digits and nothing else. Any other token denotes nothing.
pub open spec fn integer_of(token: Seq<char>) -> Option<int> {
    let start: int = if has_sign(token) {
        1
    } else {
        0
    };
    let count = token.len() - start;
    if count >= 1 && digits_at(token, start, count) {
        if token[0] == '-' {
            Some(-number_at(token, start, count as nat))
        } else {
            Some(number_at(token, start, count as nat))
        }
    } else {
        None
    }
}

/// The offset that a line of the table gives: the number of its last
/// token, where that is a whole number of 16 bits.
pub open spec fn offset_of_line(line: Seq<char>) -> Result<int, DateError> {
    match integer_of(last_token(line)) {
        Some(offset) => if i16::MIN <= offset <= i16::MAX {
            Ok(offset)
        } else {
            Err(DateError::ParseFailure)
        },
        None => Err(DateError::ParseFailure),
    }
}

/// The offset from UTC, in hours, that the table gives for the timezone
/// `name`: that of the first line in which the name stands, be it as a part
/// of a longer name. A table without such a line does not know the
/// timezone.
pub open spec fn offset_in(table: Seq<Seq<char>>, name: Seq<char>) -> Result<int, DateError>
    decreases table.len(),
{
    if table.len() == 0 {
        Err(DateError::NotFound)
    } else if contains(table[0], name) {
        offset_of_line(table[0])
    } else {
        offset_in(table.drop_first(), name)
    }
}

/// The texts that a vector of strings holds.
pub open spec fn table_texts(table: Seq<String>) -> Seq<Seq<char>> {
    Seq::new(table.len(), |i: int| table[i]@)
}

/// A run of digits denotes no less than any shorter run from the same
/// place.
pub proof fn lemma_number_grows(text: Seq<char>, at: int, shorter: nat, longer: nat)
    requires
        shorter <= longer,
        digits_at(text, at, longer as int),
    ensures
        0 <= number_at(text, at, shorter) <= number_at(text, at, longer),
    decreases longer,
{
    if longer == 0 {
    } else if shorter == longer {
        lemma_number_grows(text, at, (longer - 1) as nat, (longer - 1) as nat);
        assert(digit_value(text[at + longer - 1]) >= 0);
    } else {
        lemma_number_grows(text, at, shorter, (longer - 1) as nat);
        assert(digit_value(text[at + longer - 1]) >= 0);
    }
}

/// Reads a token as a whole number of 16 bits.
pub fn parse_integer(token: &Vec<char>) -> (number: Option<i16>)
    ensures
        match integer_of(token@) {
            Some(value) => if i16::MIN <= value <= i16::MAX {
                number is Some && number->Some_0 == value
            } else {
                number is None
            },
            None => number is None,
        },
{
    let length: usize = token.len();
    if length == 0 {
        return None;
    }
    let negative: bool = token[0] == '-';
    let start: usize = if token[0] == '+' || token[0] == '-' {
        1
    } else {
        0
    };
    if start == length {
        return None;
    }
    let mut magnitude: i32 = 0;
    let mut i: usize = start;
    while i < length
        invariant
            start <= i <= length,
            length == token.len(),
            digits_at(token@, start as int, i - start),
            magnitude == number_at(token@, start as int, (i - start) as nat),
            0 <= magnitude <= 32768,
            start == (if has_sign(token@) {
                1int
            } else {
                0int
            }),
        decreases length - i,
    {
        let c: char = token[i];
        if !digit(c) {
            proof {
                assert(!crate::text::is_digit(token@[i as int]));
                assert(!digits_at(token@, start as int, length - start));
            }
            return None;
        }
        let next: i32 = magnitude * 10 + value_of_digit(c) as i32;
        proof {
            assert(digits_at(token@, start as int, i + 1 - start));
            assert(next == number_at(token@, start as int, (i + 1 - start) as nat));
        }
        if next > 32768 {
            proof {
                if digits_at(token@, start as int, length - start) {
                    lemma_number_grows(
                        token@,
                        start as int,
                        (i + 1 - start) as nat,
                        (length - start) as nat,
                    );
                }
            }
            return None;
        }
        magnitude = next;
        i = i + 1;
    }
    if negative {
        Some((-magnitude) as i16)
    } else if magnitude == 32768 {
        None
    } else {
        Some(magnitude as i16)
    }
}

/// Tells whether a character is white space.
fn white_space(c: char) -> (yes: bool)
    ensures
        yes == is_white_space(c),
{
    ('\u{9}' <= c && c <= '\u{d}') || c == ' ' || c == '\u{85}' || c == '\u{a0}' || c
        == '\u{1680}' || ('\u{2000}' <= c && c <= '\u{200a}') || c == '\u{2028}' || c
        == '\u{2029}' || c == '\u{202f}' || c == '\u{205f}' || c == '\u{3000}'
}

/// The name of the timezone of the machine, from the contents of the file
/// that names it, or from nothing where the file could not be read.
pub fn local_timezone(timezone_file: Option<&str>) -> (name: String)
    ensures
        name@ == timezone_named(
            match timezone_file {
                Some(contents) => Some(contents@),
                None => None,
            },
        ),
{
    let contents: &str = match timezone_file {
        Some(contents) => contents,
        None => { return String::from_str("Unable to get system timezone."); },
    };
    let text: Vec<char> = chars_of(contents);
    let length: usize = text.len();
    let mut start: usize = 0;
    proof {
        assert(text@.subrange(0, length as int) =~= text@);
    }
    while start < length && white_space(text[start])
        invariant
            start <= length == text.len(),
            without_leading_space(text@) == without_leading_space(
                text@.subrange(start as int, length as int),
            ),
        decreases length - start,
    {
        proof {
            assert(text@.subrange(start as int, length as int).drop_first() =~= text@.subrange(
                start + 1,
                length as int,
            ));
        }
        start = start + 1;
    }
    let mut end: usize = length;
    while end > start && white_space(text[end - 1])
        invariant
            start <= end <= length == text.len(),
            without_leading_space(text@) == text@.subrange(start as int, length as int),
            without_trailing_space(text@.subrange(start as int, length as int))
                == without_trailing_space(text@.subrange(start as int, end as int)),
        decreases end - start,
    {
        proof {
            assert(text@.subrange(start as int, end as int).drop_last() =~= text@.subrange(
                start as int,
                end - 1,
            ));
        }
        end = end - 1;
    }
    String::from_str(contents.substring_char(start, end))
}

/// Looks the timezone `system_timezone` up in the lines of the timezone
/// table and returns its offset from UTC in hours.
///
/// The first line in which the name stands decides, so that a name which
/// is a part of a longer one may find the longer one's line. The offset is
/// the last token of that line.
pub fn local_timezone_offset(system_timezone: String, timezone_table: &Vec<String>) -> (outcome:
    Result<i16, DateError>)
    ensures
        match offset_in(table_texts(timezone_table@), system_timezone@) {
            Ok(offset) => outcome is Ok && outcome->Ok_0 == offset,
            Err(error) => outcome == Err::<i16, DateError>(error),
        },
{
    let name: Vec<char> = chars_of(system_timezone.as_str());
    let ghost table = table_texts(timezone_table@);
    let mut i: usize = 0;
    proof {
        assert(table.skip(0) =~= table);
    }
    while i < timezone_table.len()
        invariant
            i <= timezone_table.len(),
            name@ == system_timezone@,
            table == table_texts(timezone_table@),
            offset_in(table, name@) == offset_in(table.skip(i as int), name@),
        decreases timezone_table.len() - i,
    {
        let line: Vec<char> = chars_of(timezone_table[i].as_str());
        proof {
            assert(table.skip(i as int)[0] == line@);
            assert(table.skip(i as int).drop_first() =~= table.skip(i + 1));
        }
        if contains_text(&line, &name) {
            let tokens: Vec<Vec<char>> = split_at_mark(&line, ' ');
            proof {
                assert(texts(tokens@).last() == tokens@[tokens.len() - 1]@);
            }
            return match parse_integer(&tokens[tokens.len() - 1]) {
                Some(offset) => Ok(offset),
                None => Err(DateError::ParseFailure),
            };
        }
        i = i + 1;
    }
    Err(DateError::NotFound)
}

} // verus!
