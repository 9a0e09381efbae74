//! The daylight-saving window of a year: how it is read from the output of
//! the `zdump` utility, and how a calendar value is held against it.
//!
//! Only the pattern of the northern hemisphere is known here: daylight
//! saving starts at a transition in March and ends at one in November.
use vstd::prelude::*;
use crate::error::DateError;
use crate::format::{append_decimal, decimal};
use crate::date::{CalendarValue, FirstDate};
use crate::text::{
    chars_of, contains, contains_text, digit, digit_value, digits_at, find_digit, find_mark,
    first_digit_from, first_mark_from, is_digit, lemma_first_mark_bound, number_at, occurs_at,
    pieces, slice_of, split_at_mark, texts, value_of_digit,
};

verus! {

/// One end of the daylight-saving window: the instant of a transition.
#[derive(Debug, Clone)]
pub struct DstDateRange {
    pub day: i8,
    pub month: String,
    pub year: i16,
    pub hour: i16,
    pub minute: i16,
    pub second: i16,
}

/// The daylight-saving window of a year. An end is unset where the
/// transition source named another month than the one expected for it.
#[derive(Debug, Clone)]
pub struct DstRange {
    pub end: Option<DstDateRange>,
    pub start: Option<DstDateRange>,
}

/// The mathematical model of a [`DstDateRange`].
pub struct Transition {
    pub day: int,
    pub month: Seq<char>,
    pub year: int,
    pub hour: int,
    pub minute: int,
    pub second: int,
}

/// The mathematical model of a [`DstRange`].
pub struct Window {
    pub end: Option<Transition>,
    pub start: Option<Transition>,
}

impl View for DstDateRange {
    type V = Transition;

    open spec fn view(&self) -> Transition {
        Transition {
            day: self.day as int,
            month: self.month@,
            year: self.year as int,
            hour: self.hour as int,
            minute: self.minute as int,
            second: self.second as int,
        }
    }
}

/// The model of an end of the window that may be unset.
pub open spec fn transition_view(end: Option<DstDateRange>) -> Option<Transition> {
    match end {
        Some(transition) => Some(transition@),
        None => None,
    }
}

impl View for DstRange {
    type V = Window;

    open spec fn view(&self) -> Window {
        Window { end: transition_view(self.end), start: transition_view(self.start) }
    }
}

/// The value and the end of the day token that starts at the digit at
/// `at`: that digit, and with it the next character where that is a digit
/// too.
pub open spec fn day_token(text: Seq<char>, at: int) -> (int, int) {
    if at + 1 < text.len() && is_digit(text[at + 1]) {
        (10 * digit_value(text[at]) + digit_value(text[at + 1]), at + 2)
    } else {
        (digit_value(text[at]), at + 1)
    }
}

/// Day, hour, minute, second and year of a transition, as its timestamp
/// gives them; nothing where the text is not laid out as a timestamp.
///
/// A timestamp reads `Sun Mar  9 03:00:00 2025 EDT`, and is read by place:
/// - the first digit of the text starts the day, which is one or two digits
///   long;
/// - the next digit after it starts the hour, which is two digits long, and
///   the hour is the number of its second digit alone;
/// - the first colon after the hour is followed by two digits of minutes,
///   a second colon and two digits of seconds;
/// - after the first blank behind the seconds, the first digit starts the
///   year, which is four digits long.
pub open spec fn transition_fields(text: Seq<char>) -> Option<(int, int, int, int, int)> {
    let day_at = first_digit_from(text, 0);
    let day = day_token(text, day_at);
    let hour_at = first_digit_from(text, day.1);
    let colon = first_mark_from(text, ':', hour_at + 2);
    let blank = first_mark_from(text, ' ', colon + 6);
    let year_at = first_digit_from(text, blank);
    if day_at < text.len() && digits_at(text, hour_at, 2) && digits_at(text, colon + 1, 2)
        && text[colon + 3] == ':' && digits_at(text, colon + 4, 2) && digits_at(
        text,
        year_at,
        4,
    ) {
        Some(
            (
                day.0,
                digit_value(text[hour_at + 1]),
                number_at(text, colon + 1, 2),
                number_at(text, colon + 4, 2),
                number_at(text, year_at, 4),
            ),
        )
    } else {
        None
    }
}

/// Reads `count` digits of `text` from `at` on as a decimal number.
fn read_number(text: &Vec<char>, at: usize, count: usize) -> (number: Option<i16>)
    requires
        count <= 4,
    ensures
        number is Some <==> digits_at(text@, at as int, count as int),
        number is Some ==> number->Some_0 == number_at(text@, at as int, count as nat),
        number is Some ==> 0 <= number->Some_0 <= 9999,
{
    if at > text.len() || count > text.len() - at {
        return None;
    }
    let mut value: i16 = 0;
    let mut i: usize = 0;
    while i < count
        invariant
            i <= count <= 4,
            at + count <= text.len(),
            digits_at(text@, at as int, i as int),
            value == number_at(text@, at as int, i as nat),
            i == 0 ==> value == 0,
            i == 1 ==> 0 <= value <= 9,
            i == 2 ==> 0 <= value <= 99,
            i == 3 ==> 0 <= value <= 999,
            i == 4 ==> 0 <= value <= 9999,
        decreases count - i,
    {
        let c: char = text[at + i];
        if !digit(c) {
            return None;
        }
        value = value * 10 + value_of_digit(c) as i16;
        i = i + 1;
    }
    Some(value)
}

/// Reads day, hour, minute, second and year from the characters of a
/// transition's timestamp.
pub fn extract_fields(text: &Vec<char>) -> (fields: Option<(i8, i16, i16, i16, i16)>)
    ensures
        fields is Some <==> transition_fields(text@) is Some,
        fields is Some ==> transition_fields(text@) == Some(
            (
                fields->Some_0.0 as int,
                fields->Some_0.1 as int,
                fields->Some_0.2 as int,
                fields->Some_0.3 as int,
                fields->Some_0.4 as int,
            ),
        ),
{
    let length: usize = text.len();
    let day_at: usize = find_digit(text, 0);
    if day_at >= length {
        return None;
    }
    let first: u8 = value_of_digit(text[day_at]);
    let mut day: u8 = first;
    let mut day_end: usize = day_at + 1;
    if day_at + 1 < length && digit(text[day_at + 1]) {
        day = 10 * first + value_of_digit(text[day_at + 1]);
        day_end = day_at + 2;
    }
    let hour_at: usize = find_digit(text, day_end);
    if hour_at >= length || hour_at + 1 >= length || !digit(text[hour_at + 1]) {
        return None;
    }
    let hour: u8 = value_of_digit(text[hour_at + 1]);
    let colon: usize = find_mark(text, ':', hour_at + 2);
    if colon >= length || length - colon < 6 {
        return None;
    }
    let minute: i16 = match read_number(text, colon + 1, 2) {
        Some(number) => number,
        None => { return None; },
    };
    if text[colon + 3] != ':' {
        return None;
    }
    let second: i16 = match read_number(text, colon + 4, 2) {
        Some(number) => number,
        None => { return None; },
    };
    let blank: usize = find_mark(text, ' ', colon + 6);
    let year_at: usize = find_digit(text, blank);
    let year: i16 = match read_number(text, year_at, 4) {
        Some(number) => number,
        None => { return None; },
    };
    Some((day as i8, hour as i16, minute, second, year))
}

/// Reads day, hour, minute, second and year, in this order, from the
/// timestamp of a transition.
pub fn extract_day_and_time(data: &str) -> (fields: Result<(i8, i16, i16, i16, i16), DateError>)
    ensures
        fields is Ok <==> transition_fields(data@) is Some,
        fields is Ok ==> transition_fields(data@) == Some(
            (
                fields->Ok_0.0 as int,
                fields->Ok_0.1 as int,
                fields->Ok_0.2 as int,
                fields->Ok_0.3 as int,
                fields->Ok_0.4 as int,
            ),
        ),
        fields is Err ==> fields->Err_0 == DateError::ParseFailure,
{
    let text: Vec<char> = chars_of(data);
    match extract_fields(&text) {
        Some(fields) => Ok(fields),
        None => Err(DateError::ParseFailure),
    }
}

/// The record of a line of the transition source: what stands between its
/// first and its second equals sign, or behind the first where there is no
/// second. In a line of `zdump` that is the local timestamp.
pub open spec fn record_of(line: Seq<char>) -> Seq<char> {
    let first = first_mark_from(line, '=', 0);
    let second = first_mark_from(line, '=', first + 1);
    line.subrange(first + 1, second)
}

/// The records of the lines that report daylight saving as in force, in
/// the order of the lines.
pub open spec fn dst_records(lines: Seq<Seq<char>>) -> Seq<Seq<char>>
    decreases lines.len(),
{
    if lines.len() == 0 {
        Seq::empty()
    } else if contains(lines.last(), "isdst=1"@) {
        dst_records(lines.drop_last()).push(record_of(lines.last()))
    } else {
        dst_records(lines.drop_last())
    }
}

/// Of the first two records, the first that names the month by the
/// abbreviation `word`.
pub open spec fn record_naming(records: Seq<Seq<char>>, word: Seq<char>) -> Option<Seq<char>> {
    if contains(records[0], word) {
        Some(records[0])
    } else if contains(records[1], word) {
        Some(records[1])
    } else {
        None
    }
}

/// The transition that a record gives, under the name `month`; nothing
/// where its timestamp cannot be read.
pub open spec fn transition_of(record: Seq<char>, month: Seq<char>) -> Option<Transition> {
    match transition_fields(record) {
        Some(fields) => Some(
            Transition {
                day: fields.0,
                month: month,
                year: fields.4,
                hour: fields.1,
                minute: fields.2,
                second: fields.3,
            },
        ),
        None => None,
    }
}

/// The daylight-saving window that the lines of the transition source
/// give.
///
/// Two records are expected. The one that names March is the start of the
/// window and the one that names November its end; a record of another
/// month is passed over, and that end of the window stays unset. Fewer
/// than two records are malformed output, and a record of March or
/// November whose timestamp cannot be read is a parse failure.
pub open spec fn window_of(lines: Seq<Seq<char>>) -> Result<Window, DateError> {
    let records = dst_records(lines);
    let start = record_naming(records, "Mar"@);
    let end = record_naming(records, "Nov"@);
    if records.len() < 2 {
        Err(DateError::MalformedOutput)
    } else if (start is Some && transition_fields(start->Some_0) is None) || (end is Some
        && transition_fields(end->Some_0) is None) {
        Err(DateError::ParseFailure)
    } else {
        Ok(
            Window {
                start: match start {
                    Some(record) => transition_of(record, "March"@),
                    None => None,
                },
                end: match end {
                    Some(record) => transition_of(record, "November"@),
                    None => None,
                },
            },
        )
    }
}

/// Tells whether the instant `date` lies later in its month than the
/// transition: on a later day, or on the same day at a later time.
pub open spec fn later_than(date: CalendarValue, transition: Transition) -> bool {
    ||| date.day > transition.day
    ||| date.day == transition.day && date.hour > transition.hour
    ||| date.day == transition.day && date.hour == transition.hour && date.minute
        > transition.minute
    ||| date.day == transition.day && date.hour == transition.hour && date.minute
        == transition.minute && date.second > transition.second
}

/// Tells whether the instant `date` lies earlier in its month than the
/// transition: on an earlier day, or on the same day at an earlier time.
pub open spec fn earlier_than(date: CalendarValue, transition: Transition) -> bool {
    ||| date.day < transition.day
    ||| date.day == transition.day && date.hour < transition.hour
    ||| date.day == transition.day && date.hour == transition.hour && date.minute
        < transition.minute
    ||| date.day == transition.day && date.hour == transition.hour && date.minute
        == transition.minute && date.second < transition.second
}

/// Tells whether daylight saving is in force at `date` under the window.
///
/// It never is in January, February and December, and always is from April
/// to October. In March it is in force once the start of the window has
/// passed, in November until its end is reached; with that end of the
/// window unset it is not in force.
pub open spec fn in_daylight_saving(date: CalendarValue, window: Window) -> bool {
    if date.month == 1 || date.month == 2 || date.month == 12 {
        false
    } else if date.month == 3 {
        window.start is Some && later_than(date, window.start->Some_0)
    } else if date.month == 11 {
        window.end is Some && earlier_than(date, window.end->Some_0)
    } else {
        true
    }
}

/// Tells whether the output of the transition source is needed to settle
/// whether daylight saving is in force at `date`: it is not in January,
/// February and December.
pub open spec fn transitions_needed(date: CalendarValue) -> bool {
    !(date.month == 1 || date.month == 2 || date.month == 12)
}

/// Whether daylight saving is in force at `date`, going by the output of
/// the transition source for the year of the date: settled without the
/// output in January, February and December, and by the window that the
/// lines of the output give in every other month.
pub open spec fn daylight_saving(date: CalendarValue, output: Seq<char>) -> Result<
    bool,
    DateError,
> {
    if !transitions_needed(date) {
        Ok(false)
    } else {
        match window_of(pieces(output, '\n')) {
            Ok(window) => Ok(in_daylight_saving(date, window)),
            Err(error) => Err(error),
        }
    }
}

/// The years for which the transition source is asked: the year of the
/// date and the year after it, with a comma between them.
pub open spec fn year_range(year: int) -> Seq<char> {
    decimal(year as nat) + ","@ + decimal((year + 1) as nat)
}

/// The arguments with which `zdump` is to be run for `date`: verbose
/// output, cut to the years of [`year_range`], for the timezone that the
/// date names.
pub fn zdump_arguments(date: &FirstDate) -> (arguments: Vec<String>)
    ensures
        arguments.len() == 4,
        arguments[0]@ == "-V"@,
        arguments[1]@ == "-c"@,
        arguments[2]@ == year_range(date.year as int),
        arguments[3]@ == date.timezone_name@,
{
    let mut years: String = String::new();
    append_decimal(&mut years, date.year as u32);
    years.append(",");
    append_decimal(&mut years, date.year as u32 + 1);
    proof {
        assert(years@ =~= year_range(date.year as int));
    }
    let mut arguments: Vec<String> = Vec::new();
    arguments.push(String::from_str("-V"));
    arguments.push(String::from_str("-c"));
    arguments.push(years);
    arguments.push(date.timezone_name.clone());
    arguments
}

/// Cuts the record out of a line that reports daylight saving.
fn record(line: &Vec<char>) -> (text: Vec<char>)
    requires
        contains(line@, "isdst=1"@),
    ensures
        text@ == record_of(line@),
{
    proof {
        let at = choose|at: int| occurs_at(line@, "isdst=1"@, at);
        reveal_strlit("isdst=1");
        assert(line@.subrange(at, at + 7)[5] == '=');
        lemma_first_mark_bound(line@, '=', 0, at + 5);
    }
    let first: usize = find_mark(line, '=', 0);
    let second: usize = find_mark(line, '=', first + 1);
    slice_of(line, first + 1, second)
}

/// Collects the records of the lines that report daylight saving.
fn records_of(lines: &Vec<Vec<char>>) -> (records: Vec<Vec<char>>)
    ensures
        texts(records@) == dst_records(texts(lines@)),
{
    let marker: Vec<char> = chars_of("isdst=1");
    let mut records: Vec<Vec<char>> = Vec::new();
    let mut i: usize = 0;
    proof {
        assert(texts(lines@).take(0) =~= Seq::empty());
        assert(texts(records@) =~= Seq::empty());
    }
    while i < lines.len()
        invariant
            i <= lines.len(),
            marker@ == "isdst=1"@,
            texts(records@) == dst_records(texts(lines@).take(i as int)),
        decreases lines.len() - i,
    {
        let ghost held = texts(records@);
        proof {
            assert(texts(lines@).take(i + 1).drop_last() =~= texts(lines@).take(i as int));
            assert(texts(lines@).take(i + 1).last() == lines@[i as int]@);
        }
        if contains_text(&lines[i], &marker) {
            let text: Vec<char> = record(&lines[i]);
            let ghost text_view = text@;
            records.push(text);
            proof {
                assert(texts(records@) =~= held.push(text_view));
            }
        }
        i = i + 1;
    }
    proof {
        assert(texts(lines@).take(lines.len() as int) =~= texts(lines@));
    }
    records
}

/// Reads the transition of the first of the first two records that names
/// the month by `word`.
fn transition_named(records: &Vec<Vec<char>>, word: &str, month: &str) -> (outcome: Result<
    Option<DstDateRange>,
    DateError,
>)
    requires
        records.len() >= 2,
    ensures
        match record_naming(texts(records@), word@) {
            Some(record) => match transition_of(record, month@) {
                Some(transition) => outcome is Ok && transition_view(outcome->Ok_0) == Some(
                    transition,
                ),
                None => outcome == Err::<Option<DstDateRange>, DateError>(
                    DateError::ParseFailure,
                ),
            },
            None => outcome is Ok && outcome->Ok_0 is None,
        },
{
    let word_chars: Vec<char> = chars_of(word);
    let found: Option<usize> = if contains_text(&records[0], &word_chars) {
        Some(0)
    } else if contains_text(&records[1], &word_chars) {
        Some(1)
    } else {
        None
    };
    match found {
        Some(index) => match extract_fields(&records[index]) {
            Some(fields) => Ok(
                Some(
                    DstDateRange {
                        day: fields.0,
                        month: String::from_str(month),
                        year: fields.4,
                        hour: fields.1,
                        minute: fields.2,
                        second: fields.3,
                    },
                ),
            ),
            None => Err(DateError::ParseFailure),
        },
        None => Ok(None),
    }
}

/// Tells whether two outcomes of reading a window are the same: the same
/// window, or the same failure.
pub open spec fn same_window(outcome: Result<DstRange, DateError>, expected: Result<
    Window,
    DateError,
>) -> bool {
    match expected {
        Ok(window) => outcome is Ok && outcome->Ok_0@ == window,
        Err(error) => outcome is Err && outcome->Err_0 == error,
    }
}

/// Reads the daylight-saving window from the lines of the transition
/// source, given as characters.
pub fn window_from_lines(lines: &Vec<Vec<char>>) -> (outcome: Result<DstRange, DateError>)
    ensures
        same_window(outcome, window_of(texts(lines@))),
{
    let records: Vec<Vec<char>> = records_of(lines);
    if records.len() < 2 {
        return Err(DateError::MalformedOutput);
    }
    let start: Result<Option<DstDateRange>, DateError> = transition_named(
        &records,
        "Mar",
        "March",
    );
    let end: Result<Option<DstDateRange>, DateError> = transition_named(
        &records,
        "Nov",
        "November",
    );
    match (start, end) {
        (Ok(start), Ok(end)) => Ok(DstRange { end: end, start: start }),
        _ => Err(DateError::ParseFailure),
    }
}

/// The texts that a vector of string slices holds.
pub open spec fn slice_texts(lines: Seq<&str>) -> Seq<Seq<char>> {
    Seq::new(lines.len(), |i: int| lines[i]@)
}

/// Reads the daylight-saving window from the lines of the output of
/// `zdump`.
pub fn parse_zdump(zdump_data: Vec<&str>) -> (outcome: Result<DstRange, DateError>)
    ensures
        same_window(outcome, window_of(slice_texts(zdump_data@))),
{
    let mut lines: Vec<Vec<char>> = Vec::new();
    let mut i: usize = 0;
    while i < zdump_data.len()
        invariant
            i <= zdump_data.len(),
            lines.len() == i,
            forall|j: int| 0 <= j < i ==> lines@[j]@ == zdump_data@[j]@,
        decreases zdump_data.len() - i,
    {
        lines.push(chars_of(zdump_data[i]));
        i = i + 1;
    }
    proof {
        assert(texts(lines@) =~= slice_texts(zdump_data@));
    }
    window_from_lines(&lines)
}

/// Tells whether daylight saving is in force at `date` under the window
/// `range`.
pub fn dst_in_force(date: &FirstDate, range: &DstRange) -> (in_force: bool)
    ensures
        in_force == in_daylight_saving(date@, range@),
        date.month == 1 || date.month == 2 || date.month == 12 ==> !in_force,
{
    if date.month == 1 || date.month == 2 || date.month == 12 {
        false
    } else if date.month == 3 {
        match &range.start {
            Some(start) => {
                let day: i16 = date.day as i16;
                let hour: i16 = date.hour as i16;
                let minute: i16 = date.minute as i16;
                let second: i16 = date.second as i16;
                day > start.day as i16 || (day == start.day as i16 && (hour > start.hour || (hour
                    == start.hour && (minute > start.minute || (minute == start.minute
                    && second > start.second)))))
            },
            None => false,
        }
    } else if date.month == 11 {
        match &range.end {
            Some(end) => {
                let day: i16 = date.day as i16;
                let hour: i16 = date.hour as i16;
                let minute: i16 = date.minute as i16;
                let second: i16 = date.second as i16;
                day < end.day as i16 || (day == end.day as i16 && (hour < end.hour || (hour
                    == end.hour && (minute < end.minute || (minute == end.minute && second
                    < end.second)))))
            },
            None => false,
        }
    } else {
        true
    }
}

/// Tells whether the output of `zdump` is needed to settle whether
/// daylight saving is in force at `date`. Where it is not, [`is_dst`]
/// answers `false` for any output, the empty one too, and the utility need
/// not be run.
pub fn needs_transitions(date: &FirstDate) -> (needed: bool)
    ensures
        needed == transitions_needed(date@),
        !needed ==> forall|output: Seq<char>|
            #[trigger] daylight_saving(date@, output) == Ok::<bool, DateError>(false),
{
    !(date.month == 1 || date.month == 2 || date.month == 12)
}

/// Tells whether daylight saving is in force at `date`, given what `zdump`
/// printed for the year of the date and the year after it.
pub fn is_dst(date: &FirstDate, zdump_output: &str) -> (outcome: Result<bool, DateError>)
    ensures
        outcome == daylight_saving(date@, zdump_output@),
        date.month == 1 || date.month == 2 || date.month == 12 ==> outcome == Ok::<
            bool,
            DateError,
        >(false),
{
    if date.month == 1 || date.month == 2 || date.month == 12 {
        return Ok(false);
    }
    let text: Vec<char> = chars_of(zdump_output);
    let lines: Vec<Vec<char>> = split_at_mark(&text, '\n');
    match window_from_lines(&lines) {
        Ok(range) => Ok(dst_in_force(date, &range)),
        Err(error) => Err(error),
    }
}

} // verus!
