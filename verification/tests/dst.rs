use first_date::{
    dst_in_force, extract_day_and_time, is_dst, needs_transitions, parse_zdump,
    zdump_arguments, DateError, DstDateRange, DstRange, FirstDate, FirstDateOperations,
    TimeUnit,
};

const BERLIN: &str = "\
Europe/Berlin  Sun Mar 30 00:59:59 2025 UT = Sun Mar 30 01:59:59 2025 CET isdst=0 gmtoff=3600
Europe/Berlin  Sun Mar 30 01:00:00 2025 UT = Sun Mar 30 03:00:00 2025 CEST isdst=1 gmtoff=7200
Europe/Berlin  Sun Oct 26 00:59:59 2025 UT = Sun Oct 26 02:59:59 2025 CEST isdst=1 gmtoff=7200
Europe/Berlin  Sun Oct 26 01:00:00 2025 UT = Sun Oct 26 02:00:00 2025 CET isdst=0 gmtoff=3600
";

const NEW_YORK: &str = "\
America/New_York  Sun Mar  9 06:59:59 2025 UT = Sun Mar  9 01:59:59 2025 EST isdst=0 gmtoff=-18000
America/New_York  Sun Mar  9 07:00:00 2025 UT = Sun Mar  9 03:00:00 2025 EDT isdst=1 gmtoff=-14400
America/New_York  Sun Nov  2 05:59:59 2025 UT = Sun Nov  2 01:59:59 2025 EDT isdst=1 gmtoff=-14400
America/New_York  Sun Nov  2 06:00:00 2025 UT = Sun Nov  2 01:00:00 2025 EST isdst=0 gmtoff=-18000
";

const SYDNEY: &str = "\
Australia/Sydney  Sat Apr  5 15:59:59 2025 UT = Sun Apr  6 02:59:59 2025 AEDT isdst=1 gmtoff=39600
Australia/Sydney  Sat Apr  5 16:00:00 2025 UT = Sun Apr  6 02:00:00 2025 AEST isdst=0 gmtoff=36000
Australia/Sydney  Sat Oct  4 15:59:59 2025 UT = Sun Oct  5 01:59:59 2025 AEST isdst=0 gmtoff=36000
Australia/Sydney  Sat Oct  4 16:00:00 2025 UT = Sun Oct  5 03:00:00 2025 AEDT isdst=1 gmtoff=39600
";

fn transition(range: &Option<DstDateRange>) -> Option<(i8, String, i16, i16, i16, i16)> {
    range.as_ref().map(|t| (t.day, t.month.clone(), t.year, t.hour, t.minute, t.second))
}

/// The instant of the given day of 2025 and time of day.
fn instant(month: u8, day: u8, hour: u8, minute: u8, second: u8) -> FirstDate {
    let mut date = FirstDate::from_millis(20089 * 86_400_000);
    assert_eq!((date.year, date.month, date.day), (2025, 1, 1));
    date.add(month as i16 - 1, TimeUnit::Month);
    date.day = day;
    date.hour = hour;
    date.minute = minute;
    date.second = second;
    date
}

#[test]
fn extract_day_and_time_of_a_timestamp() {
    assert_eq!(extract_day_and_time("Sun Mar  9 03:00:00 2025 EDT isdst"), Ok((9, 3, 0, 0, 2025)));
    assert_eq!(extract_day_and_time("Sun Nov  2 01:59:59 2025 EDT isdst"), Ok((2, 1, 59, 59, 2025)));
    assert_eq!(extract_day_and_time("Sun Mar 14 02:07:08 2027 EDT"), Ok((14, 2, 7, 8, 2027)));
    assert_eq!(extract_day_and_time("9 03:00:00 2025"), Ok((9, 3, 0, 0, 2025)));
}

#[test]
fn extract_day_and_time_takes_the_second_digit_of_the_hour() {
    assert_eq!(extract_day_and_time("Sun Mar  9 13:00:00 2025 EDT"), Ok((9, 3, 0, 0, 2025)));
    assert_eq!(extract_day_and_time("Sun Mar  9 20:15:30 2025 EDT"), Ok((9, 0, 15, 30, 2025)));
}

#[test]
fn extract_day_and_time_reads_a_day_of_one_or_two_digits() {
    assert_eq!(extract_day_and_time("Sun Nov  1 06:00:00 2026"), Ok((1, 6, 0, 0, 2026)));
    assert_eq!(extract_day_and_time("Sun Mar 10 03:00:00 2025"), Ok((10, 3, 0, 0, 2025)));
    assert_eq!(extract_day_and_time("Sun Mar 19 03:00:00 2025"), Ok((19, 3, 0, 0, 2025)));
    assert_eq!(extract_day_and_time("Sun Mar 23 03:00:00 2025"), Ok((23, 3, 0, 0, 2025)));
    assert_eq!(
        extract_day_and_time("Sun Mar 30 03:00:00 2025 CEST isdst"),
        Ok((30, 3, 0, 0, 2025))
    );
    assert_eq!(extract_day_and_time("Sun Oct 31 02:59:59 2027 CEST"), Ok((31, 2, 59, 59, 2027)));
    assert_eq!(extract_day_and_time("Sun Mar 05 03:00:00 2025"), Ok((5, 3, 0, 0, 2025)));
}

#[test]
fn extract_day_and_time_ends_the_day_after_two_digits() {
    assert_eq!(extract_day_and_time("Sun Mar 2345:00:00 2025"), Ok((23, 5, 0, 0, 2025)));
    assert_eq!(extract_day_and_time("Sun Mar 234 03:00:00 2025"), Err(DateError::ParseFailure));
}

#[test]
fn extract_day_and_time_reads_by_place() {
    assert_eq!(extract_day_and_time("a9b07d:12:34e f g5678h"), Ok((9, 7, 12, 34, 5678)));
    assert_eq!(extract_day_and_time("9 03 noon :12:34 2025"), Ok((9, 3, 12, 34, 2025)));
    assert_eq!(extract_day_and_time("9 03:00:001 2025"), Ok((9, 3, 0, 0, 2025)));
    assert_eq!(extract_day_and_time("0 00:00:00 0000"), Ok((0, 0, 0, 0, 0)));
    assert_eq!(extract_day_and_time("19 99:99:99 9999 9"), Ok((19, 9, 99, 99, 9999)));
}

#[test]
fn extract_day_and_time_of_a_text_that_is_no_timestamp() {
    for text in [
        "",
        "Sun Mar",
        "Sun Mar  9",
        "Sun Mar  9 0",
        "Sun Mar  9 03",
        "Sun Mar  9 03:00",
        "Sun Mar  9 03:00:00",
        "Sun Mar  9 03:00:00 ",
        "Sun Mar  9 03:00:00 202",
        "Sun Mar  9 03:00:00 20x5",
        "Sun Mar  9 03:0x:00 2025",
        "Sun Mar  9 03:00-00 2025",
        "Sun Mar  9 03:00:0 2025",
        "Sun Mar  9 03:00:002025",
        "Sun Mar  9 0x:00:00 2025",
        "Sun Mar  9 3:00:00 2025",
        "Sun Mar  9 03 00 00 2025",
    ] {
        assert_eq!(extract_day_and_time(text), Err(DateError::ParseFailure), "{:?}", text);
    }
}

#[test]
fn parse_zdump_of_a_northern_timezone() {
    let range = parse_zdump(NEW_YORK.split("\n").collect()).unwrap();
    assert_eq!(transition(&range.start), Some((9, "March".to_string(), 2025, 3, 0, 0)));
    assert_eq!(transition(&range.end), Some((2, "November".to_string(), 2025, 1, 59, 59)));
}

#[test]
fn parse_zdump_finds_the_months_in_either_order() {
    let lines: Vec<&str> = NEW_YORK.split("\n").collect();
    let swapped = vec![lines[2], lines[1], lines[0]];
    let range = parse_zdump(swapped).unwrap();
    assert_eq!(transition(&range.start), Some((9, "March".to_string(), 2025, 3, 0, 0)));
    assert_eq!(transition(&range.end), Some((2, "November".to_string(), 2025, 1, 59, 59)));
}

#[test]
fn parse_zdump_of_a_transition_late_in_march() {
    let range = parse_zdump(BERLIN.split("\n").collect()).unwrap();
    assert_eq!(transition(&range.start), Some((30, "March".to_string(), 2025, 3, 0, 0)));
    assert!(range.end.is_none());
}

#[test]
fn is_dst_with_a_transition_late_in_march() {
    assert_eq!(is_dst(&instant(3, 29, 12, 0, 0), BERLIN), Ok(false));
    assert_eq!(is_dst(&instant(3, 30, 3, 0, 0), BERLIN), Ok(false));
    assert_eq!(is_dst(&instant(3, 30, 3, 0, 1), BERLIN), Ok(true));
    assert_eq!(is_dst(&instant(3, 31, 0, 0, 0), BERLIN), Ok(true));
    assert_eq!(is_dst(&instant(7, 1, 0, 0, 0), BERLIN), Ok(true));
    assert_eq!(is_dst(&instant(11, 1, 0, 0, 0), BERLIN), Ok(false));
}

#[test]
fn needs_transitions_in_every_month_but_the_winter_months() {
    for month in 1..=12u8 {
        let date = instant(month, 15, 12, 0, 0);
        let winter = month == 1 || month == 2 || month == 12;
        assert_eq!(needs_transitions(&date), !winter);
        if winter {
            assert_eq!(is_dst(&date, ""), Ok(false));
        }
    }
}

#[test]
fn parse_zdump_passes_over_other_months() {
    let range = parse_zdump(SYDNEY.split("\n").collect()).unwrap();
    assert!(range.start.is_none());
    assert!(range.end.is_none());
    let mixed = vec![
        "Zone  x = Sun Mar  9 03:00:00 2025 EDT isdst=1",
        "Zone  x = Sun Oct  5 03:00:00 2025 EDT isdst=1",
    ];
    let range = parse_zdump(mixed).unwrap();
    assert_eq!(transition(&range.start), Some((9, "March".to_string(), 2025, 3, 0, 0)));
    assert!(range.end.is_none());
}

#[test]
fn parse_zdump_looks_at_the_first_two_records_only() {
    let lines = vec![
        "Zone  x = Sun Apr  6 02:59:59 2025 isdst=1",
        "Zone  x = Sun Oct  5 03:00:00 2025 isdst=1",
        "Zone  x = Sun Mar  9 03:00:00 2025 isdst=1",
        "Zone  x = Sun Nov  2 01:59:59 2025 isdst=1",
    ];
    let range = parse_zdump(lines).unwrap();
    assert!(range.start.is_none());
    assert!(range.end.is_none());
}

#[test]
fn parse_zdump_takes_the_record_behind_the_first_equals_sign() {
    let lines = vec![
        "Mar/Zone  Sun Nov  2 00:00:00 2025 UT = Sun Mar  9 03:00:00 2025 EDT isdst=1 = Nov",
        "Nov/Zone  Sun Mar  9 00:00:00 2025 UT = Sun Nov  2 01:59:59 2025 EDT isdst=1",
    ];
    let range = parse_zdump(lines).unwrap();
    assert_eq!(transition(&range.start), Some((9, "March".to_string(), 2025, 3, 0, 0)));
    assert_eq!(transition(&range.end), Some((2, "November".to_string(), 2025, 1, 59, 59)));
}

#[test]
fn parse_zdump_of_too_few_records() {
    assert_eq!(parse_zdump(Vec::new()).err(), Some(DateError::MalformedOutput));
    assert_eq!(parse_zdump(vec![""]).err(), Some(DateError::MalformedOutput));
    let lines: Vec<&str> = NEW_YORK.split("\n").collect();
    assert_eq!(parse_zdump(vec![lines[0], lines[1], lines[3]]).err(), Some(DateError::MalformedOutput));
    assert_eq!(parse_zdump(vec![lines[0], lines[3]]).err(), Some(DateError::MalformedOutput));
    assert_eq!(
        parse_zdump("UTC  -9223372036854775808 = NULL\nUTC  9223372036854775807 = NULL".split("\n").collect()).err(),
        Some(DateError::MalformedOutput)
    );
}

#[test]
fn parse_zdump_of_a_timestamp_that_cannot_be_read() {
    let lines = vec![
        "Zone  x = Sun Mar 23 3:00:00 2025 EDT isdst=1",
        "Zone  x = Sun Nov  2 01:59:59 2025 EDT isdst=1",
    ];
    assert_eq!(parse_zdump(lines).err(), Some(DateError::ParseFailure));
    let lines = vec![
        "Zone  x = Sun Mar  9 03:00:00 2025 EDT isdst=1",
        "Zone  x = Sun Nov  2 isdst=1",
    ];
    assert_eq!(parse_zdump(lines).err(), Some(DateError::ParseFailure));
}

#[test]
fn is_dst_is_false_in_winter_whatever_the_output() {
    for month in [1, 2, 12] {
        for day in [1, 9, 15, 28] {
            let date = instant(month, day, 12, 0, 0);
            assert_eq!(is_dst(&date, NEW_YORK), Ok(false));
            assert_eq!(is_dst(&date, SYDNEY), Ok(false));
            assert_eq!(is_dst(&date, ""), Ok(false));
            assert_eq!(is_dst(&date, "no sense at all isdst=1\nisdst=1 = Mar"), Ok(false));
        }
    }
}

#[test]
fn is_dst_is_true_from_april_to_october() {
    for month in 4..=10 {
        let date = instant(month, 1, 0, 0, 0);
        assert_eq!(is_dst(&date, NEW_YORK), Ok(true));
        assert_eq!(is_dst(&date, SYDNEY), Ok(true));
    }
}

#[test]
fn is_dst_in_march_starts_behind_the_start_of_the_window() {
    assert_eq!(is_dst(&instant(3, 1, 12, 0, 0), NEW_YORK), Ok(false));
    assert_eq!(is_dst(&instant(3, 8, 23, 59, 59), NEW_YORK), Ok(false));
    assert_eq!(is_dst(&instant(3, 9, 0, 30, 30), NEW_YORK), Ok(false));
    assert_eq!(is_dst(&instant(3, 9, 2, 59, 59), NEW_YORK), Ok(false));
    assert_eq!(is_dst(&instant(3, 9, 3, 0, 0), NEW_YORK), Ok(false));
    assert_eq!(is_dst(&instant(3, 9, 3, 0, 1), NEW_YORK), Ok(true));
    assert_eq!(is_dst(&instant(3, 9, 3, 1, 0), NEW_YORK), Ok(true));
    assert_eq!(is_dst(&instant(3, 9, 4, 0, 0), NEW_YORK), Ok(true));
    assert_eq!(is_dst(&instant(3, 10, 0, 0, 0), NEW_YORK), Ok(true));
    assert_eq!(is_dst(&instant(3, 31, 0, 0, 0), NEW_YORK), Ok(true));
}

#[test]
fn is_dst_in_november_ends_at_the_end_of_the_window() {
    assert_eq!(is_dst(&instant(11, 1, 23, 59, 59), NEW_YORK), Ok(true));
    assert_eq!(is_dst(&instant(11, 2, 0, 59, 59), NEW_YORK), Ok(true));
    assert_eq!(is_dst(&instant(11, 2, 1, 0, 59), NEW_YORK), Ok(true));
    assert_eq!(is_dst(&instant(11, 2, 1, 59, 58), NEW_YORK), Ok(true));
    assert_eq!(is_dst(&instant(11, 2, 1, 59, 59), NEW_YORK), Ok(false));
    assert_eq!(is_dst(&instant(11, 2, 2, 0, 0), NEW_YORK), Ok(false));
    assert_eq!(is_dst(&instant(11, 3, 0, 0, 0), NEW_YORK), Ok(false));
    assert_eq!(is_dst(&instant(11, 30, 0, 0, 0), NEW_YORK), Ok(false));
}

#[test]
fn is_dst_with_an_end_of_the_window_unset() {
    assert_eq!(is_dst(&instant(3, 20, 0, 0, 0), SYDNEY), Ok(false));
    assert_eq!(is_dst(&instant(11, 1, 0, 0, 0), SYDNEY), Ok(false));
}

#[test]
fn is_dst_of_output_that_cannot_be_used() {
    for month in 3..=11 {
        let date = instant(month, 1, 0, 0, 0);
        assert_eq!(is_dst(&date, ""), Err(DateError::MalformedOutput));
        assert_eq!(
            is_dst(&date, "x = Sun Mar  9 03:00:00 2025 isdst=1"),
            Err(DateError::MalformedOutput)
        );
        assert_eq!(
            is_dst(&date, "x = Sun Mar  9 03:00 isdst=1\nx = Sun Nov  2 01:59:59 2025 isdst=1"),
            Err(DateError::ParseFailure)
        );
    }
}

#[test]
fn is_dst_reads_lines_that_end_in_a_line_feed() {
    let joined = NEW_YORK.replace("\n", " ");
    assert_eq!(is_dst(&instant(5, 1, 0, 0, 0), &joined), Err(DateError::MalformedOutput));
    let without_last = NEW_YORK.trim_end();
    assert_eq!(is_dst(&instant(3, 10, 0, 0, 0), without_last), Ok(true));
}

#[test]
fn dst_in_force_goes_by_the_window() {
    let range = DstRange {
        start: Some(DstDateRange {
            day: 9,
            month: "March".to_string(),
            year: 2025,
            hour: 3,
            minute: 0,
            second: 0,
        }),
        end: None,
    };
    assert_eq!(dst_in_force(&instant(3, 9, 3, 0, 0), &range), false);
    assert_eq!(dst_in_force(&instant(3, 9, 3, 0, 1), &range), true);
    assert_eq!(dst_in_force(&instant(11, 1, 0, 0, 0), &range), false);
    assert_eq!(dst_in_force(&instant(7, 1, 0, 0, 0), &range), true);
    assert_eq!(dst_in_force(&instant(1, 31, 0, 0, 0), &range), false);
}

#[test]
fn zdump_arguments_name_the_year_and_the_next() {
    let mut date = FirstDate::from_millis(1747972008447);
    date.timezone_name = "America/New_York".to_string();
    assert_eq!(zdump_arguments(&date), vec!["-V", "-c", "2025,2026", "America/New_York"]);
    date.year = 65535;
    assert_eq!(zdump_arguments(&date)[2], "65535,65536");
    date.year = 9;
    assert_eq!(zdump_arguments(&date)[2], "9,10");
    let unset = FirstDate::default();
    assert_eq!(zdump_arguments(&unset), vec!["-V", "-c", "0,1", "unset"]);
}
