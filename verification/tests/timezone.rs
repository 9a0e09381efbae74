use first_date::{
    local_timezone, local_timezone_offset, DateError, FirstDate, FirstDateOperations,
};

fn table() -> Vec<String> {
    [
        "Pacific/Honolulu -10",
        "America/New_York -5",
        "America/New_York_Annex -4",
        "Europe/London 0",
        "Europe/Berlin +1",
        "Asia/Tokyo 9",
        "Asia/Kolkata 5.5",
        "Mars/Olympus",
        "Far/Away 40000",
        "Near/Edge -32768",
        "Wide/Offset 200",
        "Three part entry 3",
        "Trailing/Blank 7 ",
    ]
    .iter()
    .map(|line| line.to_string())
    .collect()
}

fn lookup(name: &str) -> Result<i16, DateError> {
    local_timezone_offset(name.to_string(), &table())
}

#[test]
fn offset_of_a_known_timezone() {
    assert_eq!(lookup("America/New_York"), Ok(-5));
    assert_eq!(lookup("Asia/Tokyo"), Ok(9));
    assert_eq!(lookup("Europe/London"), Ok(0));
    assert_eq!(lookup("Europe/Berlin"), Ok(1));
    assert_eq!(lookup("Near/Edge"), Ok(-32768));
}

#[test]
fn offset_is_the_last_token() {
    assert_eq!(lookup("Three part entry"), Ok(3));
    assert_eq!(lookup("part"), Ok(3));
}

#[test]
fn offset_of_the_first_line_that_holds_the_name() {
    assert_eq!(lookup("New_York"), Ok(-5));
    assert_eq!(lookup("America"), Ok(-5));
    assert_eq!(lookup("Annex"), Ok(-4));
    assert_eq!(lookup("a"), Ok(-10));
    assert_eq!(lookup(""), Ok(-10));
    assert_eq!(lookup("-5"), Ok(-5));
}

#[test]
fn offset_of_an_unknown_timezone() {
    assert_eq!(lookup("Europe/Paris"), Err(DateError::NotFound));
    assert_eq!(lookup("america/new_york"), Err(DateError::NotFound));
    assert_eq!(local_timezone_offset("UTC".to_string(), &Vec::new()), Err(DateError::NotFound));
}

#[test]
fn offset_that_is_no_whole_number() {
    assert_eq!(lookup("Asia/Kolkata"), Err(DateError::ParseFailure));
    assert_eq!(lookup("Mars/Olympus"), Err(DateError::ParseFailure));
    assert_eq!(lookup("Far/Away"), Err(DateError::ParseFailure));
    assert_eq!(lookup("Trailing/Blank"), Err(DateError::ParseFailure));
}

#[test]
fn offset_tokens_at_the_edges_of_the_grammar() {
    let one = |line: &str| local_timezone_offset("Zone".to_string(), &vec![line.to_string()]);
    assert_eq!(one("Zone 32767"), Ok(32767));
    assert_eq!(one("Zone 32768"), Err(DateError::ParseFailure));
    assert_eq!(one("Zone -32769"), Err(DateError::ParseFailure));
    assert_eq!(one("Zone 0032767"), Ok(32767));
    assert_eq!(one("Zone 99999999999999999999999999"), Err(DateError::ParseFailure));
    assert_eq!(one("Zone -0"), Ok(0));
    assert_eq!(one("Zone +"), Err(DateError::ParseFailure));
    assert_eq!(one("Zone -"), Err(DateError::ParseFailure));
    assert_eq!(one("Zone +-1"), Err(DateError::ParseFailure));
    assert_eq!(one("Zone 1-"), Err(DateError::ParseFailure));
    assert_eq!(one("Zone 1\t"), Err(DateError::ParseFailure));
    assert_eq!(one("Zone\t1"), Err(DateError::ParseFailure));
    assert_eq!(one("Zone"), Err(DateError::ParseFailure));
    assert_eq!(one("12Zone34 56"), Ok(56));
}

#[test]
fn set_timezone_moves_the_clock_and_records_the_offset() {
    let mut date = FirstDate::from_millis(1747972008447);
    assert_eq!(date.set_timezone("America/New_York".to_string(), &table()), Ok(()));
    assert_eq!((date.day, date.hour, date.minute), (22, 22, 46));
    assert_eq!(date.timezone_offset, Some(-5));
    assert_eq!(date.timezone_name, "unset");
    assert_eq!(date.is_daylight_savings, None);

    let mut date = FirstDate::from_millis(1747972008447);
    assert_eq!(date.set_timezone("Asia/Tokyo".to_string(), &table()), Ok(()));
    assert_eq!((date.day, date.hour, date.minute), (23, 12, 46));
    assert_eq!(date.timezone_offset, Some(9));
}

#[test]
fn set_timezone_twice_moves_the_clock_twice() {
    let mut date = FirstDate::from_millis(1747972008447);
    assert_eq!(date.set_timezone("Asia/Tokyo".to_string(), &table()), Ok(()));
    assert_eq!(date.set_timezone("Asia/Tokyo".to_string(), &table()), Ok(()));
    assert_eq!((date.day, date.hour), (23, 21));
    assert_eq!(date.timezone_offset, Some(9));
}

#[test]
fn set_timezone_refuses_an_offset_that_it_cannot_record() {
    let mut date = FirstDate::from_millis(1747972008447);
    assert_eq!(
        date.set_timezone("Wide/Offset".to_string(), &table()),
        Err(DateError::OffsetOutOfRange)
    );
    assert_eq!(
        date.set_timezone("Near/Edge".to_string(), &table()),
        Err(DateError::OffsetOutOfRange)
    );
    assert_eq!((date.month, date.day, date.hour), (5, 23, 3));
    assert_eq!(date.timezone_offset, None);
}

#[test]
fn set_timezone_records_the_widest_offsets() {
    let one = |line: &str| {
        let mut date = FirstDate::from_millis(1747972008447);
        let outcome = date.set_timezone("Zone".to_string(), &vec![line.to_string()]);
        (outcome, date.month, date.day, date.hour, date.timezone_offset)
    };
    // 3 + 127 h = 5 d 10 h; 3 - 128 h = -6 d + 19 h.
    assert_eq!(one("Zone 127"), (Ok(()), 5, 28, 10, Some(127)));
    assert_eq!(one("Zone -128"), (Ok(()), 5, 17, 19, Some(-128)));
    assert_eq!(one("Zone 128"), (Err(DateError::OffsetOutOfRange), 5, 23, 3, None));
    assert_eq!(one("Zone -129"), (Err(DateError::OffsetOutOfRange), 5, 23, 3, None));
}

#[test]
fn set_timezone_that_fails_leaves_the_value() {
    let mut date = FirstDate::from_millis(1747972008447);
    assert_eq!(
        date.set_timezone("Europe/Paris".to_string(), &table()),
        Err(DateError::NotFound)
    );
    assert_eq!(
        date.set_timezone("Asia/Kolkata".to_string(), &table()),
        Err(DateError::ParseFailure)
    );
    assert_eq!((date.day, date.hour, date.minute), (23, 3, 46));
    assert_eq!(date.timezone_offset, None);
}

#[test]
fn local_timezone_is_the_file_without_white_space_around_it() {
    assert_eq!(local_timezone(Some("America/New_York\n")), "America/New_York");
    assert_eq!(local_timezone(Some("  \t Europe/Berlin \r\n\n")), "Europe/Berlin");
    assert_eq!(local_timezone(Some("Etc/GMT+1")), "Etc/GMT+1");
    assert_eq!(local_timezone(Some(" two words ")), "two words");
    assert_eq!(local_timezone(Some("")), "");
    assert_eq!(local_timezone(Some(" \n ")), "");
    assert_eq!(local_timezone(Some("\u{3000}Asia/Tokyo\u{a0}")), "Asia/Tokyo");
    assert_eq!(local_timezone(Some("\u{200b}Asia/Tokyo")), "\u{200b}Asia/Tokyo");
}

#[test]
fn local_timezone_of_a_file_that_could_not_be_read() {
    assert_eq!(local_timezone(None), "Unable to get system timezone.");
}

#[test]
fn local_timezone_knows_every_white_space_character() {
    let mut code: u32 = 0;
    while code <= 0x10ffff {
        if let Some(c) = char::from_u32(code) {
            let text = format!("{}x{}", c, c);
            assert_eq!(local_timezone(Some(&text)), text.trim(), "{:x}", code);
        }
        code += if code < 0x4000 { 1 } else { 61 };
    }
}
