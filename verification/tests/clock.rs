use first_date::clock::{instant_of, instant_of_reading};
use first_date::rounding::round_quotient;
use first_date::{epoch_milliseconds, generate_first_date_from_millis};

#[test]
fn epoch_milliseconds_reads_a_clock_of_this_century() {
    let first = epoch_milliseconds();
    let second = epoch_milliseconds();
    assert!(first >= 0);
    assert!(second >= first - 60_000);
    let date = generate_first_date_from_millis(first);
    assert!(date.year >= 2024);
    assert!(date.year < 2100);
}

#[test]
fn instant_of_bounds_a_count_of_milliseconds() {
    assert_eq!(instant_of(0), 0);
    assert_eq!(instant_of(1747972008447), 1747972008447);
    assert_eq!(instant_of(isize::MAX as u128), isize::MAX);
    assert_eq!(instant_of(isize::MAX as u128 + 1), isize::MAX);
    assert_eq!(instant_of(u128::MAX), isize::MAX);
}

#[test]
fn instant_of_reading_takes_a_clock_before_the_epoch_for_the_epoch() {
    assert_eq!(instant_of_reading(None), 0);
    assert_eq!(instant_of_reading(Some(0)), 0);
    assert_eq!(instant_of_reading(Some(1747972008447)), 1747972008447);
    assert_eq!(instant_of_reading(Some(isize::MAX as u128 + 7)), isize::MAX);
}

#[test]
fn round_quotient_keeps_what_single_precision_holds() {
    for whole in [0u128, 1, 2, 3, 1000, 16_777_215, 16_777_216, 16_777_218, 1 << 40, 3 << 60] {
        assert_eq!(round_quotient(whole, 1), whole);
        assert_eq!(whole as f32 as u128, whole);
    }
}

#[test]
fn round_quotient_rounds_to_the_nearest_and_ties_to_even() {
    assert_eq!(round_quotient(16_777_217, 1), 16_777_216);
    assert_eq!(round_quotient(16_777_219, 1), 16_777_220);
    assert_eq!(round_quotient(16_777_221, 1), 16_777_220);
    assert_eq!(round_quotient(33_554_433, 1), 33_554_432);
    assert_eq!(round_quotient(33_554_434, 1), 33_554_432);
    assert_eq!(round_quotient(33_554_435, 1), 33_554_436);
    assert_eq!(round_quotient(33_554_438, 1), 33_554_440);
    assert_eq!(round_quotient(7, 2), 4);
    assert_eq!(round_quotient(5, 2), 2);
    assert_eq!(round_quotient(10, 3), 3);
    assert_eq!(round_quotient(11, 3), 4);
    assert_eq!(round_quotient(33_554_431, 1), 33_554_432);
}

#[test]
fn round_quotient_agrees_with_single_precision() {
    let mut whole: u64 = 16_000_000;
    while whole < (1 << 62) {
        assert_eq!(round_quotient(whole as u128, 1), whole as f32 as u128, "{}", whole);
        assert_eq!(round_quotient(whole as u128 + 1, 1), (whole + 1) as f32 as u128);
        whole += whole / 97 + 1;
    }
    for dividend in (1u32 << 23)..(1u32 << 23) + 5000 {
        for divisor in [1u32, 3, 7, 10, 365] {
            let scaled = dividend as u128 * divisor as u128 + (dividend % divisor) as u128;
            let exact = scaled as f64 / divisor as f64;
            assert_eq!(round_quotient(scaled, divisor as u128), exact as f32 as u128);
        }
    }
}
