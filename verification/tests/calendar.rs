use first_date::is_leap_year;

#[test]
fn is_leap_year_test_true_century() {
    assert_eq!(is_leap_year(2000), true);
}

#[test]
fn is_leap_year_test_true_mod4() {
    assert_eq!(is_leap_year(2020), true);
}

#[test]
fn is_leap_year_test_false() {
    assert_eq!(is_leap_year(2021), false);
}
