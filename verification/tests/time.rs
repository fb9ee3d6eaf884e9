use ptodd::time::{days_in_month, is_leap_year, DateTime, Month};

// Make sure the leap year function tests
#[test]
fn leap_year() {
    // not leap year - div 100 true, div 400 false
    assert!(!is_leap_year(1900u16));
    // leap year - div 400 true
    assert!(is_leap_year(2000u16));
    // not leap year - div 4 false
    assert!(!is_leap_year(2019u16));
    // leap year - div 4 true, div 100 false
    assert!(is_leap_year(2020u16));
}

#[test]
fn month_lengths() {
    assert_eq!(days_in_month(2019, Month::February), 28);
    assert_eq!(days_in_month(2020, Month::February), 29);
    assert_eq!(days_in_month(2020, Month::January), 31);
    assert_eq!(days_in_month(2020, Month::April), 30);
    assert_eq!(days_in_month(2020, Month::December), 31);
}

#[test]
fn month_succession() {
    assert_eq!(Month::January.next_month(), Month::February);
    assert_eq!(Month::December.next_month(), Month::January);
}

#[test]
fn month_from_number() {
    assert_eq!(Month::try_from(1).unwrap(), Month::January);
    assert_eq!(Month::try_from(12).unwrap(), Month::December);
    assert!(Month::try_from(0).is_err());
    assert!(Month::try_from(13).is_err());
    assert_eq!(Month::August.number(), 8);
}

#[test]
fn date_from_epoch_seconds() {
    // Day counting is by whole days completed since the epoch, so the
    // 18262nd completed day lands on the last day of 2019.
    let dt = DateTime::from_epoch(18_262 * 86_400, 0);
    assert_eq!(dt.year(), 2019);
    assert_eq!(dt.month(), Month::December);
    assert_eq!(dt.day(), 31);
    assert_eq!(dt.day_of_year(), 365);
    assert!(!dt.is_leap_year());

    // One day later the year turns: the first day of 2020, a leap year.
    let dt = DateTime::from_epoch(18_263 * 86_400, 0);
    assert_eq!(dt.year(), 2020);
    assert_eq!(dt.month(), Month::January);
    assert_eq!(dt.day(), 1);
    assert_eq!(dt.day_of_year(), 1);
    assert!(dt.is_leap_year());
}

#[test]
fn date_displays_zero_padded() {
    let dt = DateTime::from_epoch(18_263 * 86_400 + 61, 500);
    assert_eq!(
        dt.display_string(),
        "2020/01/01, Day 1, (1577923261 sec 500 ns, day 18263, from epoch)"
    );
}

#[test]
fn now_is_well_formed() {
    let dt = DateTime::now();
    assert!(dt.year() >= 1970);
    assert_eq!(dt.epoch_days, dt.epoch_seconds / 86_400);
}
