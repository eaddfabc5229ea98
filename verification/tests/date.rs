use wtimer_lib::domain::date::Date;

#[test]
fn from_ymd_opt_examples() {
    assert!(Date::from_ymd_opt(2015, 3, 14).is_some());
    assert!(Date::from_ymd_opt(2015, 0, 14).is_none());
    assert!(Date::from_ymd_opt(2015, 2, 29).is_none());
    assert!(Date::from_ymd_opt(-4, 2, 29).is_some());
    assert!(Date::from_ymd_opt(400000, 1, 1).is_none());
    assert!(Date::from_ymd_opt(-400000, 1, 1).is_none());
}

#[test]
fn leap_years() {
    assert!(Date::from_ymd_opt(2000, 2, 29).is_some());
    assert!(Date::from_ymd_opt(1900, 2, 29).is_none());
    assert!(Date::from_ymd_opt(2024, 2, 29).is_some());
    assert!(Date::from_ymd_opt(2023, 4, 31).is_none());
    assert!(Date::from_ymd_opt(2023, 12, 31).is_some());
    assert!(Date::from_ymd_opt(2023, 13, 1).is_none());
}

#[test]
fn year_bounds() {
    assert!(Date::from_ymd_opt(262142, 12, 31).is_some());
    assert!(Date::from_ymd_opt(262143, 1, 1).is_none());
    assert!(Date::from_ymd_opt(-262143, 1, 1).is_some());
    assert!(Date::from_ymd_opt(-262144, 12, 31).is_none());
}

#[test]
fn components() {
    let d = Date::from_ymd_opt(2026, 7, 15).unwrap();
    assert_eq!(d.year(), 2026);
    assert_eq!(d.month(), 7);
    assert_eq!(d.day(), 15);
    assert_eq!(d.month0(), 6);
    assert_eq!(d.day0(), 14);
}
