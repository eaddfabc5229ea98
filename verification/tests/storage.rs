use wtimer_lib::domain::date::Date;
use wtimer_lib::storage::{append_time_range, date_to_key, Time, TimeError, TimeRange};

#[test]
fn storage_time_bounds() {
    let t = Time::new(24, 60).unwrap();
    assert_eq!(t.hours(), 24);
    assert_eq!(t.minutes(), 60);
    assert!(matches!(Time::new(25, 0), Err(TimeError::Hour(25))));
    assert!(matches!(Time::new(3, 61), Err(TimeError::Minute(61))));
    assert!(matches!(Time::new(30, 99), Err(TimeError::Hour(30))));
}

#[test]
fn encode_with_end() {
    let r = TimeRange::new(Time::new(9, 15).unwrap(), Some(Time::new(17, 45).unwrap()));
    assert_eq!(r.as_bytes(), [9, 15, 17, 45]);
    assert_eq!(TimeRange::from_bytes(&r.as_bytes()), r);
}

#[test]
fn encode_without_end() {
    let r = TimeRange::new(Time::new(8, 0).unwrap(), None);
    assert_eq!(r.as_bytes(), [8, 0, 128, 0]);
    let back = TimeRange::from_bytes(&[8, 0, 128, 77]);
    assert_eq!(back, r);
    assert!(back.end().is_none());
}

#[test]
fn decode_empty() {
    let r = TimeRange::from_bytes(&[]);
    assert_eq!(r.start().hours(), 0);
    assert_eq!(r.start().minutes(), 0);
    assert!(r.end().is_none());
    assert_eq!(TimeRange::fixed_width(), Some(4));
}

#[test]
fn date_keys() {
    let d = Date::from_ymd_opt(2026, 7, 15).unwrap();
    assert_eq!(date_to_key(&d), (2026 << 16) | (6 << 8) | 14);
    let e = Date::from_ymd_opt(2026, 7, 16).unwrap();
    assert_ne!(date_to_key(&d), date_to_key(&e));
}

#[test]
fn try_from_bytes_checks() {
    assert!(TimeRange::try_from_bytes(&[25, 0, 128, 0]).is_none());
    assert!(TimeRange::try_from_bytes(&[1, 61, 128, 0]).is_none());
    assert!(TimeRange::try_from_bytes(&[1, 0, 30, 0]).is_none());
    assert!(TimeRange::try_from_bytes(&[1, 0]).is_none());
    assert!(TimeRange::try_from_bytes(&[1, 0, 2]).is_none());
    assert_eq!(
        TimeRange::try_from_bytes(&[1, 0, 128]),
        Some(TimeRange::new(Time::new(1, 0).unwrap(), None))
    );
    assert_eq!(
        TimeRange::try_from_bytes(&[1, 0, 2, 30]),
        Some(TimeRange::new(Time::new(1, 0).unwrap(), Some(Time::new(2, 30).unwrap())))
    );
    assert!(TimeRange::try_from_bytes(&[]).is_some());
}

#[test]
fn append_time_ranges() {
    let a = TimeRange::new(Time::new(1, 0).unwrap(), None);
    let b = TimeRange::new(Time::new(2, 0).unwrap(), None);
    assert_eq!(append_time_range(None, a), vec![a]);
    assert_eq!(append_time_range(Some(vec![a]), b), vec![a, b]);
}
