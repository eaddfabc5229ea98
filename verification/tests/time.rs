use wtimer_lib::domain::time::{SecondsError, Time, TimeError};

#[test]
fn new_accepts_seconds_within_day() {
    assert_eq!(Time::new(0).unwrap().seconds(), 0); // 00:00:00
    assert_eq!(Time::new(86_399).unwrap().seconds(), 86_399); // 23:59:59
}

#[test]
fn new_refuses_whole_day() {
    assert!(matches!(Time::new(86_400), Err(SecondsError)));
    assert!(matches!(Time::new(u32::MAX), Err(SecondsError)));
}

#[test]
fn from_hms_bounds() {
    assert_eq!(Time::from_hms(0, 0, 0).unwrap().seconds(), 0);
    assert_eq!(Time::from_hms(23, 59, 59).unwrap().seconds(), 86_399);
    assert!(matches!(Time::from_hms(24, 00, 00), Err(TimeError::Hours)));
    assert!(matches!(Time::from_hms(23, 60, 00), Err(TimeError::Minutes)));
    assert!(matches!(Time::from_hms(23, 59, 60), Err(TimeError::Seconds)));
}

#[test]
fn from_hms_formula() {
    assert_eq!(Time::from_hms(1, 2, 3).unwrap().seconds(), 3723);
    assert_eq!(Time::from_hms(10, 30, 0).unwrap().seconds(), 10 * 3600 + 30 * 60);
}

#[test]
fn from_hms_reports_first_invalid_component() {
    assert!(matches!(Time::from_hms(99, 99, 99), Err(TimeError::Hours)));
    assert!(matches!(Time::from_hms(0, 99, 99), Err(TimeError::Minutes)));
    assert!(matches!(Time::from_hms(u32::MAX, 0, 0), Err(TimeError::Hours)));
}

#[test]
fn from_hms_agrees_with_new() {
    let a = Time::from_hms(4, 5, 6).unwrap();
    let b = Time::new(4 * 3600 + 5 * 60 + 6).unwrap();
    assert_eq!(a, b);
}

#[test]
fn min_and_max_time() {
    assert_eq!(Time::min_time().seconds(), 0);
    assert_eq!(Time::max_time().seconds(), 86_400);
}

#[test]
fn error_messages() {
    assert_eq!(TimeError::Hours.to_string(), "hours should be in [0..23]");
    assert_eq!(TimeError::Minutes.to_string(), "minutes should be in [0..59]");
    assert_eq!(TimeError::Seconds.to_string(), "seconds should be in [0..59]");
    assert_eq!(SecondsError.to_string(), "exceeds the max number of seconds per day");
}
