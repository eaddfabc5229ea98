use wtimer_lib::domain::date::Date;
use wtimer_lib::domain::range::Range;
use wtimer_lib::domain::time::Time;

fn day1() -> Date {
    Date::from_ymd_opt(2023, 6, 25).unwrap()
}

fn day2() -> Date {
    Date::from_ymd_opt(2026, 6, 25).unwrap()
}

fn range(day: Date, start: u32, end: Option<u32>) -> Range {
    let start = Time::new(start).unwrap();
    let end = end.map(|e| Time::new(e).unwrap());
    Range::new(day, start, end)
}

#[test]
fn new_range_doc_example() {
    let day = Date::from_ymd_opt(2023, 6, 25).unwrap();
    let range = Range::new(
        day,
        Time::from_hms(1, 2, 3).unwrap(),
        Some(Time::from_hms(4, 5, 6).unwrap()),
    );
    assert!(range.id() != 0);
    assert_eq!(range.day(), Date::from_ymd_opt(2023, 6, 25).unwrap());
    assert_eq!(range.start(), Time::from_hms(1, 2, 3).unwrap());
    assert_eq!(range.end(), Some(Time::from_hms(4, 5, 6).unwrap()));
}

#[test]
fn new_range_has_v7_id() {
    let r = range(day1(), 1, Some(2));
    assert_eq!((r.id() >> 76) & 0xf, 7);
    assert_eq!((r.id() >> 62) & 0x3, 2);
    let other = range(day1(), 1, Some(2));
    assert_ne!(r.id(), other.id());
}

#[test]
fn new_with_id_keeps_fields() {
    let r = Range::new_with_id(42, day2(), Time::new(5).unwrap(), None);
    assert_eq!(r.id(), 42);
    assert_eq!(r.day(), day2());
    assert_eq!(r.start().seconds(), 5);
    assert!(r.end().is_none());
}

#[test]
fn intersects_iter_skips_same_id() {
    let a = Range::new_with_id(1, day1(), Time::new(5).unwrap(), Some(Time::new(10).unwrap()));
    let b = Range::new_with_id(2, day1(), Time::new(10).unwrap(), Some(Time::new(15).unwrap()));
    let moved = Range::new_with_id(1, day1(), Time::new(6).unwrap(), Some(Time::new(9).unwrap()));
    assert!(!moved.intersects_iter(&[a, b]));
    let wider = Range::new_with_id(1, day1(), Time::new(6).unwrap(), Some(Time::new(11).unwrap()));
    assert!(wider.intersects_iter(&[a, b]));
    assert!(!a.intersects_iter(&[]));
}

#[test]
fn open_range_reaches_end_of_day() {
    let late = range(day1(), 86_399, None);
    let open = range(day1(), 0, None);
    assert!(late.intersects(&open));
    let empty = range(day1(), 10, Some(10));
    assert!(!empty.intersects(&empty));
}

#[test]
fn same() {
    let r1 = range(day1(), 5, Some(10));
    let r2 = range(day1(), 5, Some(10));
    assert!(r1.intersects(&r2));
    assert!(r2.intersects(&r1));
}

#[test]
fn one_starts_early() {
    let r1 = range(day1(), 1, Some(10));
    let r2 = range(day1(), 5, Some(10));
    assert!(r1.intersects(&r2));
    assert!(r2.intersects(&r1));
}

#[test]
fn one_end_later() {
    let r1 = range(day1(), 5, Some(15));
    let r2 = range(day1(), 5, Some(10));
    assert!(r1.intersects(&r2));
    assert!(r2.intersects(&r1));
}

#[test]
fn one_inside_another() {
    let r1 = range(day1(), 7, Some(9));
    let r2 = range(day1(), 5, Some(10));
    assert!(r1.intersects(&r2));
    assert!(r2.intersects(&r1));
}

#[test]
fn one_inside_another_same_start() {
    let r1 = range(day1(), 5, Some(9));
    let r2 = range(day1(), 5, Some(10));
    assert!(r1.intersects(&r2));
    assert!(r2.intersects(&r1));
}

#[test]
fn one_inside_another_same_end() {
    let r1 = range(day1(), 7, Some(10));
    let r2 = range(day1(), 5, Some(10));
    assert!(r1.intersects(&r2));
    assert!(r2.intersects(&r1));
}

#[test]
fn same_but_different_day() {
    let r1 = range(day1(), 5, Some(10));
    let r2 = range(day2(), 5, Some(10));
    assert!(!r1.intersects(&r2));
    assert!(!r2.intersects(&r1));
}

#[test]
fn one_starts_early_but_different_day() {
    let r1 = range(day1(), 1, Some(10));
    let r2 = range(day2(), 5, Some(10));
    assert!(!r1.intersects(&r2));
    assert!(!r2.intersects(&r1));
}

#[test]
fn one_end_later_but_different_day() {
    let r1 = range(day1(), 5, Some(15));
    let r2 = range(day2(), 5, Some(10));
    assert!(!r1.intersects(&r2));
    assert!(!r2.intersects(&r1));
}

#[test]
fn one_inside_another_but_different_day() {
    let r1 = range(day1(), 7, Some(9));
    let r2 = range(day2(), 5, Some(10));
    assert!(!r1.intersects(&r2));
    assert!(!r2.intersects(&r1));
}

#[test]
fn one_inside_another_same_start_but_different_day() {
    let r1 = range(day1(), 5, Some(9));
    let r2 = range(day2(), 5, Some(10));
    assert!(!r1.intersects(&r2));
    assert!(!r2.intersects(&r1));
}

#[test]
fn one_inside_another_same_end_but_different_day() {
    let r1 = range(day1(), 7, Some(10));
    let r2 = range(day2(), 5, Some(10));
    assert!(!r1.intersects(&r2));
    assert!(!r2.intersects(&r1));
}

#[test]
fn not_same() {
    let r1 = range(day1(), 1, Some(5));
    let r2 = range(day1(), 10, Some(15));
    assert!(!r1.intersects(&r2));
    assert!(!r2.intersects(&r1));
}

#[test]
fn one_starts_after_another() {
    let r1 = range(day1(), 5, Some(10));
    let r2 = range(day1(), 10, Some(15));
    assert!(!r1.intersects(&r2));
    assert!(!r2.intersects(&r1));
}

#[test]
fn same_without_end() {
    let r1 = range(day1(), 1, None);
    let r2 = range(day1(), 1, None);
    assert!(r1.intersects(&r2));
    assert!(r2.intersects(&r1));
}

#[test]
fn one_inside_another_without_end() {
    let r1 = range(day1(), 5, Some(10));
    let r2 = range(day1(), 1, None);
    assert!(r1.intersects(&r2));
    assert!(r2.intersects(&r1));
}

#[test]
fn same_without_end_different_day() {
    let r1 = range(day1(), 1, None);
    let r2 = range(day2(), 1, None);
    assert!(!r1.intersects(&r2));
    assert!(!r2.intersects(&r1));
}

#[test]
fn one_inside_another_without_end_different_day() {
    let r1 = range(day1(), 5, Some(10));
    let r2 = range(day2(), 1, None);
    assert!(!r1.intersects(&r2));
    assert!(!r2.intersects(&r1));
}
