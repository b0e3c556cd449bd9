use mae::date::Date;

#[test]
fn test_date_new_accepts_real_days() {
    assert!(Date::new(2024, 1, 31).is_some());
    assert!(Date::new(2024, 2, 29).is_some());
    assert!(Date::new(2000, 2, 29).is_some());
    assert!(Date::new(1999, 12, 31).is_some());
}

#[test]
fn test_date_new_rejects_impossible_days() {
    assert!(Date::new(2023, 2, 29).is_none());
    assert!(Date::new(1900, 2, 29).is_none());
    assert!(Date::new(2024, 4, 31).is_none());
    assert!(Date::new(2024, 13, 1).is_none());
    assert!(Date::new(2024, 0, 1).is_none());
    assert!(Date::new(2024, 1, 0).is_none());
}

#[test]
fn test_date_order_is_calendar_order() {
    let a = Date::new(2024, 1, 10).unwrap();
    let b = Date::new(2024, 1, 11).unwrap();
    let c = Date::new(2024, 2, 1).unwrap();
    let d = Date::new(2025, 1, 1).unwrap();
    assert!(a.is_before(&b));
    assert!(b.is_before(&c));
    assert!(c.is_before(&d));
    assert!(!a.is_before(&a));
    assert!(!b.is_before(&a));
}
