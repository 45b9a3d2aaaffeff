use gtfs_sim::service::{Date, Service};

fn mon_fri() -> Service {
    let start = Date::new(2019, 1, 1);
    let end = Date::new(2019, 12, 31);
    Service::new(start, end, [true, true, true, true, true, false, false])
}

#[test]
fn test_regularly_available() {
    let service = mon_fri();
    let date = Date::new(2019, 1, 7);
    assert!(service.regularly_available_at(date));
    assert!(service.available_at(date));
}

#[test]
fn test_regularly_unavailable() {
    let service = mon_fri();
    let date = Date::new(2019, 1, 5);
    assert!(!service.regularly_available_at(date));
    assert!(!service.available_at(date));
}

#[test]
fn test_exceptionally_available() {
    let mut service = mon_fri();
    let date = Date::new(2019, 1, 5);
    service.add_date(date);
    assert!(!service.regularly_available_at(date));
    assert!(service.available_at(date));
}

#[test]
fn test_exceptionally_unavailable() {
    let mut service = mon_fri();
    let date = Date::new(2019, 1, 7);
    service.remove_date(date);
    assert!(service.regularly_available_at(date));
    assert!(!service.available_at(date));
}

#[test]
fn test_out_of_range() {
    let service = mon_fri();
    // A Monday, but before the start of the validity range.
    assert!(!service.available_at(Date::new(2018, 12, 31)));
    // A Monday after the end of the validity range.
    assert!(!service.available_at(Date::new(2020, 1, 6)));
}

#[test]
fn test_add_date_idempotent() {
    let mut service = mon_fri();
    let date = Date::new(2019, 1, 5);
    service.add_date(date);
    service.add_date(date);
    assert!(service.available_at(date));
}

#[test]
fn test_remove_date_wins_over_regular() {
    let mut service = mon_fri();
    let date = Date::new(2019, 1, 8);
    service.remove_date(date);
    service.remove_date(date);
    assert!(!service.available_at(date));
    // Adding the same date afterwards takes precedence again.
    service.add_date(date);
    assert!(service.available_at(date));
}
