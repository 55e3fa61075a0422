use alarm_store::model::{Alarm, ModelError, Place, Time, Weekday};
use chrono::{NaiveTime, Timelike};
use std::cmp::Ordering;

const ALL_DAYS: [Weekday; 7] = [
    Weekday::Monday,
    Weekday::Tuesday,
    Weekday::Wednesday,
    Weekday::Thursday,
    Weekday::Friday,
    Weekday::Saturday,
    Weekday::Sunday,
];

fn time(h: i32, m: i32) -> Time {
    Time::new(h, m).unwrap()
}

fn alarm(place: &str, days: Vec<Weekday>, t: Time) -> Alarm {
    Alarm::new(Place::new(place.to_string()), days, t)
}

#[test]
fn weekday_codes_round_trip() {
    for (i, d) in ALL_DAYS.iter().enumerate() {
        assert_eq!(d.to_int(), i as i32);
        assert_eq!(Weekday::from_int(d.to_int()), Ok(*d));
    }
}

#[test]
fn weekday_codes_in_order() {
    assert_eq!(Weekday::Monday.to_int(), 0);
    assert_eq!(Weekday::Wednesday.to_int(), 2);
    assert_eq!(Weekday::Sunday.to_int(), 6);
    assert_eq!(Weekday::from_int(3), Ok(Weekday::Thursday));
}

#[test]
fn weekday_code_out_of_range_is_rejected() {
    assert_eq!(Weekday::from_int(7), Err(ModelError::InvalidWeekday(7)));
    assert_eq!(Weekday::from_int(-1), Err(ModelError::InvalidWeekday(-1)));
    assert_eq!(Weekday::from_int(i32::MAX), Err(ModelError::InvalidWeekday(i32::MAX)));
}

#[test]
fn time_accepts_inclusive_bounds() {
    let t = time(24, 60);
    assert_eq!((t.hour(), t.minute()), (24, 60));
    let t = time(0, 0);
    assert_eq!((t.hour(), t.minute()), (0, 0));
    let t = time(10, 10);
    assert_eq!((t.hour(), t.minute()), (10, 10));
}

#[test]
fn time_rejects_out_of_bounds() {
    assert_eq!(Time::new(25, 0), Err(ModelError::InvalidTime(25, 0)));
    assert_eq!(Time::new(0, 61), Err(ModelError::InvalidTime(0, 61)));
    assert_eq!(Time::new(-1, 0), Err(ModelError::InvalidTime(-1, 0)));
    assert_eq!(Time::new(3, -5), Err(ModelError::InvalidTime(3, -5)));
}

#[test]
fn time_orders_by_hour_then_minute() {
    assert_eq!(time(13, 20).partial_cmp(&time(12, 20)), Some(Ordering::Greater));
    assert_eq!(time(12, 5).partial_cmp(&time(12, 20)), Some(Ordering::Less));
    assert_eq!(time(12, 20).partial_cmp(&time(12, 20)), Some(Ordering::Equal));
    assert!(time(9, 59) < time(10, 0));
}

#[test]
fn time_round_trips_through_stored_form() {
    for h in 0..24 {
        for m in 0..60 {
            let t = time(h, m);
            let stored = t.to_naive_time().unwrap();
            assert_eq!(stored.second(), 0);
            assert_eq!(stored.num_seconds_from_midnight(), (h * 3600 + m * 60) as u32);
            assert_eq!(Time::from_naive_time(&stored), t);
        }
    }
}

#[test]
fn time_without_clock_form() {
    assert!(time(24, 0).to_naive_time().is_none());
    assert!(time(10, 60).to_naive_time().is_none());
}

#[test]
fn time_from_clock_drops_seconds() {
    let stored = NaiveTime::from_hms_opt(13, 45, 30).unwrap();
    assert_eq!(Time::from_naive_time(&stored), time(13, 45));
    let stored = NaiveTime::from_hms_opt(23, 59, 59).unwrap();
    assert_eq!(Time::from_naive_time(&stored), time(23, 59));
}

#[test]
fn place_equality_is_by_name() {
    assert!(Place::new("home".to_string()) == Place::new("home".to_string()));
    assert!(Place::new("home".to_string()) != Place::new("work".to_string()));
    assert_eq!(Place::new(String::new()).name(), "");
}

#[test]
fn alarm_keeps_its_parts() {
    let a = alarm("home", vec![Weekday::Monday, Weekday::Monday], time(7, 30));
    assert_eq!(a.place().name(), "home");
    assert_eq!(a.weekdays(), &vec![Weekday::Monday, Weekday::Monday]);
    assert_eq!(*a.time(), time(7, 30));
}

#[test]
fn alarm_equality_is_structural() {
    let a = alarm("home", vec![Weekday::Monday, Weekday::Wednesday], time(10, 10));
    assert!(a == alarm("home", vec![Weekday::Monday, Weekday::Wednesday], time(10, 10)));
    assert!(a != alarm("home", vec![Weekday::Wednesday, Weekday::Monday], time(10, 10)));
    assert!(a != alarm("work", vec![Weekday::Monday, Weekday::Wednesday], time(10, 10)));
    assert!(a != alarm("home", vec![Weekday::Monday, Weekday::Wednesday], time(10, 11)));
}

#[test]
fn subset_of_wider_alarm() {
    let small = alarm("home", vec![Weekday::Monday], time(10, 10));
    let big = alarm("home", vec![Weekday::Monday, Weekday::Wednesday], time(10, 10));
    assert!(small.subset(&big));
    assert!(!big.subset(&small));
    assert!(big.subset(&big));
}

#[test]
fn subset_is_vacuous_across_places_and_times() {
    let a = alarm("home", vec![Weekday::Monday, Weekday::Friday], time(10, 10));
    let b = alarm("work", vec![Weekday::Tuesday], time(10, 10));
    assert!(a.subset(&b));
    assert!(b.subset(&a));
    let c = alarm("home", vec![Weekday::Tuesday], time(11, 0));
    assert!(a.subset(&c));
    assert!(c.subset(&a));
}

#[test]
fn subset_with_empty_days() {
    let empty = alarm("home", vec![], time(8, 0));
    let other = alarm("home", vec![Weekday::Sunday], time(8, 0));
    assert!(empty.subset(&other));
    assert!(!other.subset(&empty));
}
