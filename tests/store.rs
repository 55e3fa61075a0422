use alarm_store::model::{Alarm, ModelError, Place, Time, Weekday};
use alarm_store::store::{
    add_alarm_commands, add_place_commands, alarm_from_row, contains_alarm, contains_place,
    init_commands, remove_alarm_commands, remove_place_commands, resolve_failure, Command, Fault,
    StoreError, Table,
};

fn home() -> Place {
    Place::new("home".to_string())
}

fn home_alarm() -> Alarm {
    Alarm::new(home(), vec![Weekday::Monday, Weekday::Wednesday], Time::new(10, 10).unwrap())
}

fn ten_ten() -> Time {
    Time::new(10, 10).unwrap()
}

#[test]
fn init_without_reset_creates_and_seeds() {
    let cs = init_commands(false);
    assert_eq!(cs.len(), 11);
    assert!(matches!(cs[0], Command::CreateTable(Table::Places)));
    assert!(matches!(cs[1], Command::CreateTable(Table::Weekdays)));
    assert!(matches!(cs[2], Command::CreateTable(Table::Alarms)));
    assert!(matches!(cs[3], Command::CreateTable(Table::WeekdaysAlarms)));
    for code in 0..7 {
        assert!(matches!(cs[4 + code], Command::SeedWeekday(c) if c == code as i32));
    }
}

#[test]
fn init_with_reset_drops_first() {
    let cs = init_commands(true);
    assert_eq!(cs.len(), 15);
    assert!(matches!(cs[0], Command::DropTable(Table::Places)));
    assert!(matches!(cs[1], Command::DropTable(Table::Weekdays)));
    assert!(matches!(cs[2], Command::DropTable(Table::Alarms)));
    assert!(matches!(cs[3], Command::DropTable(Table::WeekdaysAlarms)));
    assert!(matches!(cs[4], Command::CreateTable(Table::Places)));
    assert!(matches!(cs[14], Command::SeedWeekday(6)));
}

#[test]
fn seeding_again_is_tolerated() {
    assert_eq!(resolve_failure(&Command::SeedWeekday(3), Fault::UniqueViolation), Ok(()));
    assert_eq!(resolve_failure(&Command::SeedWeekday(3), Fault::Other), Err(StoreError::Engine));
}

#[test]
fn add_alarm_to_empty_store() {
    let cs = add_alarm_commands(&vec![], &home_alarm());
    assert_eq!(cs.len(), 4);
    assert!(matches!(&cs[0], Command::InsertPlace(n) if n == "home"));
    assert!(matches!(&cs[1], Command::InsertAlarm(t, n) if *t == ten_ten() && n == "home"));
    assert!(matches!(&cs[2], Command::LinkWeekday(0, t, n) if *t == ten_ten() && n == "home"));
    assert!(matches!(&cs[3], Command::LinkWeekday(2, t, n) if *t == ten_ten() && n == "home"));
}

#[test]
fn add_alarm_then_read_back() {
    let a = home_alarm();
    let cs = add_alarm_commands(&vec![], &a);
    let mut codes = vec![];
    for c in &cs {
        if let Command::LinkWeekday(code, _, _) = c {
            codes.push(*code);
        }
    }
    let read = alarm_from_row("home".to_string(), ten_ten(), &codes).unwrap();
    assert!(read == a);
    let places = vec![Place::new("home".to_string())];
    assert!(contains_place(&places, &home()));
    assert_eq!(places.len(), 1);
}

#[test]
fn add_same_alarm_twice_is_duplicate() {
    let a = home_alarm();
    let cs = add_alarm_commands(&vec![home()], &a);
    assert_eq!(cs.len(), 3);
    assert!(matches!(&cs[0], Command::InsertAlarm(t, n) if *t == ten_ten() && n == "home"));
    assert_eq!(resolve_failure(&cs[0], Fault::UniqueViolation), Err(StoreError::DuplicateAlarm));
    assert_eq!(resolve_failure(&cs[0], Fault::Other), Err(StoreError::Engine));
    assert_eq!(resolve_failure(&cs[1], Fault::UniqueViolation), Err(StoreError::Engine));
}

#[test]
fn add_place_inserts_by_name() {
    let cs = add_place_commands(&Place::new("office".to_string()));
    assert_eq!(cs.len(), 1);
    assert!(matches!(&cs[0], Command::InsertPlace(n) if n == "office"));
}

#[test]
fn remove_stored_place() {
    let cs = remove_place_commands(&vec![Place::new("work".to_string()), home()], &home()).unwrap();
    assert_eq!(cs.len(), 1);
    assert!(matches!(&cs[0], Command::DeletePlace(n) if n == "home"));
}

#[test]
fn remove_missing_place_is_not_found() {
    let r = remove_place_commands(&vec![Place::new("work".to_string())], &home());
    assert!(matches!(r, Err(StoreError::NotFound)));
}

#[test]
fn remove_stored_alarm() {
    let cs = remove_alarm_commands(&vec![home_alarm()], &home_alarm()).unwrap();
    assert_eq!(cs.len(), 1);
    assert!(matches!(&cs[0], Command::DeleteAlarm(t, n) if *t == ten_ten() && n == "home"));
}

#[test]
fn remove_alarm_never_added_is_not_found() {
    assert!(matches!(remove_alarm_commands(&vec![], &home_alarm()), Err(StoreError::NotFound)));
    let other = Alarm::new(home(), vec![Weekday::Monday], ten_ten());
    assert!(!contains_alarm(&vec![home_alarm()], &other));
    assert!(matches!(remove_alarm_commands(&vec![home_alarm()], &other), Err(StoreError::NotFound)));
}

#[test]
fn row_with_bad_code_is_rejected() {
    let r = alarm_from_row("home".to_string(), ten_ten(), &vec![1, 9, -2]);
    assert!(matches!(r, Err(ModelError::InvalidWeekday(9))));
}

#[test]
fn row_without_links_has_no_days() {
    let a = alarm_from_row("home".to_string(), ten_ten(), &vec![]).unwrap();
    assert!(a.weekdays().is_empty());
    assert_eq!(a.place().name(), "home");
}
