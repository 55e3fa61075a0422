use crate::model::{
    code_of, day_of, Alarm, AlarmView, ModelError, Place, Time, Weekday,
};
use vstd::prelude::*;

verus! {

/// The four tables of the normalized schema.
#[derive(Debug, Clone, Copy, PartialEq, Eq, Structural)]
pub enum Table {
    /// `places(name)`, keyed by name.
    Places,
    /// `weekdays(code)`, seeded with the seven codes.
    Weekdays,
    /// `alarms(id, time, place_name)`, unique on (time, place_name); removing a
    /// place removes its alarms.
    Alarms,
    /// `weekdays_alarms(weekday_code, alarm_id)`; removing an alarm removes its rows.
    WeekdaysAlarms,
}

/// One statement for the store to run, with its parameters.
#[derive(Debug)]
pub enum Command {
    /// Drop the table if it exists, with everything that depends on it.
    DropTable(Table),
    /// Create the table if it does not exist.
    CreateTable(Table),
    /// Insert a weekday code into the weekday table.
    SeedWeekday(i32),
    /// Insert a place by name.
    InsertPlace(String),
    /// Insert an alarm row for (time, place name).
    InsertAlarm(Time, String),
    /// Link a weekday code to the alarm found by (time, place name).
    LinkWeekday(i32, Time, String),
    /// Delete the place with this name.
    DeletePlace(String),
    /// Delete the alarm found by (time, place name).
    DeleteAlarm(Time, String),
}

/// A command with its strings seen as character sequences.
pub enum CommandView {
    DropTable(Table),
    CreateTable(Table),
    SeedWeekday(int),
    InsertPlace(Seq<char>),
    InsertAlarm(Time, Seq<char>),
    LinkWeekday(int, Time, Seq<char>),
    DeletePlace(Seq<char>),
    DeleteAlarm(Time, Seq<char>),
}

impl View for Command {
    type V = CommandView;

    open spec fn view(&self) -> CommandView {
        match self {
            Command::DropTable(t) => CommandView::DropTable(*t),
            Command::CreateTable(t) => CommandView::CreateTable(*t),
            Command::SeedWeekday(c) => CommandView::SeedWeekday(*c as int),
            Command::InsertPlace(n) => CommandView::InsertPlace(n@),
            Command::InsertAlarm(t, n) => CommandView::InsertAlarm(*t, n@),
            Command::LinkWeekday(c, t, n) => CommandView::LinkWeekday(*c as int, *t, n@),
            Command::DeletePlace(n) => CommandView::DeletePlace(n@),
            Command::DeleteAlarm(t, n) => CommandView::DeleteAlarm(*t, n@),
        }
    }
}

/// The views of a list of commands.
pub open spec fn command_views(cs: Seq<Command>) -> Seq<CommandView> {
    cs.map_values(|c: Command| c@)
}

/// Errors of the store operations.
#[derive(Debug, Clone, Copy, PartialEq, Eq, Structural)]
pub enum StoreError {
    /// The place or alarm to remove is not in the store.
    NotFound,
    /// An alarm with the same time and place is already stored.
    DuplicateAlarm,
    /// The store failed to run a statement.
    Engine,
}

/// How a statement failed in the store.
#[derive(Debug, Clone, Copy, PartialEq, Eq, Structural)]
pub enum Fault {
    /// A primary-key or uniqueness constraint was violated.
    UniqueViolation,
    /// Any other failure.
    Other,
}

/// Creating the schema, after dropping it first when `reset` holds, and seeding the
/// weekday table with the codes 0 to 6.
pub open spec fn init_plan(reset: bool) -> Seq<CommandView> {
    let drops = if reset {
        seq![
            CommandView::DropTable(Table::Places),
            CommandView::DropTable(Table::Weekdays),
            CommandView::DropTable(Table::Alarms),
            CommandView::DropTable(Table::WeekdaysAlarms),
        ]
    } else {
        Seq::empty()
    };
    drops + seq![
        CommandView::CreateTable(Table::Places),
        CommandView::CreateTable(Table::Weekdays),
        CommandView::CreateTable(Table::Alarms),
        CommandView::CreateTable(Table::WeekdaysAlarms),
    ] + Seq::new(7, |i: int| CommandView::SeedWeekday(i))
}

/// The commands that initialize the store.
pub fn init_commands(reset: bool) -> (r: Vec<Command>)
    ensures
        command_views(r@) == init_plan(reset),
{
    let mut r: Vec<Command> = Vec::new();
    if reset {
        r.push(Command::DropTable(Table::Places));
        r.push(Command::DropTable(Table::Weekdays));
        r.push(Command::DropTable(Table::Alarms));
        r.push(Command::DropTable(Table::WeekdaysAlarms));
    }
    r.push(Command::CreateTable(Table::Places));
    r.push(Command::CreateTable(Table::Weekdays));
    r.push(Command::CreateTable(Table::Alarms));
    r.push(Command::CreateTable(Table::WeekdaysAlarms));
    let ghost head = command_views(r@);
    assert(head + Seq::new(0, |i: int| CommandView::SeedWeekday(i)) =~= head);
    let mut code: i32 = 0;
    while code < 7
        invariant
            0 <= code <= 7,
            head + Seq::new(7, |i: int| CommandView::SeedWeekday(i)) == init_plan(reset),
            command_views(r@) == head + Seq::new(code as nat, |i: int| CommandView::SeedWeekday(i)),
        decreases 7 - code,
    {
        let ghost prev = r@;
        r.push(Command::SeedWeekday(code));
        assert(command_views(r@) =~= command_views(prev).push(CommandView::SeedWeekday(code as int)));
        assert(command_views(r@) =~= head + Seq::new((code + 1) as nat, |i: int| CommandView::SeedWeekday(i)));
        code = code + 1;
    }
    r
}

/// The names of a list of places.
pub open spec fn place_names(places: Seq<Place>) -> Seq<Seq<char>> {
    places.map_values(|p: Place| p@)
}

/// The views of a list of alarms.
pub open spec fn alarm_views(alarms: Seq<Alarm>) -> Seq<AlarmView> {
    alarms.map_values(|a: Alarm| a@)
}

/// Whether a place with the name of `place` is among `places`.
pub fn contains_place(places: &Vec<Place>, place: &Place) -> (r: bool)
    ensures
        r == place_names(places@).contains(place@),
{
    let mut i: usize = 0;
    while i < places.len()
        invariant
            0 <= i <= places@.len(),
            forall|j: int| 0 <= j < i ==> places@[j]@ != place@,
        decreases places@.len() - i,
    {
        if places[i].eq(place) {
            assert(place_names(places@)[i as int] == place@);
            return true;
        }
        i = i + 1;
    }
    assert(!place_names(places@).contains(place@)) by {
        if place_names(places@).contains(place@) {
            let k = choose|k: int| 0 <= k < place_names(places@).len() && place_names(places@)[k] == place@;
            assert(places@[k]@ == place@);
        }
    }
    false
}

/// Whether an alarm equal to `alarm` is among `alarms`.
pub fn contains_alarm(alarms: &Vec<Alarm>, alarm: &Alarm) -> (r: bool)
    ensures
        r == alarm_views(alarms@).contains(alarm@),
{
    let mut i: usize = 0;
    while i < alarms.len()
        invariant
            0 <= i <= alarms@.len(),
            forall|j: int| 0 <= j < i ==> alarms@[j]@ != alarm@,
        decreases alarms@.len() - i,
    {
        if alarms[i].eq(alarm) {
            assert(alarm_views(alarms@)[i as int] == alarm@);
            return true;
        }
        i = i + 1;
    }
    assert(!alarm_views(alarms@).contains(alarm@)) by {
        if alarm_views(alarms@).contains(alarm@) {
            let k = choose|k: int| 0 <= k < alarm_views(alarms@).len() && alarm_views(alarms@)[k] == alarm@;
            assert(alarms@[k]@ == alarm@);
        }
    }
    false
}

/// The join rows of an alarm: one link per weekday, in the alarm's order, each
/// resolving the alarm by its time and place.
pub open spec fn link_plan(a: AlarmView) -> Seq<CommandView> {
    a.weekdays.map_values(|d: Weekday| CommandView::LinkWeekday(code_of(d), a.time, a.place))
}

/// Storing an alarm when the store holds places named `known`: the place first,
/// unless it is already there, then the alarm row, then its weekday links.
pub open spec fn add_alarm_plan(known: Seq<Seq<char>>, a: AlarmView) -> Seq<CommandView> {
    let place = if known.contains(a.place) {
        Seq::empty()
    } else {
        seq![CommandView::InsertPlace(a.place)]
    };
    place + seq![CommandView::InsertAlarm(a.time, a.place)] + link_plan(a)
}

/// The commands that store a place.
pub fn add_place_commands(place: &Place) -> (r: Vec<Command>)
    ensures
        command_views(r@) == seq![CommandView::InsertPlace(place@)],
{
    let r = vec![Command::InsertPlace(place.name().clone())];
    assert(command_views(r@) =~= seq![CommandView::InsertPlace(place@)]);
    r
}

/// The commands that store `alarm`, given the places already in the store.
pub fn add_alarm_commands(known: &Vec<Place>, alarm: &Alarm) -> (r: Vec<Command>)
    ensures
        command_views(r@) == add_alarm_plan(place_names(known@), alarm@),
{
    let place = alarm.place();
    let time = *alarm.time();
    let days = alarm.weekdays();
    let mut r: Vec<Command> = Vec::new();
    if !contains_place(known, place) {
        r.push(Command::InsertPlace(place.name().clone()));
    }
    r.push(Command::InsertAlarm(time, place.name().clone()));
    let ghost head = command_views(r@);
    assert(head + link_plan(alarm@).take(0) =~= head);
    let mut i: usize = 0;
    while i < days.len()
        invariant
            0 <= i <= days@.len(),
            days@ == alarm@.weekdays,
            time == alarm@.time,
            place@ == alarm@.place,
            head + link_plan(alarm@) == add_alarm_plan(place_names(known@), alarm@),
            command_views(r@) == head + link_plan(alarm@).take(i as int),
        decreases days@.len() - i,
    {
        let ghost prev = r@;
        let code = days[i].to_int();
        r.push(Command::LinkWeekday(code, time, place.name().clone()));
        assert(command_views(r@) =~= command_views(prev).push(link_plan(alarm@)[i as int]));
        assert(command_views(r@) =~= head + link_plan(alarm@).take(i + 1));
        i = i + 1;
    }
    assert(link_plan(alarm@).take(i as int) =~= link_plan(alarm@));
    r
}

/// Removing a place: `NotFound` when no stored place has its name, otherwise one
/// delete, which takes the place's alarms and their weekday links with it.
pub fn remove_place_commands(known: &Vec<Place>, place: &Place) -> (r: Result<Vec<Command>, StoreError>)
    ensures
        r is Ok <==> place_names(known@).contains(place@),
        r matches Ok(cs) ==> command_views(cs@) == seq![CommandView::DeletePlace(place@)],
        r matches Err(e) ==> e == StoreError::NotFound,
{
    if !contains_place(known, place) {
        Err(StoreError::NotFound)
    } else {
        let r = vec![Command::DeletePlace(place.name().clone())];
        assert(command_views(r@) =~= seq![CommandView::DeletePlace(place@)]);
        Ok(r)
    }
}

/// Removing an alarm: `NotFound` when no stored alarm equals it, otherwise one
/// delete by (time, place), which takes its weekday links with it.
pub fn remove_alarm_commands(known: &Vec<Alarm>, alarm: &Alarm) -> (r: Result<Vec<Command>, StoreError>)
    ensures
        r is Ok <==> alarm_views(known@).contains(alarm@),
        r matches Ok(cs) ==> command_views(cs@) == seq![CommandView::DeleteAlarm(alarm@.time, alarm@.place)],
        r matches Err(e) ==> e == StoreError::NotFound,
{
    if !contains_alarm(known, alarm) {
        Err(StoreError::NotFound)
    } else {
        let r = vec![Command::DeleteAlarm(*alarm.time(), alarm.place().name().clone())];
        assert(command_views(r@) =~= seq![CommandView::DeleteAlarm(alarm@.time, alarm@.place)]);
        Ok(r)
    }
}

/// What a failed command means: a weekday code seeded again is tolerated, an alarm
/// inserted again is a duplicate, anything else is a store failure.
pub open spec fn failure_outcome(c: CommandView, fault: Fault) -> Result<(), StoreError> {
    match (c, fault) {
        (CommandView::SeedWeekday(_), Fault::UniqueViolation) => Ok(()),
        (CommandView::InsertAlarm(_, _), Fault::UniqueViolation) => Err(StoreError::DuplicateAlarm),
        _ => Err(StoreError::Engine),
    }
}

/// Decides what a failure of `command` means for the operation that ran it.
pub fn resolve_failure(command: &Command, fault: Fault) -> (r: Result<(), StoreError>)
    ensures
        r == failure_outcome(command@, fault),
{
    match (command, fault) {
        (Command::SeedWeekday(_), Fault::UniqueViolation) => Ok(()),
        (Command::InsertAlarm(_, _), Fault::UniqueViolation) => Err(StoreError::DuplicateAlarm),
        _ => Err(StoreError::Engine),
    }
}

/// Whether every code of `codes` is a weekday code.
pub open spec fn all_codes_valid(codes: Seq<i32>) -> bool {
    forall|i: int| 0 <= i < codes.len() ==> 0 <= #[trigger] codes[i] <= 6
}

/// The weekdays that valid codes stand for, in order.
pub open spec fn days_of_codes(codes: Seq<i32>) -> Seq<Weekday> {
    codes.map_values(|c: i32| day_of(c as int).unwrap())
}

/// Rebuilds a stored alarm from its place name, its time and the codes of its
/// weekday links. Fails with `InvalidWeekday` on the first code outside 0..=6.
pub fn alarm_from_row(place_name: String, time: Time, codes: &Vec<i32>) -> (r: Result<Alarm, ModelError>)
    ensures
        r is Ok <==> all_codes_valid(codes@),
        r matches Ok(a) ==> a@ == (AlarmView { place: place_name@, weekdays: days_of_codes(codes@), time }),
        r matches Err(e) ==> exists|i: int|
            0 <= i < codes@.len() && !(0 <= codes@[i] <= 6) && all_codes_valid(codes@.take(i))
                && e == ModelError::InvalidWeekday(codes@[i]),
{
    let mut days: Vec<Weekday> = Vec::new();
    let mut i: usize = 0;
    while i < codes.len()
        invariant
            0 <= i <= codes@.len(),
            all_codes_valid(codes@.take(i as int)),
            days@ == days_of_codes(codes@.take(i as int)),
        decreases codes@.len() - i,
    {
        match Weekday::from_int(codes[i]) {
            Ok(d) => {
                days.push(d);
                assert(codes@.take(i + 1) =~= codes@.take(i as int).push(codes@[i as int]));
                assert(days@ =~= days_of_codes(codes@.take(i + 1)));
            },
            Err(e) => {
                return Err(e);
            },
        }
        i = i + 1;
    }
    assert(codes@.take(i as int) =~= codes@);
    Ok(Alarm::new(Place::new(place_name), days, time))
}

} // verus!
