use chrono::NaiveTime;
use chrono::Timelike;
use vstd::prelude::*;

verus! {

/// Errors raised by the fallible domain constructors.
#[derive(Debug, Clone, Copy, PartialEq, Eq, Structural)]
pub enum ModelError {
    /// The integer does not encode a weekday (it lies outside 0..=6).
    InvalidWeekday(i32),
    /// The hour or the minute lies outside the accepted bounds.
    InvalidTime(i32, i32),
}

/// The seven days of the week, each bound to a fixed integer code.
#[derive(Debug, Clone, Copy, PartialEq, Eq, Structural)]
pub enum Weekday {
    Monday,
    Tuesday,
    Wednesday,
    Thursday,
    Friday,
    Saturday,
    Sunday,
}

/// The integer code of a weekday: Monday is 0, Sunday is 6.
pub open spec fn code_of(d: Weekday) -> int {
    match d {
        Weekday::Monday => 0,
        Weekday::Tuesday => 1,
        Weekday::Wednesday => 2,
        Weekday::Thursday => 3,
        Weekday::Friday => 4,
        Weekday::Saturday => 5,
        Weekday::Sunday => 6,
    }
}

/// The weekday that a code stands for, if any.
pub open spec fn day_of(n: int) -> Option<Weekday> {
    if n == 0 {
        Some(Weekday::Monday)
    } else if n == 1 {
        Some(Weekday::Tuesday)
    } else if n == 2 {
        Some(Weekday::Wednesday)
    } else if n == 3 {
        Some(Weekday::Thursday)
    } else if n == 4 {
        Some(Weekday::Friday)
    } else if n == 5 {
        Some(Weekday::Saturday)
    } else if n == 6 {
        Some(Weekday::Sunday)
    } else {
        None
    }
}

impl Weekday {
    /// The integer code of this day.
    pub fn to_int(&self) -> (r: i32)
        ensures
            r == code_of(*self),
            0 <= r <= 6,
    {
        match self {
            Weekday::Monday => 0,
            Weekday::Tuesday => 1,
            Weekday::Wednesday => 2,
            Weekday::Thursday => 3,
            Weekday::Friday => 4,
            Weekday::Saturday => 5,
            Weekday::Sunday => 6,
        }
    }

    /// Decodes a weekday code; codes outside 0..=6 are rejected.
    pub fn from_int(value: i32) -> (r: Result<Weekday, ModelError>)
        ensures
            0 <= value <= 6 ==> r == Ok::<Weekday, ModelError>(day_of(value as int).unwrap()),
            !(0 <= value <= 6) ==> r == Err::<Weekday, ModelError>(ModelError::InvalidWeekday(value)),
    {
        match value {
            0 => Ok(Weekday::Monday),
            1 => Ok(Weekday::Tuesday),
            2 => Ok(Weekday::Wednesday),
            3 => Ok(Weekday::Thursday),
            4 => Ok(Weekday::Friday),
            5 => Ok(Weekday::Saturday),
            6 => Ok(Weekday::Sunday),
            _ => Err(ModelError::InvalidWeekday(value)),
        }
    }
}

/// Decoding the code of a day gives the day back.
pub proof fn lemma_weekday_code_round_trip(d: Weekday)
    ensures
        0 <= code_of(d) <= 6,
        day_of(code_of(d)) == Some(d),
{
}

/// Every code in 0..=6 names exactly one day, and that day's code is the code itself.
pub proof fn lemma_weekday_code_bijective(n: int)
    ensures
        (0 <= n <= 6) <==> day_of(n).is_some(),
        day_of(n).is_some() ==> code_of(day_of(n).unwrap()) == n,
{
}

/// A named location, identified by its name alone.
#[derive(Debug)]
pub struct Place {
    name: String,
}

impl View for Place {
    type V = Seq<char>;

    closed spec fn view(&self) -> Seq<char> {
        self.name@
    }
}

impl Place {
    /// The name of the place.
    pub fn name(&self) -> (r: &String)
        ensures
            r@ == self@,
    {
        &self.name
    }

    /// A place with the given name; any name is accepted, the empty one included.
    pub fn new(name: String) -> (r: Place)
        ensures
            r@ == name@,
    {
        Place { name }
    }
}

impl PartialEq for Place {
    fn eq(&self, other: &Place) -> (r: bool)
        ensures
            r == (self@ == other@),
    {
        self.name == other.name
    }
}

impl vstd::std_specs::cmp::PartialEqSpecImpl for Place {
    open spec fn obeys_eq_spec() -> bool {
        true
    }

    open spec fn eq_spec(&self, other: &Place) -> bool {
        self@ == other@
    }
}

impl Eq for Place {
}

/// Whether an hour and a minute are within the bounds that a `Time` accepts.
/// Both upper bounds are inclusive, so 24:00 and 10:60 are accepted.
pub open spec fn valid_time(hour: int, minute: int) -> bool {
    0 <= hour <= 24 && 0 <= minute <= 60
}

/// A time of day as an hour and a minute.
#[derive(Debug, Clone, Copy, PartialEq, Eq, Structural)]
pub struct Time {
    hour: i32,
    minute: i32,
}

impl View for Time {
    type V = (int, int);

    closed spec fn view(&self) -> (int, int) {
        (self.hour as int, self.minute as int)
    }
}

/// Lexicographic order on (hour, minute).
pub open spec fn time_order(a: (int, int), b: (int, int)) -> core::cmp::Ordering {
    if a.0 < b.0 {
        core::cmp::Ordering::Less
    } else if a.0 > b.0 {
        core::cmp::Ordering::Greater
    } else if a.1 < b.1 {
        core::cmp::Ordering::Less
    } else if a.1 > b.1 {
        core::cmp::Ordering::Greater
    } else {
        core::cmp::Ordering::Equal
    }
}

impl Time {
    #[verifier::type_invariant]
    spec fn inv(&self) -> bool {
        valid_time(self.hour as int, self.minute as int)
    }

    /// The hour of this time.
    pub fn hour(&self) -> (r: i32)
        ensures
            r == self@.0,
            0 <= r <= 24,
    {
        proof {
            use_type_invariant(self);
        }
        self.hour
    }

    /// The minute of this time.
    pub fn minute(&self) -> (r: i32)
        ensures
            r == self@.1,
            0 <= r <= 60,
    {
        proof {
            use_type_invariant(self);
        }
        self.minute
    }

    /// Builds a time, or fails with `InvalidTime` when an hour or a minute is out of bounds.
    pub fn new(hour: i32, minute: i32) -> (r: Result<Time, ModelError>)
        ensures
            valid_time(hour as int, minute as int) <==> r is Ok,
            r matches Ok(t) ==> t@ == (hour as int, minute as int),
            r is Err ==> r == Err::<Time, ModelError>(ModelError::InvalidTime(hour, minute)),
    {
        if 0 <= hour && hour <= 24 && 0 <= minute && minute <= 60 {
            Ok(Time { hour, minute })
        } else {
            Err(ModelError::InvalidTime(hour, minute))
        }
    }

    /// The stored form of this time: a clock time with zero seconds.
    /// A clock time has no 24th hour and no 60th minute, so such times have none.
    pub fn to_naive_time(&self) -> (r: Option<NaiveTime>)
        ensures
            r is Some <==> (self@.0 < 24 && self@.1 < 60),
            r matches Some(t) ==> clock_seconds(t) == self@.0 * 3600 + self@.1 * 60,
    {
        proof {
            use_type_invariant(self);
        }
        naive_time_from_hms(self.hour as u32, self.minute as u32, 0)
    }

    /// The time of a stored clock time, its seconds dropped.
    pub fn from_naive_time(t: &NaiveTime) -> (r: Time)
        ensures
            r@ == (clock_seconds(*t) as int / 3600, (clock_seconds(*t) as int / 60) % 60),
    {
        let hour = naive_time_hour(t);
        let minute = naive_time_minute(t);
        Time { hour: hour as i32, minute: minute as i32 }
    }
}

/// A valid time read back from its stored form is the same time, for every time
/// that a clock time can hold (hour below 24, minute below 60).
pub proof fn lemma_time_storage_round_trip(hour: int, minute: int, stored: NaiveTime)
    requires
        0 <= hour < 24,
        0 <= minute < 60,
        clock_seconds(stored) == hour * 3600 + minute * 60,
    ensures
        valid_time(hour, minute),
        clock_seconds(stored) as int / 3600 == hour,
        (clock_seconds(stored) as int / 60) % 60 == minute,
{
    assert((hour * 3600 + minute * 60) / 3600 == hour) by (nonlinear_arith)
        requires 0 <= hour < 24, 0 <= minute < 60;
    assert((hour * 3600 + minute * 60) / 60 == hour * 60 + minute) by (nonlinear_arith)
        requires 0 <= hour < 24, 0 <= minute < 60;
    assert((hour * 60 + minute) % 60 == minute) by (nonlinear_arith)
        requires 0 <= hour < 24, 0 <= minute < 60;
}

impl PartialOrd for Time {
    fn partial_cmp(&self, other: &Time) -> (r: Option<core::cmp::Ordering>)
        ensures
            r == Some(time_order(self@, other@)),
    {
        if self.hour == other.hour {
            if self.minute < other.minute {
                Some(core::cmp::Ordering::Less)
            } else if self.minute > other.minute {
                Some(core::cmp::Ordering::Greater)
            } else {
                Some(core::cmp::Ordering::Equal)
            }
        } else if self.hour < other.hour {
            Some(core::cmp::Ordering::Less)
        } else {
            Some(core::cmp::Ordering::Greater)
        }
    }
}

impl vstd::std_specs::cmp::PartialOrdSpecImpl for Time {
    open spec fn obeys_partial_cmp_spec() -> bool {
        true
    }

    open spec fn partial_cmp_spec(&self, other: &Time) -> Option<core::cmp::Ordering> {
        Some(time_order(self@, other@))
    }
}

#[verifier::external_type_specification]
#[verifier::external_body]
pub struct ExNaiveTime(NaiveTime);

/// The number of seconds past midnight that a chrono clock time holds.
pub uninterp spec fn clock_seconds(t: NaiveTime) -> nat;

/// Relies on chrono's `NaiveTime::from_hms_opt`: `None` unless hour < 24, minute < 60
/// and second < 60; otherwise a time holding hour * 3600 + minute * 60 + second seconds.
#[verifier::external_body]
fn naive_time_from_hms(hour: u32, minute: u32, second: u32) -> (r: Option<NaiveTime>)
    ensures
        r is Some <==> (hour < 24 && minute < 60 && second < 60),
        r matches Some(t) ==> clock_seconds(t) == hour * 3600 + minute * 60 + second,
{
    NaiveTime::from_hms_opt(hour, minute, second)
}

/// Relies on chrono's `Timelike::hour` for `NaiveTime`: the seconds past midnight
/// divided by 3600, from 0 to 23.
#[verifier::external_body]
fn naive_time_hour(t: &NaiveTime) -> (r: u32)
    ensures
        r == clock_seconds(*t) / 3600,
        r < 24,
{
    t.hour()
}

/// Relies on chrono's `Timelike::minute` for `NaiveTime`: the whole minutes past
/// midnight modulo 60.
#[verifier::external_body]
fn naive_time_minute(t: &NaiveTime) -> (r: u32)
    ensures
        r == (clock_seconds(*t) / 60) % 60,
{
    t.minute()
}

/// What an alarm holds: the place's name, the weekdays in order, and the time.
pub struct AlarmView {
    pub place: Seq<char>,
    pub weekdays: Seq<Weekday>,
    pub time: Time,
}

/// An alarm at a place, on some weekdays, at a time of day.
#[derive(Debug)]
pub struct Alarm {
    place: Place,
    weekdays: Vec<Weekday>,
    time: Time,
}

impl View for Alarm {
    type V = AlarmView;

    closed spec fn view(&self) -> AlarmView {
        AlarmView { place: self.place@, weekdays: self.weekdays@, time: self.time }
    }
}

/// Whether `a` is contained in `b`: when place and time agree, every weekday of `a`
/// is a weekday of `b`; when they differ, the relation holds vacuously.
pub open spec fn alarm_subset(a: AlarmView, b: AlarmView) -> bool {
    (a.place == b.place && a.time == b.time) ==> forall|i: int|
        0 <= i < a.weekdays.len() ==> #[trigger] b.weekdays.contains(a.weekdays[i])
}

impl Alarm {
    /// An alarm from its parts; the weekdays are kept as given, duplicates included.
    pub fn new(place: Place, days: Vec<Weekday>, time: Time) -> (r: Alarm)
        ensures
            r@ == (AlarmView { place: place@, weekdays: days@, time }),
    {
        Alarm { place, weekdays: days, time }
    }

    /// The place of the alarm.
    pub fn place(&self) -> (r: &Place)
        ensures
            r@ == self@.place,
    {
        &self.place
    }

    /// The weekdays of the alarm, in the order given.
    pub fn weekdays(&self) -> (r: &Vec<Weekday>)
        ensures
            r@ == self@.weekdays,
    {
        &self.weekdays
    }

    /// The time of the alarm.
    pub fn time(&self) -> (r: &Time)
        ensures
            *r == self@.time,
    {
        &self.time
    }

    /// Whether this alarm is contained in `other` (see `alarm_subset`).
    pub fn subset(&self, other: &Alarm) -> (r: bool)
        ensures
            r == alarm_subset(self@, other@),
    {
        if other.place.eq(&self.place) && self.time == other.time {
            let mut i: usize = 0;
            while i < self.weekdays.len()
                invariant
                    self@.place == other@.place,
                    self@.time == other@.time,
                    0 <= i <= self.weekdays@.len(),
                    forall|j: int| 0 <= j < i ==> #[trigger] other.weekdays@.contains(self.weekdays@[j]),
                decreases self.weekdays@.len() - i,
            {
                if !contains_day(&other.weekdays, self.weekdays[i]) {
                    assert(!other@.weekdays.contains(self@.weekdays[i as int]));
                    return false;
                }
                i = i + 1;
            }
        }
        true
    }
}

/// Whether `day` occurs in `days`.
pub fn contains_day(days: &Vec<Weekday>, day: Weekday) -> (r: bool)
    ensures
        r == days@.contains(day),
{
    let mut i: usize = 0;
    while i < days.len()
        invariant
            0 <= i <= days@.len(),
            forall|j: int| 0 <= j < i ==> days@[j] != day,
        decreases days@.len() - i,
    {
        if days[i] == day {
            return true;
        }
        i = i + 1;
    }
    false
}

/// Whether two weekday lists hold the same days in the same order.
fn same_days(a: &Vec<Weekday>, b: &Vec<Weekday>) -> (r: bool)
    ensures
        r == (a@ == b@),
{
    if a.len() != b.len() {
        return false;
    }
    let mut i: usize = 0;
    while i < a.len()
        invariant
            a@.len() == b@.len(),
            0 <= i <= a@.len(),
            forall|j: int| 0 <= j < i ==> a@[j] == b@[j],
        decreases a@.len() - i,
    {
        if a[i] != b[i] {
            return false;
        }
        i = i + 1;
    }
    assert(a@ =~= b@);
    true
}

impl PartialEq for Alarm {
    fn eq(&self, other: &Alarm) -> (r: bool)
        ensures
            r == (self@ == other@),
    {
        self.place.eq(&other.place) && self.time == other.time && same_days(&self.weekdays, &other.weekdays)
    }
}

impl vstd::std_specs::cmp::PartialEqSpecImpl for Alarm {
    open spec fn obeys_eq_spec() -> bool {
        true
    }

    open spec fn eq_spec(&self, other: &Alarm) -> bool {
        self@ == other@
    }
}

impl Eq for Alarm {
}

/// A one-day alarm is contained in an alarm with the same place and time that
/// also rings on that day.
pub proof fn lemma_subset_of_wider(place: Seq<char>, time: Time, day: Weekday, more: Seq<Weekday>)
    requires
        more.contains(day),
    ensures
        alarm_subset(
            AlarmView { place, weekdays: seq![day], time },
            AlarmView { place, weekdays: more, time },
        ),
{
}

/// Alarms at different places are always contained in each other.
pub proof fn lemma_subset_other_place(a: AlarmView, b: AlarmView)
    requires
        a.place != b.place,
    ensures
        alarm_subset(a, b),
        alarm_subset(b, a),
{
}

} // verus!
