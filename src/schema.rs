//! The rows of the normalized schema and what each command does to them: the
//! uniqueness and foreign-key rules, and the cascades on delete.

use crate::model::{code_of, AlarmView, Time, Weekday};
use crate::store::{
    add_alarm_plan, failure_outcome, init_plan, link_plan, CommandView, Fault, StoreError, Table,
};
use vstd::prelude::*;

verus! {

/// The rows held by the four tables.
pub struct StoreState {
    /// `places`: the place names.
    pub places: Set<Seq<char>>,
    /// `weekdays`: the weekday codes.
    pub weekdays: Set<int>,
    /// `alarms`: surrogate id to (time, place name).
    pub alarms: Map<int, (Time, Seq<char>)>,
    /// `weekdays_alarms`: (weekday code, alarm id).
    pub links: Set<(int, int)>,
    /// The id that the next alarm row receives.
    pub next_id: int,
}

/// Whether an alarm row with this time and place exists.
pub open spec fn has_alarm_at(s: StoreState, t: Time, place: Seq<char>) -> bool {
    exists|id: int| #[trigger] s.alarms.contains_key(id) && s.alarms[id] == (t, place)
}

/// The id of the alarm row with this time and place, when there is one.
pub open spec fn alarm_id_at(s: StoreState, t: Time, place: Seq<char>) -> int {
    choose|id: int| #[trigger] s.alarms.contains_key(id) && s.alarms[id] == (t, place)
}

/// The weekday codes linked to an alarm row.
pub open spec fn linked_codes(s: StoreState, id: int) -> Set<int> {
    Set::new(|code: int| s.links.contains((code, id)))
}

/// The referential rules of the schema, and fresh ids for new alarm rows.
pub open spec fn well_formed(s: StoreState) -> bool {
    &&& forall|id: int| #[trigger] s.alarms.contains_key(id) ==> s.places.contains(s.alarms[id].1)
    &&& forall|id: int| #[trigger] s.alarms.contains_key(id) ==> id < s.next_id
    &&& forall|i: int, j: int|
        #[trigger] s.alarms.contains_key(i) && #[trigger] s.alarms.contains_key(j) && s.alarms[i] == s.alarms[j]
            ==> i == j
    &&& forall|l: (int, int)| #[trigger] s.links.contains(l) ==> s.alarms.contains_key(l.1) && s.weekdays.contains(l.0)
}

/// The state with the rows of alarm `id` and its links removed.
pub open spec fn without_alarms(s: StoreState, gone: spec_fn(int) -> bool) -> StoreState {
    StoreState {
        alarms: s.alarms.restrict(s.alarms.dom().filter(|id: int| !gone(id))),
        links: s.links.filter(|l: (int, int)| !gone(l.1)),
        ..s
    }
}

/// What one command does to the rows, or how it fails.
pub open spec fn apply(s: StoreState, c: CommandView) -> Result<StoreState, Fault> {
    match c {
        CommandView::DropTable(t) => Ok(
            match t {
                Table::Places => StoreState { places: Set::empty(), ..s },
                Table::Weekdays => StoreState { weekdays: Set::empty(), ..s },
                Table::Alarms => StoreState { alarms: Map::empty(), ..s },
                Table::WeekdaysAlarms => StoreState { links: Set::empty(), ..s },
            },
        ),
        CommandView::CreateTable(_) => Ok(s),
        CommandView::SeedWeekday(code) => if s.weekdays.contains(code) {
            Err(Fault::UniqueViolation)
        } else {
            Ok(StoreState { weekdays: s.weekdays.insert(code), ..s })
        },
        CommandView::InsertPlace(n) => if s.places.contains(n) {
            Err(Fault::UniqueViolation)
        } else {
            Ok(StoreState { places: s.places.insert(n), ..s })
        },
        CommandView::InsertAlarm(t, n) => if !s.places.contains(n) {
            Err(Fault::Other)
        } else if has_alarm_at(s, t, n) {
            Err(Fault::UniqueViolation)
        } else {
            Ok(StoreState { alarms: s.alarms.insert(s.next_id, (t, n)), next_id: s.next_id + 1, ..s })
        },
        CommandView::LinkWeekday(code, t, n) => if !has_alarm_at(s, t, n) {
            Ok(s)
        } else if !s.weekdays.contains(code) {
            Err(Fault::Other)
        } else if s.links.contains((code, alarm_id_at(s, t, n))) {
            Err(Fault::UniqueViolation)
        } else {
            Ok(StoreState { links: s.links.insert((code, alarm_id_at(s, t, n))), ..s })
        },
        CommandView::DeletePlace(n) => Ok(
            StoreState {
                places: s.places.remove(n),
                ..without_alarms(s, |id: int| s.alarms[id].1 == n)
            },
        ),
        CommandView::DeleteAlarm(t, n) => Ok(without_alarms(s, |id: int| s.alarms[id] == (t, n))),
    }
}

/// Runs commands in order. A failure that `failure_outcome` tolerates is skipped;
/// any other stops the run with its error.
pub open spec fn run(s: StoreState, cs: Seq<CommandView>) -> (StoreState, Result<(), StoreError>)
    decreases cs.len(),
{
    if cs.len() == 0 {
        (s, Ok(()))
    } else {
        match apply(s, cs[0]) {
            Ok(next) => run(next, cs.drop_first()),
            Err(f) => match failure_outcome(cs[0], f) {
                Ok(_) => run(s, cs.drop_first()),
                Err(e) => (s, Err(e)),
            },
        }
    }
}

/// Whether `known` lists exactly the stored places.
pub open spec fn lists_places(known: Seq<Seq<char>>, s: StoreState) -> bool {
    forall|n: Seq<char>| known.contains(n) <==> #[trigger] s.places.contains(n)
}

/// Adding an alarm whose time and place are already stored fails with
/// `DuplicateAlarm` and changes no row.
pub proof fn lemma_add_duplicate_alarm(s: StoreState, known: Seq<Seq<char>>, a: AlarmView)
    requires
        well_formed(s),
        lists_places(known, s),
        has_alarm_at(s, a.time, a.place),
    ensures
        run(s, add_alarm_plan(known, a)) == (s, Err::<(), StoreError>(StoreError::DuplicateAlarm)),
{
    let id = choose|id: int| #[trigger] s.alarms.contains_key(id) && s.alarms[id] == (a.time, a.place);
    assert(s.places.contains(a.place));
    assert(known.contains(a.place));
    let plan = add_alarm_plan(known, a);
    assert(plan =~= seq![CommandView::InsertAlarm(a.time, a.place)] + link_plan(a));
    assert(plan[0] == CommandView::InsertAlarm(a.time, a.place));
}

/// Removing a stored place removes it with every alarm at it and their weekday
/// links; the other alarms stay, and the rows stay well formed.
pub proof fn lemma_remove_place_cascades(s: StoreState, place: Seq<char>)
    requires
        well_formed(s),
    ensures
        run(s, seq![CommandView::DeletePlace(place)]).1 == Ok::<(), StoreError>(()),
        ({
            let after = run(s, seq![CommandView::DeletePlace(place)]).0;
            &&& well_formed(after)
            &&& !after.places.contains(place)
            &&& forall|id: int| #[trigger] after.alarms.contains_key(id) ==> after.alarms[id].1 != place
            &&& forall|id: int|
                #[trigger] s.alarms.contains_key(id) && s.alarms[id].1 != place ==> after.alarms.contains_key(id)
                    && after.alarms[id] == s.alarms[id]
            &&& forall|l: (int, int)| #[trigger] after.links.contains(l) ==> s.alarms.contains_key(l.1)
                && s.alarms[l.1].1 != place
        }),
{
    let cs = seq![CommandView::DeletePlace(place)];
    let gone = |id: int| s.alarms[id].1 == place;
    let after = StoreState { places: s.places.remove(place), ..without_alarms(s, gone) };
    assert(apply(s, cs[0]) == Ok::<StoreState, Fault>(after));
    assert(cs.drop_first() =~= Seq::<CommandView>::empty());
    assert(run(after, cs.drop_first()) == (after, Ok::<(), StoreError>(())));
    assert(run(s, cs) == (after, Ok::<(), StoreError>(())));
    assert forall|id: int| #[trigger] after.alarms.contains_key(id) implies s.alarms.contains_key(id)
        && s.alarms[id].1 != place && after.alarms[id] == s.alarms[id] by {
    }
    assert forall|id: int| #[trigger] s.alarms.contains_key(id) && s.alarms[id].1 != place implies
        after.alarms.contains_key(id) by {
        assert(s.alarms.dom().filter(|i: int| !gone(i)).contains(id));
    }
    assert forall|l: (int, int)| #[trigger] after.links.contains(l) implies s.links.contains(l)
        && !gone(l.1) by {
    }
    assert forall|l: (int, int)| #[trigger] after.links.contains(l) implies after.alarms.contains_key(l.1)
        && after.weekdays.contains(l.0) by {
        assert(s.alarms.contains_key(l.1));
        assert(s.alarms.dom().filter(|i: int| !gone(i)).contains(l.1));
    }
}

/// Running two lists of commands one after the other, when the first succeeds.
proof fn lemma_run_append(s: StoreState, xs: Seq<CommandView>, ys: Seq<CommandView>)
    requires
        run(s, xs).1 is Ok,
    ensures
        run(s, xs + ys) == run(run(s, xs).0, ys),
    decreases xs.len(),
{
    if xs.len() > 0 {
        assert((xs + ys).drop_first() =~= xs.drop_first() + ys);
        assert((xs + ys)[0] == xs[0]);
        match apply(s, xs[0]) {
            Ok(next) => lemma_run_append(next, xs.drop_first(), ys),
            Err(f) => lemma_run_append(s, xs.drop_first(), ys),
        }
    } else {
        assert(xs + ys =~= ys);
    }
}

/// The seven weekday codes.
pub open spec fn all_codes() -> Set<int> {
    Set::new(|code: int| 0 <= code < 7)
}

/// Seeding the codes from `from` on adds them to the weekday table, whether or
/// not some were there already.
proof fn lemma_run_seeds(s: StoreState, from: int)
    requires
        0 <= from <= 7,
    ensures
        run(s, Seq::new((7 - from) as nat, |i: int| CommandView::SeedWeekday(from + i)))
            == (StoreState { weekdays: s.weekdays + Set::new(|c: int| from <= c < 7), ..s }, Ok::<(), StoreError>(())),
    decreases 7 - from,
{
    let cs = Seq::new((7 - from) as nat, |i: int| CommandView::SeedWeekday(from + i));
    if from == 7 {
        assert(s.weekdays + Set::new(|c: int| from <= c < 7) =~= s.weekdays);
    } else {
        let rest = Seq::new((7 - (from + 1)) as nat, |i: int| CommandView::SeedWeekday(from + 1 + i));
        assert(cs.drop_first() =~= rest);
        let next = StoreState { weekdays: s.weekdays.insert(from), ..s };
        if s.weekdays.contains(from) {
            lemma_run_seeds(s, from + 1);
            assert(s.weekdays + Set::new(|c: int| from + 1 <= c < 7) =~= s.weekdays + Set::new(|c: int| from <= c < 7));
        } else {
            lemma_run_seeds(next, from + 1);
            assert(next.weekdays + Set::new(|c: int| from + 1 <= c < 7) =~= s.weekdays + Set::new(|c: int| from <= c < 7));
        }
    }
}

/// Running table creations changes no row.
proof fn lemma_run_creates(s: StoreState)
    ensures
        run(s, seq![
            CommandView::CreateTable(Table::Places),
            CommandView::CreateTable(Table::Weekdays),
            CommandView::CreateTable(Table::Alarms),
            CommandView::CreateTable(Table::WeekdaysAlarms),
        ]) == (s, Ok::<(), StoreError>(())),
{
    let cs = seq![
        CommandView::CreateTable(Table::Places),
        CommandView::CreateTable(Table::Weekdays),
        CommandView::CreateTable(Table::Alarms),
        CommandView::CreateTable(Table::WeekdaysAlarms),
    ];
    assert(cs.drop_first().drop_first().drop_first().drop_first() =~= Seq::<CommandView>::empty());
    reveal_with_fuel(run, 5);
}

/// Initializing with a reset leaves empty tables and the seven weekday codes,
/// whatever was stored before.
pub proof fn lemma_init_reset(s: StoreState)
    ensures
        run(s, init_plan(true)) == (
            StoreState {
                places: Set::empty(),
                weekdays: all_codes(),
                alarms: Map::empty(),
                links: Set::empty(),
                next_id: s.next_id,
            },
            Ok::<(), StoreError>(()),
        ),
{
    let drops = seq![
        CommandView::DropTable(Table::Places),
        CommandView::DropTable(Table::Weekdays),
        CommandView::DropTable(Table::Alarms),
        CommandView::DropTable(Table::WeekdaysAlarms),
    ];
    let creates = seq![
        CommandView::CreateTable(Table::Places),
        CommandView::CreateTable(Table::Weekdays),
        CommandView::CreateTable(Table::Alarms),
        CommandView::CreateTable(Table::WeekdaysAlarms),
    ];
    let seeds = Seq::new(7, |i: int| CommandView::SeedWeekday(i));
    let empty = StoreState {
        places: Set::empty(),
        weekdays: Set::empty(),
        alarms: Map::empty(),
        links: Set::empty(),
        next_id: s.next_id,
    };
    assert(drops.drop_first().drop_first().drop_first().drop_first() =~= Seq::<CommandView>::empty());
    reveal_with_fuel(run, 5);
    assert(run(s, drops) == (empty, Ok::<(), StoreError>(())));
    lemma_run_creates(empty);
    lemma_run_seeds(empty, 0);
    assert(seeds =~= Seq::new((7 - 0) as nat, |i: int| CommandView::SeedWeekday(0 + i)));
    assert(empty.weekdays + Set::new(|c: int| 0 <= c < 7) =~= all_codes());
    lemma_run_append(s, drops, creates);
    lemma_run_append(s, drops + creates, seeds);
    assert(init_plan(true) =~= drops + creates + seeds);
}

/// Initializing without a reset keeps every row and makes sure that the seven
/// weekday codes are there; running it again changes nothing and does not fail.
pub proof fn lemma_init_keeps_rows(s: StoreState)
    ensures
        run(s, init_plan(false)) == (
            StoreState { weekdays: s.weekdays + all_codes(), ..s },
            Ok::<(), StoreError>(()),
        ),
        run(run(s, init_plan(false)).0, init_plan(false)) == run(s, init_plan(false)),
{
    let creates = seq![
        CommandView::CreateTable(Table::Places),
        CommandView::CreateTable(Table::Weekdays),
        CommandView::CreateTable(Table::Alarms),
        CommandView::CreateTable(Table::WeekdaysAlarms),
    ];
    let seeds = Seq::new(7, |i: int| CommandView::SeedWeekday(i));
    assert(seeds =~= Seq::new((7 - 0) as nat, |i: int| CommandView::SeedWeekday(0 + i)));
    assert(init_plan(false) =~= creates + seeds);
    lemma_run_creates(s);
    lemma_run_seeds(s, 0);
    assert(s.weekdays + Set::new(|c: int| 0 <= c < 7) =~= s.weekdays + all_codes());
    lemma_run_append(s, creates, seeds);
    let once = StoreState { weekdays: s.weekdays + all_codes(), ..s };
    lemma_run_creates(once);
    lemma_run_seeds(once, 0);
    assert(once.weekdays + Set::new(|c: int| 0 <= c < 7) =~= once.weekdays);
    lemma_run_append(once, creates, seeds);
}

/// The weekday codes of an alarm, as a set.
pub open spec fn day_codes(a: AlarmView) -> Set<int> {
    a.weekdays.map_values(|d: Weekday| code_of(d)).to_set()
}

/// Distinct days have distinct codes.
proof fn lemma_code_injective(d: Weekday, e: Weekday)
    ensures
        code_of(d) == code_of(e) ==> d == e,
{
}

/// The links that linking the days of `a` from index `from` on adds for alarm `id`.
pub open spec fn links_from(a: AlarmView, id: int, from: int) -> Set<(int, int)> {
    Set::new(
        |l: (int, int)|
            l.1 == id && exists|j: int| from <= j < a.weekdays.len() && l.0 == code_of(#[trigger] a.weekdays[j]),
    )
}

/// Linking the days of `a` from index `from` on, when its alarm row is `id`.
proof fn lemma_run_links(st: StoreState, a: AlarmView, id: int, from: int)
    requires
        0 <= from <= a.weekdays.len(),
        st.alarms.contains_key(id),
        st.alarms[id] == (a.time, a.place),
        forall|i: int| #[trigger] st.alarms.contains_key(i) && st.alarms[i] == (a.time, a.place) ==> i == id,
        forall|j: int| 0 <= j < a.weekdays.len() ==> st.weekdays.contains(code_of(#[trigger] a.weekdays[j])),
        a.weekdays.no_duplicates(),
        forall|j: int| from <= j < a.weekdays.len() ==> !st.links.contains((code_of(#[trigger] a.weekdays[j]), id)),
    ensures
        run(st, link_plan(a).subrange(from, a.weekdays.len() as int)) == (
            StoreState { links: st.links + links_from(a, id, from), ..st },
            Ok::<(), StoreError>(()),
        ),
    decreases a.weekdays.len() - from,
{
    let n = a.weekdays.len() as int;
    let cs = link_plan(a).subrange(from, n);
    if from == n {
        assert(links_from(a, id, from) =~= Set::empty());
        assert(st.links + links_from(a, id, from) =~= st.links);
    } else {
        let code = code_of(a.weekdays[from]);
        assert(cs[0] == CommandView::LinkWeekday(code, a.time, a.place));
        assert(cs.drop_first() =~= link_plan(a).subrange(from + 1, n));
        assert(has_alarm_at(st, a.time, a.place));
        assert(alarm_id_at(st, a.time, a.place) == id);
        let next = StoreState { links: st.links.insert((code, id)), ..st };
        assert(apply(st, cs[0]) == Ok::<StoreState, Fault>(next));
        assert forall|j: int| from + 1 <= j < n implies !next.links.contains((code_of(#[trigger] a.weekdays[j]), id)) by {
            lemma_code_injective(a.weekdays[j], a.weekdays[from]);
        }
        lemma_run_links(next, a, id, from + 1);
        assert(next.links + links_from(a, id, from + 1) =~= st.links + links_from(a, id, from));
    }
}

/// Adding an alarm whose time and place are not stored yet, to a store seeded with
/// the weekday codes: it succeeds; its place is stored, once; one new alarm row holds
/// its time and place and is linked to exactly its weekday codes; no other row changes.
/// An alarm that lists a day twice is left out: its second link breaks the uniqueness
/// of links and the operation fails.
pub proof fn lemma_add_new_alarm(s: StoreState, known: Seq<Seq<char>>, a: AlarmView)
    requires
        well_formed(s),
        lists_places(known, s),
        !has_alarm_at(s, a.time, a.place),
        all_codes().subset_of(s.weekdays),
        a.weekdays.no_duplicates(),
    ensures
        run(s, add_alarm_plan(known, a)).1 == Ok::<(), StoreError>(()),
        ({
            let after = run(s, add_alarm_plan(known, a)).0;
            &&& well_formed(after)
            &&& after.places == s.places.insert(a.place)
            &&& after.weekdays == s.weekdays
            &&& after.alarms == s.alarms.insert(s.next_id, (a.time, a.place))
            &&& has_alarm_at(after, a.time, a.place)
            &&& alarm_id_at(after, a.time, a.place) == s.next_id
            &&& linked_codes(after, s.next_id) == day_codes(a)
            &&& forall|id: int| id != s.next_id ==> #[trigger] linked_codes(after, id) == linked_codes(s, id)
        }),
{
    let id = s.next_id;
    let s1 = StoreState { places: s.places.insert(a.place), ..s };
    let s2 = StoreState { alarms: s.alarms.insert(id, (a.time, a.place)), next_id: id + 1, ..s1 };
    let head = if known.contains(a.place) {
        Seq::<CommandView>::empty()
    } else {
        seq![CommandView::InsertPlace(a.place)]
    };
    let insert = seq![CommandView::InsertAlarm(a.time, a.place)];
    assert(add_alarm_plan(known, a) == head + insert + link_plan(a));
    // the place step
    if known.contains(a.place) {
        assert(s.places.contains(a.place));
        assert(s1.places =~= s.places);
        assert(s1 == s);
        assert(run(s, head) == (s1, Ok::<(), StoreError>(())));
    } else {
        assert(!s.places.contains(a.place));
        assert(head.drop_first() =~= Seq::<CommandView>::empty());
        assert(run(s1, head.drop_first()) == (s1, Ok::<(), StoreError>(())));
        assert(run(s, head) == (s1, Ok::<(), StoreError>(())));
    }
    // the alarm row
    assert(!has_alarm_at(s1, a.time, a.place));
    assert(apply(s1, insert[0]) == Ok::<StoreState, Fault>(s2));
    assert(insert.drop_first() =~= Seq::<CommandView>::empty());
    assert(run(s2, insert.drop_first()) == (s2, Ok::<(), StoreError>(())));
    assert(run(s1, insert) == (s2, Ok::<(), StoreError>(())));
    lemma_run_append(s, head, insert);
    // the links
    assert(!s.alarms.contains_key(id));
    assert forall|i: int| #[trigger] s2.alarms.contains_key(i) && s2.alarms[i] == (a.time, a.place) implies i == id by {
        if i != id {
            assert(s.alarms.contains_key(i) && s.alarms[i] == (a.time, a.place));
        }
    }
    assert forall|j: int| 0 <= j < a.weekdays.len() implies s2.weekdays.contains(code_of(#[trigger] a.weekdays[j])) by {
        assert(all_codes().contains(code_of(a.weekdays[j])));
    }
    assert forall|j: int| 0 <= j < a.weekdays.len() implies !s2.links.contains((code_of(#[trigger] a.weekdays[j]), id)) by {
        if s.links.contains((code_of(a.weekdays[j]), id)) {
            assert(s.alarms.contains_key(id));
        }
    }
    lemma_run_links(s2, a, id, 0);
    let n = a.weekdays.len() as int;
    assert(link_plan(a).subrange(0, n) =~= link_plan(a));
    let after = StoreState { links: s.links + links_from(a, id, 0), ..s2 };
    lemma_run_append(s, head + insert, link_plan(a));
    assert(run(s, add_alarm_plan(known, a)) == (after, Ok::<(), StoreError>(())));
    // what the rows hold
    assert(has_alarm_at(after, a.time, a.place)) by {
        assert(after.alarms.contains_key(id));
    }
    assert forall|i: int| #[trigger] after.alarms.contains_key(i) && after.alarms[i] == (a.time, a.place) implies i == id by {
    }
    assert(alarm_id_at(after, a.time, a.place) == id);
    assert forall|c: int| #[trigger] linked_codes(after, id).contains(c) <==> day_codes(a).contains(c) by {
        if linked_codes(after, id).contains(c) {
            if s.links.contains((c, id)) {
                assert(s.alarms.contains_key(id));
            }
            let j = choose|j: int| 0 <= j < n && c == code_of(#[trigger] a.weekdays[j]);
            let codes = a.weekdays.map_values(|d: Weekday| code_of(d));
            assert(codes[j] == c);
            assert(codes.contains(c));
        }
        if day_codes(a).contains(c) {
            let codes = a.weekdays.map_values(|d: Weekday| code_of(d));
            assert(codes.contains(c));
            let j = choose|j: int| 0 <= j < codes.len() && #[trigger] codes[j] == c;
            assert(c == code_of(a.weekdays[j]));
            assert(links_from(a, id, 0).contains((c, id)));
        }
    }
    assert(linked_codes(after, id) =~= day_codes(a));
    assert forall|i: int| i != id implies #[trigger] linked_codes(after, i) == linked_codes(s, i) by {
        assert(linked_codes(after, i) =~= linked_codes(s, i));
    }
    assert forall|l: (int, int)| #[trigger] after.links.contains(l) implies after.alarms.contains_key(l.1)
        && after.weekdays.contains(l.0) by {
        if !s.links.contains(l) {
            let j = choose|j: int| 0 <= j < n && l.0 == code_of(#[trigger] a.weekdays[j]);
            assert(all_codes().contains(code_of(a.weekdays[j])));
        }
    }
}

/// Removing an alarm removes its row and its weekday links; its place and every
/// other alarm stay, and the rows stay well formed.
pub proof fn lemma_remove_alarm_cascades(s: StoreState, t: Time, place: Seq<char>)
    requires
        well_formed(s),
    ensures
        run(s, seq![CommandView::DeleteAlarm(t, place)]).1 == Ok::<(), StoreError>(()),
        ({
            let after = run(s, seq![CommandView::DeleteAlarm(t, place)]).0;
            &&& well_formed(after)
            &&& after.places == s.places
            &&& !has_alarm_at(after, t, place)
            &&& forall|id: int|
                #[trigger] s.alarms.contains_key(id) && s.alarms[id] != (t, place) ==> after.alarms.contains_key(id)
                    && after.alarms[id] == s.alarms[id]
                    && linked_codes(after, id) == linked_codes(s, id)
            &&& forall|l: (int, int)| #[trigger] after.links.contains(l) ==> s.alarms.contains_key(l.1)
                && s.alarms[l.1] != (t, place)
        }),
{
    let cs = seq![CommandView::DeleteAlarm(t, place)];
    let gone = |id: int| s.alarms[id] == (t, place);
    let after = without_alarms(s, gone);
    assert(apply(s, cs[0]) == Ok::<StoreState, Fault>(after));
    assert(cs.drop_first() =~= Seq::<CommandView>::empty());
    assert(run(after, cs.drop_first()) == (after, Ok::<(), StoreError>(())));
    assert(run(s, cs) == (after, Ok::<(), StoreError>(())));
    assert forall|id: int| #[trigger] s.alarms.contains_key(id) && s.alarms[id] != (t, place) implies
        after.alarms.contains_key(id) && linked_codes(after, id) == linked_codes(s, id) by {
        assert(s.alarms.dom().filter(|i: int| !gone(i)).contains(id));
        assert(linked_codes(after, id) =~= linked_codes(s, id));
    }
    assert forall|l: (int, int)| #[trigger] after.links.contains(l) implies s.links.contains(l) && !gone(l.1) by {
    }
    assert forall|l: (int, int)| #[trigger] after.links.contains(l) implies after.alarms.contains_key(l.1)
        && after.weekdays.contains(l.0) by {
        assert(s.alarms.contains_key(l.1));
        assert(s.alarms.dom().filter(|i: int| !gone(i)).contains(l.1));
    }
    assert(!has_alarm_at(after, t, place));
}

} // verus!
