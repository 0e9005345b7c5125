//! Calendar synthesis: the shifts of the fetched weeks become calendar events.
use crate::date::{instant_of, parse_datetime, CodecError, UtcDateTime};
use crate::models::{Account, Department, Entry, ManusData, Me, Schedule};
use crate::text::{decimal, decimal_text, stamp_of, to_string};
use ics::properties::{DtEnd, DtStart, Location, Summary};
use ics::{Event, ICalendar};
use std::collections::HashMap;
use vstd::prelude::*;
use vstd::string::StringExecFns;

verus! {

broadcast use vstd::std_specs::hash::group_hash_axioms;

/// Why a calendar could not be synthesized from upstream data.
#[derive(Clone, Copy, Debug, PartialEq, Eq, Structural)]
pub enum SynthesisError {
    /// A shift's day or minute offset names no instant.
    Time(CodecError),
    /// A shift names a department that its own week does not list.
    MissingReference,
}

/// One calendar event; the three instants are UTC stamps.
#[derive(Clone, Debug)]
pub struct CalendarEvent {
    pub uid: String,
    pub dtstamp: String,
    pub dtstart: String,
    pub dtend: String,
    pub summary: String,
    pub location: String,
}

pub struct EventView {
    pub uid: Seq<char>,
    pub dtstamp: Seq<char>,
    pub dtstart: Seq<char>,
    pub dtend: Seq<char>,
    pub summary: Seq<char>,
    pub location: Seq<char>,
}

impl View for CalendarEvent {
    type V = EventView;

    open spec fn view(&self) -> EventView {
        EventView {
            uid: self.uid@,
            dtstamp: self.dtstamp@,
            dtstart: self.dtstart@,
            dtend: self.dtend@,
            summary: self.summary@,
            location: self.location@,
        }
    }
}

pub open spec fn events_view(v: Seq<CalendarEvent>) -> Seq<EventView> {
    v.map_values(|e: CalendarEvent| e@)
}

pub open spec fn result_view(r: Result<Vec<CalendarEvent>, SynthesisError>) -> Result<
    Seq<EventView>,
    SynthesisError,
> {
    match r {
        Ok(v) => Ok(events_view(v@)),
        Err(e) => Err(e),
    }
}

/// A day gives events when it has shifts and no vacation marker at all.
pub open spec fn day_counts(s: Schedule) -> bool {
    s.entries@.len() > 0 && s.vacation@.len() == 0
}

/// The shifts that one day gives, each with the day's offset.
pub open spec fn day_shifts(s: Schedule) -> Seq<(u32, Entry)> {
    if day_counts(s) {
        s.entries@.map_values(|e: Entry| (s.date, e))
    } else {
        seq![]
    }
}

/// The shifts of a week's days, in order.
pub open spec fn shifts_of(days: Seq<Schedule>) -> Seq<(u32, Entry)>
    decreases days.len(),
{
    if days.len() == 0 {
        seq![]
    } else {
        shifts_of(days.drop_last()) + day_shifts(days.last())
    }
}

/// Where the person works, as the events name it.
pub open spec fn location_of(me: Me) -> Seq<char> {
    me.node_code@ + seq![' ', '-', ' '] + me.node_name@
}

/// The event for one shift.
#[verifier::opaque]
pub open spec fn event_of(
    depts: Map<u32, Department>,
    place: Seq<char>,
    stamp: Seq<char>,
    day: u32,
    e: Entry,
) -> Result<EventView, SynthesisError> {
    match instant_of(day, e.start_time) {
        Err(c) => Err(SynthesisError::Time(c)),
        Ok(start) => match instant_of(day, e.end_time) {
            Err(c) => Err(SynthesisError::Time(c)),
            Ok(end) => if depts.contains_key(e.department_id) {
                Ok(
                    EventView {
                        uid: decimal(e.id as nat),
                        dtstamp: stamp,
                        dtstart: stamp_of(start),
                        dtend: stamp_of(end),
                        summary: depts[e.department_id].name@,
                        location: place,
                    },
                )
            } else {
                Err(SynthesisError::MissingReference)
            },
        },
    }
}

/// The events for a run of shifts, or the first failure among them.
pub open spec fn events_of(
    depts: Map<u32, Department>,
    place: Seq<char>,
    stamp: Seq<char>,
    shifts: Seq<(u32, Entry)>,
) -> Result<Seq<EventView>, SynthesisError>
    decreases shifts.len(),
{
    if shifts.len() == 0 {
        Ok(seq![])
    } else {
        match events_of(depts, place, stamp, shifts.drop_last()) {
            Err(e) => Err(e),
            Ok(v) => match event_of(depts, place, stamp, shifts.last().0, shifts.last().1) {
                Err(e) => Err(e),
                Ok(x) => Ok(v.push(x)),
            },
        }
    }
}

/// The events that one fetched week gives for an account.
pub open spec fn week_events(data: ManusData, account: Account, stamp: Seq<char>) -> Result<
    Seq<EventView>,
    SynthesisError,
> {
    events_of(data.departments@, location_of(account.me), stamp, shifts_of(data.schedule@))
}

/// The events of all fetched weeks, in the order given; a week that could not
/// be fetched gives none.
pub open spec fn all_events(weeks: Seq<Option<ManusData>>, account: Account, stamp: Seq<char>) -> Result<
    Seq<EventView>,
    SynthesisError,
>
    decreases weeks.len(),
{
    if weeks.len() == 0 {
        Ok(seq![])
    } else {
        match all_events(weeks.drop_last(), account, stamp) {
            Err(e) => Err(e),
            Ok(v) => match weeks.last() {
                None => Ok(v),
                Some(w) => match week_events(w, account, stamp) {
                    Err(e) => Err(e),
                    Ok(x) => Ok(v + x),
                },
            },
        }
    }
}

/// A failure among the first shifts stays the failure of a longer run.
proof fn lemma_events_err_extends(
    depts: Map<u32, Department>,
    place: Seq<char>,
    stamp: Seq<char>,
    a: Seq<(u32, Entry)>,
    b: Seq<(u32, Entry)>,
)
    requires
        events_of(depts, place, stamp, a) is Err,
    ensures
        events_of(depts, place, stamp, a + b) == events_of(depts, place, stamp, a),
    decreases b.len(),
{
    if b.len() == 0 {
        assert(a + b =~= a);
    } else {
        lemma_events_err_extends(depts, place, stamp, a, b.drop_last());
        assert((a + b).drop_last() =~= a + b.drop_last());
    }
}

/// A failure among the first weeks stays the failure of a longer run.
proof fn lemma_weeks_err_extends(
    weeks: Seq<Option<ManusData>>,
    account: Account,
    stamp: Seq<char>,
    n: int,
)
    requires
        0 <= n <= weeks.len(),
        all_events(weeks.take(n), account, stamp) is Err,
    ensures
        all_events(weeks, account, stamp) == all_events(weeks.take(n), account, stamp),
    decreases weeks.len() - n,
{
    if n < weeks.len() {
        assert(weeks.take(n + 1).drop_last() =~= weeks.take(n));
        lemma_weeks_err_extends(weeks, account, stamp, n + 1);
    } else {
        assert(weeks.take(n) =~= weeks);
    }
}

fn make_event(
    depts: &HashMap<u32, Department>,
    place: &String,
    stamp: &String,
    day: u32,
    e: &Entry,
) -> (r: Result<CalendarEvent, SynthesisError>)
    ensures
        match r {
            Ok(x) => event_of(depts@, place@, stamp@, day, *e) == Ok::<EventView, SynthesisError>(x@),
            Err(err) => event_of(depts@, place@, stamp@, day, *e) == Err::<EventView, SynthesisError>(err),
        },
{
    proof {
        reveal(event_of);
    }
    let start = match parse_datetime(day, e.start_time) {
        Ok(u) => u,
        Err(c) => return Err(SynthesisError::Time(c)),
    };
    let end = match parse_datetime(day, e.end_time) {
        Ok(u) => u,
        Err(c) => return Err(SynthesisError::Time(c)),
    };
    let dept = match depts.get(&e.department_id) {
        Some(d) => d,
        None => return Err(SynthesisError::MissingReference),
    };
    Ok(
        CalendarEvent {
            uid: decimal_text(e.id),
            dtstamp: stamp.clone(),
            dtstart: to_string(&start),
            dtend: to_string(&end),
            summary: dept.name.clone(),
            location: place.clone(),
        },
    )
}

/// The location text of a profile: site code, a dash, site name.
pub fn location_text(me: &Me) -> (r: String)
    ensures
        r@ == location_of(*me),
{
    proof {
        reveal_strlit(" - ");
    }
    let mut s = me.node_code.clone();
    s.append(" - ");
    s.append(me.node_name.as_str());
    s
}

/// Appends the events of one counted day's shifts to `out`, after the events
/// of the shifts `before`, or gives the first failure of the longer run.
fn append_day_events(
    depts: &HashMap<u32, Department>,
    place: &String,
    stamp: &String,
    day: &Schedule,
    out: &mut Vec<CalendarEvent>,
    Ghost(start): Ghost<Seq<EventView>>,
    Ghost(before): Ghost<Seq<(u32, Entry)>>,
) -> (r: Result<(), SynthesisError>)
    requires
        events_of(depts@, place@, stamp@, before) is Ok,
        events_view(old(out)@) == start + events_of(depts@, place@, stamp@, before)->Ok_0,
    ensures
        match events_of(depts@, place@, stamp@, before + day.entries@.map_values(|e: Entry| (day.date, e))) {
            Ok(v) => r is Ok && events_view(final(out)@) == start + v,
            Err(e) => r == Err::<(), SynthesisError>(e),
        },
{
    proof {
        reveal_with_fuel(events_of, 2);
    }
    let ghost given = day.entries@.map_values(|e: Entry| (day.date, e));
    let mut j: usize = 0;
    while j < day.entries.len()
        invariant
            0 <= j <= day.entries@.len(),
            given == day.entries@.map_values(|e: Entry| (day.date, e)),
            events_of(depts@, place@, stamp@, before + given.take(j as int)) is Ok,
            events_view(out@) == start + events_of(
                depts@,
                place@,
                stamp@,
                before + given.take(j as int),
            )->Ok_0,
        decreases day.entries@.len() - j,
    {
        let e = &day.entries[j];
        let ghost prefix = before + given.take(j as int);
        assert((before + given.take(j + 1)).drop_last() =~= prefix);
        assert((before + given.take(j + 1)).last() == (day.date, *e));
        match make_event(depts, place, stamp, day.date, e) {
            Ok(x) => {
                let ghost prev = out@;
                let ghost next = before + given.take(j + 1);
                assert(events_of(depts@, place@, stamp@, next) == Ok::<
                    Seq<EventView>,
                    SynthesisError,
                >(events_of(depts@, place@, stamp@, prefix)->Ok_0.push(x@)));
                out.push(x);
                assert(events_view(out@) =~= events_view(prev).push(x@));
                assert(events_view(out@) =~= start + events_of(
                    depts@,
                    place@,
                    stamp@,
                    next,
                )->Ok_0);
            },
            Err(err) => {
                proof {
                    assert(given.take(j + 1) + given.skip(j + 1) =~= given);
                    assert(before + given =~= (before + given.take(j + 1)) + given.skip(j + 1));
                    lemma_events_err_extends(
                        depts@,
                        place@,
                        stamp@,
                        before + given.take(j + 1),
                        given.skip(j + 1),
                    );
                }
                return Err(err);
            },
        }
        j = j + 1;
    }
    assert(given.take(j as int) =~= given);
    Ok(())
}

/// Appends the events of one week to `out`, or gives the first failure.
fn append_week_events(
    data: &ManusData,
    place: &String,
    stamp: &String,
    out: &mut Vec<CalendarEvent>,
) -> (r: Result<(), SynthesisError>)
    ensures
        match events_of(data.departments@, place@, stamp@, shifts_of(data.schedule@)) {
            Ok(v) => r is Ok && events_view(final(out)@) == events_view(old(out)@) + v,
            Err(e) => r == Err::<(), SynthesisError>(e),
        },
{
    let ghost depts = data.departments@;
    let ghost days = data.schedule@;
    let ghost start = events_view(out@);
    assert(events_view(out@) =~= start + seq![]);
    let mut i: usize = 0;
    while i < data.schedule.len()
        invariant
            0 <= i <= days.len(),
            days == data.schedule@,
            depts == data.departments@,
            start == events_view(old(out)@),
            events_of(depts, place@, stamp@, shifts_of(days.take(i as int))) is Ok,
            events_view(out@) == start + events_of(
                depts,
                place@,
                stamp@,
                shifts_of(days.take(i as int)),
            )->Ok_0,
        decreases days.len() - i,
    {
        let day = &data.schedule[i];
        let ghost before = shifts_of(days.take(i as int));
        assert(days.take(i + 1).drop_last() =~= days.take(i as int));
        assert(shifts_of(days.take(i + 1)) == before + day_shifts(*day));
        if day.entries.len() > 0 && day.vacation.len() == 0 {
            let res = append_day_events(
                &data.departments,
                place,
                stamp,
                day,
                out,
                Ghost(start),
                Ghost(before),
            );
            if let Err(err) = res {
                proof {
                    lemma_shifts_prefix(days, i as int + 1);
                    let head = shifts_of(days.take(i + 1));
                    lemma_events_err_extends(
                        depts,
                        place@,
                        stamp@,
                        head,
                        shifts_of(days).skip(head.len() as int),
                    );
                }
                return Err(err);
            }
        } else {
            assert(before + day_shifts(*day) =~= before);
        }
        i = i + 1;
    }
    assert(days.take(i as int) =~= days);
    Ok(())
}

/// The shifts of the first `n` days are a prefix of the shifts of all days.
proof fn lemma_shifts_prefix(days: Seq<Schedule>, n: int)
    requires
        0 <= n <= days.len(),
    ensures
        shifts_of(days) =~= shifts_of(days.take(n)) + shifts_of(days).skip(
            shifts_of(days.take(n)).len() as int,
        ),
        shifts_of(days.take(n)).len() <= shifts_of(days).len(),
        shifts_of(days).take(shifts_of(days.take(n)).len() as int) == shifts_of(days.take(n)),
    decreases days.len() - n,
{
    if n == days.len() {
        assert(days.take(n) =~= days);
    } else {
        lemma_shifts_prefix(days, n + 1);
        assert(days.take(n + 1).drop_last() =~= days.take(n));
        let a = shifts_of(days.take(n));
        let b = shifts_of(days.take(n + 1));
        assert(b == a + day_shifts(days[n]));
        assert(b.take(a.len() as int) =~= a);
        assert(shifts_of(days).take(a.len() as int) =~= b.take(a.len() as int));
    }
}

impl ManusData {
    /// The calendar events of this week's counted days for `account`, stamped
    /// with the synthesis time `now`; fails on the first shift whose times name
    /// no instant or whose department the week does not list.
    pub fn parse_events(&self, account: &Account, now: &UtcDateTime) -> (r: Result<
        Vec<CalendarEvent>,
        SynthesisError,
    >)
        ensures
            result_view(r) == week_events(*self, *account, stamp_of(*now)),
    {
        let place = location_text(&account.me);
        let stamp = to_string(now);
        let mut out: Vec<CalendarEvent> = Vec::new();
        assert(events_view(out@) =~= seq![]);
        match append_week_events(self, &place, &stamp, &mut out) {
            Ok(()) => {
                assert(events_view(out@) =~= week_events(*self, *account, stamp_of(*now))->Ok_0);
                Ok(out)
            },
            Err(e) => Err(e),
        }
    }
}

/// The events of every fetched week for `account`, in the order of `weeks`,
/// stamped with the synthesis time `now`. A week that could not be fetched
/// (`None`) gives no events; a defect in a fetched week fails the whole
/// calendar.
pub fn calendar_events(account: &Account, weeks: &Vec<Option<ManusData>>, now: &UtcDateTime) -> (r:
    Result<Vec<CalendarEvent>, SynthesisError>)
    ensures
        result_view(r) == all_events(weeks@, *account, stamp_of(*now)),
{
    let place = location_text(&account.me);
    let stamp = to_string(now);
    let ghost st = stamp_of(*now);
    let mut out: Vec<CalendarEvent> = Vec::new();
    let mut i: usize = 0;
    assert(events_view(out@) =~= seq![]);
    while i < weeks.len()
        invariant
            0 <= i <= weeks@.len(),
            place@ == location_of(account.me),
            stamp@ == st,
            st == stamp_of(*now),
            all_events(weeks@.take(i as int), *account, st) is Ok,
            events_view(out@) == all_events(weeks@.take(i as int), *account, st)->Ok_0,
        decreases weeks@.len() - i,
    {
        assert(weeks@.take(i + 1).drop_last() =~= weeks@.take(i as int));
        assert(weeks@.take(i + 1).last() == weeks@[i as int]);
        match &weeks[i] {
            None => {},
            Some(data) => {
                match append_week_events(data, &place, &stamp, &mut out) {
                    Ok(()) => {},
                    Err(e) => {
                        proof {
                            assert(weeks@.take(i + 1).last() == Some(*data));
                            assert(week_events(*data, *account, st) == Err::<
                                Seq<EventView>,
                                SynthesisError,
                            >(e));
                            assert(all_events(weeks@.take(i + 1), *account, st) == Err::<
                                Seq<EventView>,
                                SynthesisError,
                            >(e));
                            lemma_weeks_err_extends(weeks@, *account, st, i + 1);
                        }
                        return Err(e);
                    },
                }
            },
        }
        i = i + 1;
    }
    assert(weeks@.take(i as int) =~= weeks@);
    Ok(out)
}

/// The text of a calendar document with the given format version, product id
/// and events.
pub uninterp spec fn calendar_text(version: Seq<char>, prodid: Seq<char>, events: Seq<EventView>) -> Seq<char>;

/// Relies on the ics crate: `ICalendar::new(version, prodid)` with one `Event`
/// per event (UID, DTSTAMP, DTSTART, DTEND, SUMMARY, LOCATION), rendered by
/// its `Display`; the text depends on these values alone.
#[verifier::external_body]
fn render_ics(version: &String, prodid: &String, events: &Vec<CalendarEvent>) -> (r: String)
    ensures
        r@ == calendar_text(version@, prodid@, events_view(events@)),
{
    let mut cal = ICalendar::new(version.clone(), prodid.clone());
    for e in events {
        let mut ev = Event::new(e.uid.clone(), e.dtstamp.clone());
        ev.push(DtStart::new(e.dtstart.clone()));
        ev.push(DtEnd::new(e.dtend.clone()));
        ev.push(Summary::new(e.summary.clone()));
        ev.push(Location::new(e.location.clone()));
        cal.add_event(ev);
    }
    cal.to_string()
}

/// The version of the calendar interchange format that documents declare.
pub open spec fn format_version() -> Seq<char> {
    seq!['2', '.', '0']
}

/// The product id that every calendar document carries.
pub open spec fn product_id() -> Seq<char> {
    seq!['m', 'a', 'n', 'u', 's', '-', 's', 'c', 'r', 'a', 'p', 'e', 'r']
}

/// The calendar document, in the calendar interchange text format, that
/// holds `events` in order.
pub fn calendar_document(events: &Vec<CalendarEvent>) -> (r: String)
    ensures
        r@ == calendar_text(format_version(), product_id(), events_view(events@)),
{
    proof {
        reveal_strlit("2.0");
        reveal_strlit("manus-scraper");
    }
    let version = String::from_str("2.0");
    let prodid = String::from_str("manus-scraper");
    assert(version@ =~= format_version());
    assert(prodid@ =~= product_id());
    render_ics(&version, &prodid, events)
}

/// Synthesis that succeeds gives, at each position, the event of the shift at
/// that position.
pub proof fn lemma_events_follow_shifts(
    depts: Map<u32, Department>,
    place: Seq<char>,
    stamp: Seq<char>,
    shifts: Seq<(u32, Entry)>,
)
    requires
        events_of(depts, place, stamp, shifts) is Ok,
    ensures
        events_of(depts, place, stamp, shifts)->Ok_0.len() == shifts.len(),
        forall|k: int|
            0 <= k < shifts.len() ==> event_of(depts, place, stamp, shifts[k].0, shifts[k].1)
                == Ok::<EventView, SynthesisError>(
                #[trigger] events_of(depts, place, stamp, shifts)->Ok_0[k],
            ),
    decreases shifts.len(),
{
    if shifts.len() > 0 {
        let init = shifts.drop_last();
        lemma_events_follow_shifts(depts, place, stamp, init);
        assert forall|k: int| 0 <= k < shifts.len() implies event_of(
            depts,
            place,
            stamp,
            shifts[k].0,
            shifts[k].1,
        ) == Ok::<EventView, SynthesisError>(
            #[trigger] events_of(depts, place, stamp, shifts)->Ok_0[k],
        ) by {
            if k < init.len() {
                assert(init[k] == shifts[k]);
            }
        }
    }
}

/// In a week whose synthesis succeeds, day `i` gives its events right after
/// those of the days before it: one per shift, in entry order, each carrying
/// the shift's id as its UID and its department's name as its summary, when
/// the day has shifts and no vacation marker; none otherwise.
pub proof fn lemma_day_contributes(data: ManusData, account: Account, stamp: Seq<char>, i: int)
    requires
        0 <= i < data.schedule@.len(),
        week_events(data, account, stamp) is Ok,
    ensures
        ({
            let days = data.schedule@;
            let d = days[i];
            let before = shifts_of(days.take(i)).len();
            let v = week_events(data, account, stamp)->Ok_0;
            &&& shifts_of(days.take(i + 1)).len() == before + (if day_counts(d) {
                d.entries@.len()
            } else {
                0
            })
            &&& day_counts(d) ==> forall|j: int|
                0 <= j < d.entries@.len() ==> {
                    &&& event_of(
                        data.departments@,
                        location_of(account.me),
                        stamp,
                        d.date,
                        d.entries@[j],
                    ) == Ok::<EventView, SynthesisError>(#[trigger] v[before + j])
                    &&& v[before + j].uid == decimal(d.entries@[j].id as nat)
                    &&& v[before + j].summary
                        == data.departments@[d.entries@[j].department_id].name@
                }
        }),
{
    reveal(event_of);
    let days = data.schedule@;
    let d = days[i];
    let depts = data.departments@;
    let place = location_of(account.me);
    let all = shifts_of(days);
    let head = shifts_of(days.take(i + 1));
    let before = shifts_of(days.take(i));
    assert(days.take(i + 1).drop_last() =~= days.take(i));
    assert(head == before + day_shifts(d));
    lemma_shifts_prefix(days, i + 1);
    lemma_events_follow_shifts(depts, place, stamp, all);
    if day_counts(d) {
        assert forall|j: int| 0 <= j < d.entries@.len() implies all[before.len() + j] == (
            d.date,
            d.entries@[j],
        ) by {
            assert(all.take(head.len() as int)[before.len() + j] == head[before.len() + j]);
            assert(head[before.len() + j] == day_shifts(d)[j]);
        }
    }
}

/// A counted day with a shift whose department the week does not list makes
/// the whole week's synthesis fail; its event is never silently left out.
pub proof fn lemma_missing_department_in_week(
    data: ManusData,
    account: Account,
    stamp: Seq<char>,
    i: int,
    j: int,
)
    requires
        0 <= i < data.schedule@.len(),
        day_counts(data.schedule@[i]),
        0 <= j < data.schedule@[i].entries@.len(),
        !data.departments@.contains_key(data.schedule@[i].entries@[j].department_id),
    ensures
        week_events(data, account, stamp) is Err,
{
    reveal(event_of);
    if week_events(data, account, stamp) is Ok {
        lemma_day_contributes(data, account, stamp, i);
        let before = shifts_of(data.schedule@.take(i)).len();
        let v = week_events(data, account, stamp)->Ok_0;
        assert(event_of(
            data.departments@,
            location_of(account.me),
            stamp,
            data.schedule@[i].date,
            data.schedule@[i].entries@[j],
        ) == Ok::<EventView, SynthesisError>(v[before + j]));
    }
}

} // verus!
