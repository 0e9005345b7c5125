use manus_scraper::calendar::{calendar_document, calendar_events, location_text, CalendarEvent, SynthesisError};
use manus_scraper::date::{CodecError, UtcDateTime};
use manus_scraper::models::{Account, Department, Entry, ManusData, Me, Schedule, Token, Vacation};
use manus_scraper::week::{week_window, IsoWeek};
use std::collections::HashMap;

fn account(name: &str) -> Account {
    Account {
        username: name.to_string(),
        password: "pw".to_string(),
        token: Token { access_token: "tok".to_string(), expires_in: 3600, token_type: "bearer".to_string() },
        me: Me {
            employee_id: "17".to_string(),
            username: name.to_string(),
            full_name: "A Person".to_string(),
            node_id: "5".to_string(),
            node_code: "NL042".to_string(),
            node_name: "Utrecht".to_string(),
        },
    }
}

fn department(id: u32, name: &str) -> Department {
    Department { code: format!("D{}", id), id, active: true, name: name.to_string() }
}

fn entry(id: u32, department_id: u32, start_time: u32, end_time: u32) -> Entry {
    Entry { id, department_id, hour_code_id: 1, start_time, end_time }
}

fn week(days: Vec<Schedule>) -> ManusData {
    let mut departments = HashMap::new();
    departments.insert(3, department(3, "Checkout"));
    departments.insert(4, department(4, "Garden"));
    ManusData { departments, hour_codes: HashMap::new(), schedule: days, days: Vec::new() }
}

fn now() -> UtcDateTime {
    UtcDateTime { year: 2024, month: 7, day: 2, hour: 10, minute: 0, second: 0 }
}

#[test]
fn counted_day_gives_one_event_per_shift() {
    let data = week(vec![Schedule {
        date: 45472,
        entries: vec![entry(901, 3, 540, 780), entry(902, 4, 810, 1020)],
        vacation: vec![],
    }]);
    let events = data.parse_events(&account("ann"), &now()).unwrap();
    assert_eq!(events.len(), 2);
    let e = &events[0];
    assert_eq!(e.uid, "901");
    assert_eq!(e.dtstamp, "20240702T100000Z");
    assert_eq!(e.dtstart, "20240701T070000Z");
    assert_eq!(e.dtend, "20240701T110000Z");
    assert_eq!(e.summary, "Checkout");
    assert_eq!(e.location, "NL042 - Utrecht");
    assert_eq!(events[1].uid, "902");
    assert_eq!(events[1].summary, "Garden");
    assert_eq!(events[1].dtend, "20240701T150000Z");
}

#[test]
fn vacation_day_gives_no_events() {
    let data = week(vec![
        Schedule {
            date: 45472,
            entries: vec![entry(901, 3, 540, 780), entry(902, 4, 810, 1020)],
            vacation: vec![Vacation { start_time: 0, end_time: 1439 }],
        },
        Schedule { date: 45473, entries: vec![], vacation: vec![] },
    ]);
    assert_eq!(data.parse_events(&account("ann"), &now()).unwrap().len(), 0);
}

#[test]
fn missing_department_fails_synthesis() {
    let data = week(vec![Schedule { date: 45472, entries: vec![entry(903, 99, 540, 780)], vacation: vec![] }]);
    assert_eq!(data.parse_events(&account("ann"), &now()).err(), Some(SynthesisError::MissingReference));
}

#[test]
fn invalid_minutes_fail_synthesis() {
    let data = week(vec![Schedule { date: 45472, entries: vec![entry(904, 3, 540, 1500)], vacation: vec![] }]);
    assert_eq!(
        data.parse_events(&account("ann"), &now()).err(),
        Some(SynthesisError::Time(CodecError::InvalidTime))
    );
}

#[test]
fn failed_weeks_give_empty_calendar() {
    let weeks: Vec<Option<ManusData>> = (0..17).map(|_| None).collect();
    let events = calendar_events(&account("ann"), &weeks, &now()).unwrap();
    assert!(events.is_empty());
    let doc = calendar_document(&events);
    assert!(doc.starts_with("BEGIN:VCALENDAR"));
    assert!(doc.contains("PRODID:manus-scraper"));
    assert!(doc.trim_end().ends_with("END:VCALENDAR"));
    assert!(!doc.contains("BEGIN:VEVENT"));
}

#[test]
fn fetched_weeks_are_joined_in_order() {
    let first = week(vec![Schedule { date: 45472, entries: vec![entry(1, 3, 540, 600)], vacation: vec![] }]);
    let second = week(vec![Schedule { date: 45479, entries: vec![entry(2, 4, 540, 600)], vacation: vec![] }]);
    let weeks = vec![Some(second), None, Some(first)];
    let events = calendar_events(&account("ann"), &weeks, &now()).unwrap();
    let uids: Vec<&str> = events.iter().map(|e| e.uid.as_str()).collect();
    assert_eq!(uids, vec!["2", "1"]);
}

#[test]
fn defect_in_one_week_fails_the_calendar() {
    let good = week(vec![Schedule { date: 45472, entries: vec![entry(1, 3, 540, 600)], vacation: vec![] }]);
    let bad = week(vec![Schedule { date: 45479, entries: vec![entry(2, 77, 540, 600)], vacation: vec![] }]);
    let weeks = vec![Some(good), Some(bad)];
    assert_eq!(
        calendar_events(&account("ann"), &weeks, &now()).err(),
        Some(SynthesisError::MissingReference)
    );
}

#[test]
fn document_holds_one_vevent_per_event() {
    let event = CalendarEvent {
        uid: "901".to_string(),
        dtstamp: "20240702T100000Z".to_string(),
        dtstart: "20240701T070000Z".to_string(),
        dtend: "20240701T110000Z".to_string(),
        summary: "Checkout".to_string(),
        location: "NL042 - Utrecht".to_string(),
    };
    let doc = calendar_document(&vec![event]);
    assert_eq!(doc.matches("BEGIN:VEVENT").count(), 1);
    assert!(doc.contains("UID:901"));
    assert!(doc.contains("DTSTART:20240701T070000Z"));
    assert!(doc.contains("DTEND:20240701T110000Z"));
    assert!(doc.contains("SUMMARY:Checkout"));
    assert!(doc.contains("LOCATION:NL042 - Utrecht"));
}

#[test]
fn location_joins_site_code_and_name() {
    assert_eq!(location_text(&account("ann").me), "NL042 - Utrecht");
}

#[test]
fn window_across_new_year() {
    let current = IsoWeek { year: 2024, week: 1 };
    let w = week_window(&current);
    assert_eq!(w.len(), 17);
    assert_eq!(w[0], Some(IsoWeek { year: 2023, week: 41 }));
    assert_eq!(w[12], Some(current));
    assert_eq!(w[16], Some(IsoWeek { year: 2024, week: 5 }));
    let mut seen: Vec<IsoWeek> = w.iter().map(|x| x.unwrap()).collect();
    seen.sort_by_key(|x| (x.year, x.week));
    seen.dedup();
    assert_eq!(seen.len(), 17);
}

#[test]
fn window_of_unknown_week_is_empty_slots() {
    let w = week_window(&IsoWeek { year: 2023, week: 53 });
    assert_eq!(w.len(), 17);
    assert!(w.iter().all(|x| x.is_none()));
}
