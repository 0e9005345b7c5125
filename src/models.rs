//! The records that the upstream scheduling service hands out, and the
//! accounts that this service keeps for the people it serves.
use std::collections::HashMap;
use vstd::prelude::*;

verus! {

/// One person served: the credential, and the token and profile it last obtained.
#[derive(Clone, Debug)]
pub struct Account {
    pub username: String,
    pub password: String,
    pub token: Token,
    pub me: Me,
}

/// A bearer token from the upstream token exchange.
#[derive(Clone, Debug)]
pub struct Token {
    pub access_token: String,
    pub expires_in: u32,
    pub token_type: String,
}

/// The upstream profile of the authenticated person, with the site they work at.
#[derive(Clone, Debug)]
pub struct Me {
    pub employee_id: String,
    pub username: String,
    pub full_name: String,
    pub node_id: String,
    pub node_code: String,
    pub node_name: String,
}

/// A kind of paid time.
#[derive(Clone, Debug)]
pub struct HourCode {
    pub code: String,
    pub full_name: String,
    pub id: u32,
    pub name: String,
}

#[derive(Clone, Debug)]
pub struct Department {
    pub code: String,
    pub id: u32,
    pub active: bool,
    pub name: String,
}

/// One worked shift; start and end are minute offsets within its day.
#[derive(Clone, Copy, Debug, PartialEq, Eq, Structural)]
pub struct Entry {
    pub id: u32,
    pub department_id: u32,
    pub hour_code_id: u32,
    pub start_time: u32,
    pub end_time: u32,
}

/// A vacation marker on a day.
#[derive(Clone, Copy, Debug, PartialEq, Eq, Structural)]
pub struct Vacation {
    pub start_time: u32,
    pub end_time: u32,
}

/// One day of a week's schedule; `date` is a day offset from 1900-01-01.
#[derive(Clone, Debug)]
pub struct Schedule {
    pub date: u32,
    pub entries: Vec<Entry>,
    pub vacation: Vec<Vacation>,
}

#[derive(Clone, Debug)]
pub struct Weekday {
    pub key: String,
    pub text: String,
}

/// One week of one person's schedule at one site.
#[derive(Debug)]
pub struct ManusData {
    pub departments: HashMap<u32, Department>,
    pub hour_codes: HashMap<u32, HourCode>,
    pub schedule: Vec<Schedule>,
    pub days: Vec<Weekday>,
}

} // verus!
