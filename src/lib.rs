//! A personal shift-calendar feed: accounts of an upstream scheduling service,
//! their token refresh, and the synthesis of a calendar document from the
//! weeks of shifts fetched for an account.
//!
//! - `date`: the upstream day/minute encoding, decoded to UTC instants.
//! - `text`: decimal text and the compact UTC stamp of the calendar format.
//! - `models`: the upstream records and the accounts kept for them.
//! - `calendar`: turning fetched weeks into calendar events and a document.
//! - `week`: the window of ISO weeks that a calendar covers.
//! - `registry`: building, refreshing and searching the accounts.
//! - `config`: the configured list of credentials.
pub mod date;
pub mod text;
pub mod models;
pub mod calendar;
pub mod week;
pub mod registry;
pub mod config;
