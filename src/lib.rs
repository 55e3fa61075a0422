//! Scheduled alarms tied to a place, a time of day and a set of weekdays,
//! together with the rules that map them onto a normalized relational store.

pub mod model;
pub mod store;
pub mod schema;
