//! An in-memory quest store: task records with deadlines, plus a
//! working-day scheduling calculator that derives time-to-deadline
//! figures from a calendar date.

pub mod date;
pub mod model;
pub mod response;
pub mod store;
