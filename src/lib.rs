//! A personal time log: timestamped, labelled entries grouped by date, and
//! the work sessions and time worked that the entries of a date give.

pub mod log;
pub mod session;
pub mod time;
