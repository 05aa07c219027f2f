//! A verified core for a personal time-tracking tool.
//!
//! The library covers the temporal logic of the tool: reconciling a new
//! start/stop event against the most recent stored interval, parsing
//! absolute and relative date expressions against a caller-supplied
//! "today" and time zone, rounding and aggregating durations for
//! display, and the record-id codec.  Persistence and terminal output
//! live outside the library and exchange plain values with it.

pub mod aggregate;
pub mod calendar;
pub mod codec;
pub mod commands;
pub mod config;
pub mod parse;
pub mod records;
pub mod tz;
