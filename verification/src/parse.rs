//! Parsing of textual date expressions.
//!
//! Two independent grammars: [`dateparse`] resolves absolute
//! point-in-time expressions such as `"2022-01-05 01:05"`,
//! `"yesterday 09:00"` or `"tuesday 01:05:00"`, and [`reldateparse`]
//! resolves relative range expressions such as `"now"`, `"2 weeks"` or
//! `"1m"`.  Both are anchored to a caller-supplied local calendar date
//! ("today") and a time zone.

pub mod dateparse;
pub mod reldateparse;
pub mod scan;
