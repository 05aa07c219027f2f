//! Trusted bindings to the time-zone libraries.
//!
//! A [`tzfile::Tz`] value is a time zone loaded from the system's TZif
//! database.  It is opaque to the verifier: which UTC instant a local
//! wall-clock time denotes depends on the zone's transition table, so
//! nothing relates the results below to their arguments.  The grammars
//! and the calendar arithmetic that produce the local wall-clock time
//! are verified; only the final offset lookup is trusted.

use vstd::prelude::*;
use chrono::TimeZone;

verus! {

/// A time zone read from the system's TZif database, as loaded by the
/// `tzfile` crate.
#[verifier::external_type_specification]
#[verifier::external_body]
pub struct ExTz(tzfile::Tz);

/// Relies on chrono's `TimeZone::with_ymd_and_hms` (via `tzfile`'s
/// `TimeZone` impl): resolves a local wall-clock time in `tz` and, when
/// the local time is ambiguous, keeps the latest of the valid UTC
/// instants; a non-existent local time gives nothing.
#[verifier::external_body]
pub fn local_to_utc_latest(
    tz: &tzfile::Tz,
    year: i32,
    month: u8,
    day: u8,
    hour: u8,
    minute: u8,
    second: u8,
) -> (r: Option<i64>)
    requires
        0 <= year <= 9999,
        1 <= month <= 12,
        1 <= day <= 31,
        hour < 24,
        minute < 60,
        second < 60,
{
    tz.with_ymd_and_hms(year, month as u32, day as u32, hour as u32, minute as u32, second as u32)
        .latest()
        .map(|dt| dt.timestamp())
}

/// Relies on chrono's `TimeZone::with_ymd_and_hms` (via `tzfile`'s
/// `TimeZone` impl): resolves a local wall-clock time in `tz` and, when
/// the local time is ambiguous, keeps the earliest of the valid UTC
/// instants; a non-existent local time gives nothing.
#[verifier::external_body]
pub fn local_to_utc_earliest(
    tz: &tzfile::Tz,
    year: i32,
    month: u8,
    day: u8,
    hour: u8,
    minute: u8,
    second: u8,
) -> (r: Option<i64>)
    requires
        0 <= year <= 9999,
        1 <= month <= 12,
        1 <= day <= 31,
        hour < 24,
        minute < 60,
        second < 60,
{
    tz.with_ymd_and_hms(year, month as u32, day as u32, hour as u32, minute as u32, second as u32)
        .earliest()
        .map(|dt| dt.timestamp())
}

} // verus!
