//! The values behind the tool's subcommands.
//!
//! The command line itself is handled outside the library; these are
//! the plain argument records the subcommands carry, and the rule that
//! picks a display granularity automatically from the width of the
//! listed range.

use vstd::prelude::*;

verus! {

/// Arguments of the `go` subcommand: start a new time sheet record.
pub struct Go {
    /// The project name the record is logged under.
    pub project: String,
    /// The task name the record is logged under.
    pub name: String,
    /// The record's start time, as an absolute expression; the current
    /// time when absent.
    pub start: Option<String>,
    /// The record's end time, as an absolute expression; the record
    /// stays open when absent.
    pub end: Option<String>,
    /// Skip reconciling against the most recent overlapping record.
    pub allow_overlap: bool,
}

/// Arguments of the `stop` subcommand: end the currently open record.
pub struct Stop {
    /// The end time, as an absolute expression; the current time when
    /// absent.
    pub end: Option<String>,
}

/// Arguments of the `ls` subcommand: list records over a range.
pub struct ListRecords {
    /// The start of the range, as a relative expression.
    pub since: String,
    /// The end of the range, as a relative expression.
    pub until: String,
    /// How to aggregate the listed records.
    pub granularity: Granularity,
    /// The rounding unit, as text such as `"30m"`.
    pub rounding: String,
}

/// How listed records are aggregated for display.
#[derive(Clone, Copy, PartialEq, Eq, Structural, Debug)]
pub enum Granularity {
    /// Pick a granularity from the width of the range.
    Auto,
    /// Show each record.
    All,
    /// Sum per project and day.
    Daily,
    /// Sum per project and week.
    Weekly,
    /// Sum per project and month.
    Monthly,
}

/// Arguments of the `edit` subcommand: update an existing record.
pub struct Edit {
    /// The user-facing record id.
    pub record_id: String,
    /// A new start time, as an absolute expression.
    pub start: Option<String>,
    /// A new end time, as an absolute expression.
    pub end: Option<String>,
    /// A new task name.
    pub task: Option<String>,
}

/// Arguments of the `times` subcommand: show day start/end times and
/// breaks.
pub struct Times {
    /// The start of the range, as a relative expression.
    pub since: String,
    /// The end of the range, as a relative expression.
    pub until: String,
}

/// The granularity actually used for a range of `start..end` (UTC
/// seconds): an explicit choice is kept; `Auto` picks `All` for up to
/// six days, `Daily` for up to four weeks, `Weekly` for up to sixty
/// days, and `Monthly` beyond.
pub open spec fn spec_effective_granularity(g: Granularity, start: int, end: int) -> Granularity {
    if g != Granularity::Auto {
        g
    } else if end - start <= 518400 {
        Granularity::All
    } else if end - start <= 2419200 {
        Granularity::Daily
    } else if end - start <= 5184000 {
        Granularity::Weekly
    } else {
        Granularity::Monthly
    }
}

/// Pick the granularity used to display the range `start..end`.
pub fn effective_granularity(g: Granularity, start: i64, end: i64) -> (r: Granularity)
    requires
        i64::MIN <= end - start <= i64::MAX,
    ensures
        r == spec_effective_granularity(g, start as int, end as int),
{
    if g != Granularity::Auto {
        g
    } else if end - start <= 518400 {
        Granularity::All
    } else if end - start <= 2419200 {
        Granularity::Daily
    } else if end - start <= 5184000 {
        Granularity::Weekly
    } else {
        Granularity::Monthly
    }
}

} // verus!
