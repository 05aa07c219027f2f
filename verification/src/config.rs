//! The tool's configuration values.
//!
//! Loading them — a config file, fallback directories — happens outside
//! the library; this is the plain record the commands consume.

use vstd::prelude::*;

verus! {

/// The resolved configuration.
pub struct Config {
    /// Where the record store lives.
    pub database_path: String,
    /// The rounding unit for aggregated durations, in minutes.
    pub time_round_minutes: u32,
}

} // verus!
