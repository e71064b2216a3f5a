//! Scan configuration, supplied once at scan start.

use vstd::prelude::*;

verus! {

/// Knobs the front end hands the engine: how many workers drive the bulk
/// scan, and how long a front-end timer tick lasts (milliseconds).
#[derive(Clone, Copy, PartialEq, Eq, Structural, Debug)]
pub struct AppConfig {
    /// Number of workers for network scans.
    pub nworkers: usize,
    /// UI tick length (ms).
    pub tick_len: usize,
}

impl Default for AppConfig {
    /// One hundred workers and a 100 ms tick.
    fn default() -> (c: AppConfig)
        ensures
            c.nworkers == 100,
            c.tick_len == 100,
    {
        AppConfig { nworkers: 100, tick_len: 100 }
    }
}

} // verus!
