//! Session configuration: durations, state-file path, and the watch flag.

use vstd::prelude::*;

verus! {

/// Default work-phase length, in seconds (25 minutes).
pub const DEFAULT_WORK_DURATION: u64 = 1500;

/// Default break-phase length, in seconds (5 minutes).
pub const DEFAULT_BREAK_DURATION: u64 = 300;

/// Default location of the persisted session record.
pub const DEFAULT_STATE_PATH: &'static str = "/tmp/pomodoro.state";

/// Configuration for one timer invocation: phase lengths in seconds, the
/// path of the state file, and whether to stay in the foreground watching.
pub struct Config {
    pub work_duration: u64,
    pub break_duration: u64,
    pub filepath: String,
    pub watch_timer: bool,
}

impl Config {
    /// Builds a configuration from explicit values.
    pub fn new(work_duration: u64, break_duration: u64, filepath: String, watch_timer: bool) -> (c:
        Config)
        ensures
            c.work_duration == work_duration,
            c.break_duration == break_duration,
            c.filepath@ == filepath@,
            c.watch_timer == watch_timer,
    {
        Config { work_duration, break_duration, filepath, watch_timer }
    }
}

impl Default for Config {
    /// The stock configuration: 25-minute work phases, 5-minute breaks,
    /// the state file under `/tmp`, and watching enabled.
    fn default() -> (c: Config)
        ensures
            c.work_duration == DEFAULT_WORK_DURATION,
            c.break_duration == DEFAULT_BREAK_DURATION,
            c.filepath@ == DEFAULT_STATE_PATH@,
            c.watch_timer == true,
    {
        Config {
            work_duration: DEFAULT_WORK_DURATION,
            break_duration: DEFAULT_BREAK_DURATION,
            filepath: DEFAULT_STATE_PATH.to_owned(),
            watch_timer: true,
        }
    }
}

} // verus!
