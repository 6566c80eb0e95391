//! Dispatch of the four commands against the session store.
//!
//! `step` is the whole decision a command invocation makes, as a pure
//! function of the command, what was loaded from the state path, the
//! configuration and the clock: which record to write, whether to delete
//! the file, whether to stay watching, and which line to print.  The
//! surrounding binary only carries these effects out.

use vstd::prelude::*;

use crate::config::Config;
use crate::session::spec_status;
use crate::session::PomodoroState;
use crate::session::SessionData;

verus! {

/// One parsed command-line invocation.  Durations arrive already converted
/// to seconds; absent flags fall back to the configuration.
#[derive(Debug, Clone, Copy, PartialEq, Eq)]
pub enum CliCommand {
    Start { work_duration: Option<u64>, break_duration: Option<u64>, watch_timer: bool },
    Status,
    Stop,
    EnableWatch,
}

/// What a command decided: the record to persist, whether to remove the
/// state file, whether to enter the watch loop, and the line to print.
pub struct CommandEffect {
    pub write: Option<PomodoroState>,
    pub delete_file: bool,
    pub enter_watch: bool,
    pub message: Option<String>,
}

/// A flag's value where given, the configured one otherwise.
pub open spec fn spec_or_default(v: Option<u64>, dflt: u64) -> u64 {
    match v {
        Some(x) => x,
        None => dflt,
    }
}

/// Minutes from the command line as the seconds the session stores;
/// nothing where the product does not fit.
pub fn minutes_to_seconds(minutes: u64) -> (r: Option<u64>)
    ensures
        r matches Some(s) ==> s == minutes * 60,
        r is None <==> minutes * 60 > u64::MAX,
{
    proof {
        assert(minutes <= u64::MAX / 60 ==> minutes * 60 <= u64::MAX) by (nonlinear_arith);
        assert(minutes > u64::MAX / 60 ==> minutes * 60 > u64::MAX) by (nonlinear_arith);
    }
    if minutes <= u64::MAX / 60 {
        Some(minutes * 60)
    } else {
        None
    }
}

/// Performs one command against the loaded state.
///
/// Starting against an active session changes nothing and is silent;
/// starting against none persists a fresh work-phase record with the given
/// or configured durations.  Status reports the countdown or the absence of
/// a session.  Stopping deletes the file only where one was loaded, and
/// otherwise reports that nothing was there to stop, touching nothing.
/// Watching enters the loop only against an active session.
pub fn step(cmd: &CliCommand, loaded: &Option<PomodoroState>, config: &Config, now: u64) -> (r:
    CommandEffect)
    ensures
        cmd matches CliCommand::Start { work_duration, break_duration, watch_timer } ==> (
        loaded is Some ==> (r.write is None && !r.delete_file && !r.enter_watch
            && r.message is None)) && (loaded is None ==> (r.write matches Some(st) && st@ == (
        SessionData {
            start_time: now,
            work_duration: spec_or_default(*work_duration, config.work_duration),
            break_duration: spec_or_default(*break_duration, config.break_duration),
            is_working: true,
            filepath: config.filepath@,
        }) && !r.delete_file && r.enter_watch == *watch_timer && (r.message matches Some(msg)
            && msg@ == "Pomodoro session started."@))),
        cmd matches CliCommand::Status ==> r.write is None && !r.delete_file && !r.enter_watch && (
        loaded matches Some(st) ==> (r.message matches Some(msg) && msg@ == spec_status(st@, now)))
            && (loaded is None ==> (r.message matches Some(msg) && msg@
            == "No active Pomodoro session."@)),
        cmd matches CliCommand::Stop ==> r.write is None && !r.enter_watch && (
        loaded is Some ==> r.delete_file && (r.message matches Some(msg) && msg@
            == "Pomodoro session stopped."@)) && (loaded is None ==> !r.delete_file && (
        r.message matches Some(msg) && msg@ == "No active Pomodoro session to stop."@)),
        cmd matches CliCommand::EnableWatch ==> r.write is None && !r.delete_file && (
        loaded is Some ==> r.enter_watch && r.message is None) && (loaded is None
            ==> !r.enter_watch && (r.message matches Some(msg) && msg@
            == "No active Pomodoro session to watch."@)),
{
    match *cmd {
        CliCommand::Start { work_duration, break_duration, watch_timer } => {
            match loaded {
                Some(_) => CommandEffect {
                    write: None,
                    delete_file: false,
                    enter_watch: false,
                    message: None,
                },
                None => {
                    let work = match work_duration {
                        Some(w) => w,
                        None => config.work_duration,
                    };
                    let brk = match break_duration {
                        Some(b) => b,
                        None => config.break_duration,
                    };
                    let session_config = Config::new(
                        work,
                        brk,
                        config.filepath.clone(),
                        watch_timer,
                    );
                    let st = PomodoroState::new(&session_config, now);
                    CommandEffect {
                        write: Some(st),
                        delete_file: false,
                        enter_watch: watch_timer,
                        message: Some("Pomodoro session started.".to_owned()),
                    }
                },
            }
        },
        CliCommand::Status => {
            let message = match loaded {
                Some(st) => st.get_formatted_status(now),
                None => "No active Pomodoro session.".to_owned(),
            };
            CommandEffect {
                write: None,
                delete_file: false,
                enter_watch: false,
                message: Some(message),
            }
        },
        CliCommand::Stop => {
            match loaded {
                Some(_) => CommandEffect {
                    write: None,
                    delete_file: true,
                    enter_watch: false,
                    message: Some("Pomodoro session stopped.".to_owned()),
                },
                None => CommandEffect {
                    write: None,
                    delete_file: false,
                    enter_watch: false,
                    message: Some("No active Pomodoro session to stop.".to_owned()),
                },
            }
        },
        CliCommand::EnableWatch => {
            match loaded {
                Some(_) => CommandEffect {
                    write: None,
                    delete_file: false,
                    enter_watch: true,
                    message: None,
                },
                None => CommandEffect {
                    write: None,
                    delete_file: false,
                    enter_watch: false,
                    message: Some("No active Pomodoro session to watch.".to_owned()),
                },
            }
        },
    }
}

} // verus!
