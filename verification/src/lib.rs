//! A terminal Pomodoro timer library.
//!
//! The library holds everything the timer decides and computes: the session
//! record and its JSON encoding, the phase clock that turns wall-clock time
//! into a countdown, and the dispatch of the four commands (start, status,
//! stop, watch) into effects on the state file.  Reading the clock, touching
//! the filesystem and showing notifications are left to the surrounding
//! binary, which hands plain values in and carries the returned effects out.

use vstd::prelude::*;

mod codec;
mod command;
mod config;
mod digits;
mod escape;
mod seqs;
mod session;
mod text;

pub use codec::spec_bool;
pub use codec::spec_render;
pub use codec::lemma_render_fields;
pub use codec::lemma_render_injective;
pub use codec::StateError;
pub use command::minutes_to_seconds;
pub use command::spec_or_default;
pub use command::step;
pub use command::CliCommand;
pub use command::CommandEffect;
pub use config::Config;
pub use config::DEFAULT_BREAK_DURATION;
pub use config::DEFAULT_STATE_PATH;
pub use config::DEFAULT_WORK_DURATION;
pub use session::lemma_remaining_clamped;
pub use session::lemma_status_shape;
pub use session::spec_elapsed;
pub use session::spec_notification;
pub use session::spec_phase_duration;
pub use session::spec_phase_label;
pub use session::spec_remaining;
pub use session::spec_status;
pub use session::PomodoroState;
pub use session::SessionData;
pub use session::WatchTick;

verus! {

} // verus!
