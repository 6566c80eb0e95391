//! The session record and the phase clock.
//!
//! A `PomodoroState` describes the current phase of the single session: when
//! the phase began, how long each phase lasts, which phase is running, and
//! where the record is persisted.  The phase clock is a pure function of the
//! record and a caller-supplied wall-clock reading, so every invocation of
//! the program sees the same countdown from the same file.

use vstd::prelude::*;

use crate::config::Config;
use crate::digits::digit_char;
use crate::digits::is_digit_char;
use crate::digits::lemma_dec_digits;
use crate::digits::lemma_dec_shape;
use crate::digits::push_two_digit;
use crate::digits::spec_dec;
use crate::digits::spec_two_digit;
use crate::text::append_str_chars;
use crate::text::chars_to_string;

verus! {

/// Mathematical model of a session record: the same fields, with the path
/// abstracted to its character sequence.
pub ghost struct SessionData {
    pub start_time: u64,
    pub work_duration: u64,
    pub break_duration: u64,
    pub is_working: bool,
    pub filepath: Seq<char>,
}

/// The persisted session record.  Its presence at the configured path is
/// what "an active session" means.
#[derive(Debug)]
pub struct PomodoroState {
    /// Unix timestamp (seconds) of the beginning of the current phase.
    pub start_time: u64,
    /// Length of a work phase, in seconds.
    pub work_duration: u64,
    /// Length of a break phase, in seconds.
    pub break_duration: u64,
    /// True during a work phase, false during a break.
    pub is_working: bool,
    /// Where the record is persisted.
    pub filepath: String,
}

impl View for PomodoroState {
    type V = SessionData;

    open spec fn view(&self) -> SessionData {
        SessionData {
            start_time: self.start_time,
            work_duration: self.work_duration,
            break_duration: self.break_duration,
            is_working: self.is_working,
            filepath: self.filepath@,
        }
    }
}

/// Length of the phase the session is currently in.
pub open spec fn spec_phase_duration(m: SessionData) -> u64 {
    if m.is_working {
        m.work_duration
    } else {
        m.break_duration
    }
}

/// Seconds elapsed since the phase began, clamped to zero when the clock
/// reads earlier than the recorded start (a clock that moved backward).
pub open spec fn spec_elapsed(m: SessionData, now: u64) -> int {
    if now >= m.start_time {
        now - m.start_time
    } else {
        0
    }
}

/// Seconds left in the current phase: the phase length minus the elapsed
/// time, floored at zero.
pub open spec fn spec_remaining(m: SessionData, now: u64) -> int {
    if spec_phase_duration(m) - spec_elapsed(m, now) >= 0 {
        spec_phase_duration(m) - spec_elapsed(m, now)
    } else {
        0
    }
}

/// The remaining time is exactly `max(0, duration - elapsed)`, and in
/// particular never negative, whatever the clock reads.
pub proof fn lemma_remaining_clamped(m: SessionData, now: u64)
    ensures
        spec_remaining(m, now) == vstd::math::max(
            spec_phase_duration(m) - spec_elapsed(m, now),
            0,
        ),
        spec_remaining(m, now) >= 0,
        spec_remaining(m, now) <= spec_phase_duration(m),
{
}

/// What one pass of the watch loop found and did.
pub struct WatchTick {
    /// The countdown line for the phase the session was in.
    pub status_line: String,
    /// Whether this pass flipped the phase.
    pub transitioned: bool,
    /// The notification body owed for the flip, present exactly when one
    /// happened.
    pub notification: Option<String>,
}

/// The label that opens the status line.
pub open spec fn spec_phase_label(is_working: bool) -> Seq<char> {
    if is_working {
        "Work: "@
    } else {
        "Break: "@
    }
}

/// The status line: phase label, minutes and seconds remaining, each
/// zero-padded to at least two digits, with the seconds below sixty.
pub open spec fn spec_status(m: SessionData, now: u64) -> Seq<char> {
    let rem = spec_remaining(m, now);
    spec_phase_label(m.is_working) + spec_two_digit((rem / 60) as nat) + seq![':']
        + spec_two_digit((rem % 60) as nat) + " remaining"@
}

/// The notification body for a phase transition, by the phase that ended.
pub open spec fn spec_notification(was_working: bool) -> Seq<char> {
    if was_working {
        "Time for a break!"@
    } else {
        "Back to work!"@
    }
}

/// The status line always shows minutes and seconds zero-padded to two
/// digits, with a second count below sixty: its tail is exactly a digit
/// block of at least two digits, a colon, and two digits worth less than
/// sixty seconds.
pub proof fn lemma_status_shape(m: SessionData, now: u64)
    ensures
        ({
            let rem = spec_remaining(m, now);
            let mm = (rem / 60) as nat;
            let ss = (rem % 60) as nat;
            &&& 0 <= ss < 60
            &&& spec_status(m, now) == spec_phase_label(m.is_working) + spec_two_digit(mm)
                + seq![':'] + spec_two_digit(ss) + " remaining"@
            &&& spec_two_digit(ss) == seq![
                digit_char((ss / 10) as nat),
                digit_char((ss % 10) as nat),
            ]
            &&& spec_two_digit(ss).len() == 2
            &&& spec_two_digit(mm).len() >= 2
            &&& forall|i: int|
                0 <= i < spec_two_digit(mm).len() ==> is_digit_char(
                    #[trigger] spec_two_digit(mm)[i],
                )
            &&& forall|i: int|
                0 <= i < spec_two_digit(ss).len() ==> is_digit_char(
                    #[trigger] spec_two_digit(ss)[i],
                )
        }),
{
    lemma_remaining_clamped(m, now);
    let rem = spec_remaining(m, now);
    let mm = (rem / 60) as nat;
    let ss = (rem % 60) as nat;
    lemma_dec_digits(mm);
    lemma_dec_digits(ss);
    lemma_dec_shape(mm);
    lemma_dec_shape(ss);
    crate::digits::lemma_digit_char_val((mm % 10) as nat);
    crate::digits::lemma_digit_char_val((ss % 10) as nat);
    if ss < 10 {
        assert(spec_two_digit(ss) =~= seq![
            digit_char((ss / 10) as nat),
            digit_char((ss % 10) as nat),
        ]);
    } else {
        assert(spec_dec(ss) == spec_dec(ss / 10).push(digit_char(ss % 10)));
        assert(spec_dec(ss / 10) == seq![digit_char(ss / 10)]);
        assert(spec_two_digit(ss) =~= seq![
            digit_char((ss / 10) as nat),
            digit_char((ss % 10) as nat),
        ]);
    }
    if mm < 10 {
        assert(spec_two_digit(mm) == seq!['0', digit_char(mm)]);
        assert(is_digit_char('0'));
        crate::digits::lemma_digit_char_val(mm);
        assert(forall|i: int|
            0 <= i < spec_two_digit(mm).len() ==> is_digit_char(#[trigger] spec_two_digit(mm)[i]));
    }
}

impl PomodoroState {
    /// Builds the record for a session that starts now, in a work phase,
    /// with the durations and path of the given configuration.
    pub fn new(config: &Config, now: u64) -> (s: PomodoroState)
        ensures
            s@ == (SessionData {
                start_time: now,
                work_duration: config.work_duration,
                break_duration: config.break_duration,
                is_working: true,
                filepath: config.filepath@,
            }),
    {
        PomodoroState {
            start_time: now,
            work_duration: config.work_duration,
            break_duration: config.break_duration,
            is_working: true,
            filepath: config.filepath.clone(),
        }
    }

    /// Seconds left in the current phase at time `now`.
    pub fn remaining(&self, now: u64) -> (r: u64)
        ensures
            r == spec_remaining(self@, now),
    {
        let duration = if self.is_working {
            self.work_duration
        } else {
            self.break_duration
        };
        let elapsed = if now >= self.start_time {
            now - self.start_time
        } else {
            0
        };
        if duration >= elapsed {
            duration - elapsed
        } else {
            0
        }
    }

    /// The status line for this record at time `now`.
    pub fn get_formatted_status(&self, now: u64) -> (s: String)
        ensures
            s@ == spec_status(self@, now),
    {
        let rem = self.remaining(now);
        let mut out: Vec<char> = Vec::new();
        if self.is_working {
            append_str_chars(&mut out, "Work: ");
        } else {
            append_str_chars(&mut out, "Break: ");
        }
        push_two_digit(&mut out, rem / 60);
        out.push(':');
        push_two_digit(&mut out, rem % 60);
        append_str_chars(&mut out, " remaining");
        proof {
            assert(out@ =~= spec_status(self@, now));
        }
        chars_to_string(&out)
    }

    /// One pass of the watch loop at time `now`: the status line for the
    /// phase as it stood, the transition applied when that phase had run
    /// out, and the notification body owed exactly on that edge.
    pub fn watch_tick(&mut self, now: u64) -> (r: WatchTick)
        ensures
            r.status_line@ == spec_status(old(self)@, now),
            r.transitioned == (spec_remaining(old(self)@, now) == 0),
            r.transitioned ==> final(self)@ == (SessionData {
                start_time: now,
                is_working: !old(self)@.is_working,
                ..old(self)@
            }) && (r.notification matches Some(msg) && msg@ == spec_notification(
                old(self)@.is_working,
            )),
            !r.transitioned ==> final(self)@ == old(self)@ && r.notification is None,
    {
        let status_line = self.get_formatted_status(now);
        let ghost was_working = self@.is_working;
        let transitioned = self.advance_if_elapsed(now);
        let notification = if transitioned {
            if self.is_working {
                proof {
                    assert(!was_working);
                }
                Some("Back to work!".to_owned())
            } else {
                Some("Time for a break!".to_owned())
            }
        } else {
            None
        };
        WatchTick { status_line, transitioned, notification }
    }

    /// Flips the phase when the current one has run out.  Returns whether a
    /// transition happened, so a caller can persist the record and raise a
    /// notification exactly on the edge.  When time remains, the record is
    /// left untouched in every field.
    pub fn advance_if_elapsed(&mut self, now: u64) -> (transitioned: bool)
        ensures
            transitioned == (spec_remaining(old(self)@, now) == 0),
            transitioned ==> final(self)@ == (SessionData {
                start_time: now,
                is_working: !old(self)@.is_working,
                ..old(self)@
            }),
            !transitioned ==> final(self)@ == old(self)@,
    {
        if self.remaining(now) == 0 {
            self.is_working = !self.is_working;
            self.start_time = now;
            true
        } else {
            false
        }
    }
}

} // verus!
