use pomodoro::Config;
use pomodoro::PomodoroState;

fn state(start: u64, work: u64, brk: u64, working: bool) -> PomodoroState {
    PomodoroState {
        start_time: start,
        work_duration: work,
        break_duration: brk,
        is_working: working,
        filepath: String::from("/tmp/pomodoro.state"),
    }
}

#[test]
fn remaining_counts_down() {
    let s = state(1000, 1500, 300, true);
    assert_eq!(s.remaining(1000), 1500);
    assert_eq!(s.remaining(1100), 1400);
    assert_eq!(s.remaining(2499), 1);
    assert_eq!(s.remaining(2500), 0);
}

#[test]
fn remaining_never_negative() {
    let s = state(1000, 1500, 300, true);
    assert_eq!(s.remaining(9999), 0);
    let b = state(1000, 1500, 300, false);
    assert_eq!(b.remaining(1300), 0);
    assert_eq!(b.remaining(u64::MAX), 0);
}

#[test]
fn remaining_uses_break_duration_during_break() {
    let s = state(1000, 1500, 300, false);
    assert_eq!(s.remaining(1000), 300);
    assert_eq!(s.remaining(1250), 50);
}

#[test]
fn remaining_clamps_backward_clock() {
    let s = state(1000, 1500, 300, true);
    assert_eq!(s.remaining(500), 1500);
}

#[test]
fn new_starts_working_now() {
    let config = Config::new(600, 120, String::from("/tmp/p.state"), false);
    let s = PomodoroState::new(&config, 42);
    assert_eq!(s.start_time, 42);
    assert_eq!(s.work_duration, 600);
    assert_eq!(s.break_duration, 120);
    assert!(s.is_working);
    assert_eq!(s.filepath, "/tmp/p.state");
}

#[test]
fn format_status_zero_padded() {
    let s = state(0, 1500, 300, true);
    assert_eq!(s.get_formatted_status(0), "Work: 25:00 remaining");
    assert_eq!(s.get_formatted_status(61), "Work: 23:59 remaining");
    assert_eq!(s.get_formatted_status(1495), "Work: 00:05 remaining");
    assert_eq!(s.get_formatted_status(1500), "Work: 00:00 remaining");
}

#[test]
fn format_status_break_label() {
    let s = state(0, 1500, 300, false);
    assert_eq!(s.get_formatted_status(0), "Break: 05:00 remaining");
    assert_eq!(s.get_formatted_status(299), "Break: 00:01 remaining");
}

#[test]
fn format_status_long_phase_keeps_seconds_below_sixty() {
    let s = state(0, 6000, 300, true);
    assert_eq!(s.get_formatted_status(0), "Work: 100:00 remaining");
    assert_eq!(s.get_formatted_status(1), "Work: 99:59 remaining");
}

#[test]
fn advance_before_elapse_changes_nothing() {
    let mut s = state(1000, 1500, 300, true);
    let transitioned = s.advance_if_elapsed(2000);
    assert!(!transitioned);
    assert_eq!(s.start_time, 1000);
    assert!(s.is_working);
    assert_eq!(s.work_duration, 1500);
    assert_eq!(s.break_duration, 300);
}

#[test]
fn advance_on_elapse_flips_phase() {
    let now = 1000;
    let mut s = state(now - 2, 2, 300, true);
    assert_eq!(s.remaining(now), 0);
    let transitioned = s.advance_if_elapsed(now);
    assert!(transitioned);
    assert!(!s.is_working);
    assert_eq!(s.start_time, now);
}

#[test]
fn advance_flips_back_to_work() {
    let mut s = state(0, 1500, 300, false);
    let transitioned = s.advance_if_elapsed(300);
    assert!(transitioned);
    assert!(s.is_working);
    assert_eq!(s.start_time, 300);
}

#[test]
fn watch_tick_reports_status_and_transition() {
    let mut s = state(0, 2, 300, true);
    let tick = s.watch_tick(1);
    assert_eq!(tick.status_line, "Work: 00:01 remaining");
    assert!(!tick.transitioned);
    assert!(tick.notification.is_none());
    assert!(s.is_working);

    let tick = s.watch_tick(2);
    assert_eq!(tick.status_line, "Work: 00:00 remaining");
    assert!(tick.transitioned);
    assert_eq!(tick.notification.as_deref(), Some("Time for a break!"));
    assert!(!s.is_working);
    assert_eq!(s.start_time, 2);

    let tick = s.watch_tick(302);
    assert!(tick.transitioned);
    assert_eq!(tick.notification.as_deref(), Some("Back to work!"));
    assert!(s.is_working);
    assert_eq!(s.start_time, 302);
}
