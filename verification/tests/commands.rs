use pomodoro::minutes_to_seconds;
use pomodoro::step;
use pomodoro::CliCommand;
use pomodoro::Config;
use pomodoro::PomodoroState;

fn config() -> Config {
    Config::new(1500, 300, String::from("/tmp/pomodoro.state"), true)
}

fn active_session(now: u64) -> PomodoroState {
    PomodoroState::new(&config(), now)
}

#[test]
fn defaults_match_stock_configuration() {
    let c = Config::default();
    assert_eq!(c.work_duration, 1500);
    assert_eq!(c.break_duration, 300);
    assert_eq!(c.filepath, "/tmp/pomodoro.state");
    assert!(c.watch_timer);
}

#[test]
fn minutes_convert_to_seconds() {
    assert_eq!(minutes_to_seconds(10), Some(600));
    assert_eq!(minutes_to_seconds(2), Some(120));
    assert_eq!(minutes_to_seconds(0), Some(0));
    assert_eq!(minutes_to_seconds(u64::MAX), None);
}

#[test]
fn start_with_flags_persists_converted_durations() {
    let cmd = CliCommand::Start {
        work_duration: minutes_to_seconds(10),
        break_duration: minutes_to_seconds(2),
        watch_timer: false,
    };
    let effect = step(&cmd, &None, &config(), 77);
    let written = effect.write.expect("a fresh session must be persisted");
    assert_eq!(written.work_duration, 600);
    assert_eq!(written.break_duration, 120);
    assert_eq!(written.start_time, 77);
    assert!(written.is_working);
    assert_eq!(written.filepath, "/tmp/pomodoro.state");
    assert!(!effect.delete_file);
    assert!(!effect.enter_watch);
    assert_eq!(effect.message.as_deref(), Some("Pomodoro session started."));
}

#[test]
fn start_without_flags_uses_configured_durations() {
    let cmd = CliCommand::Start { work_duration: None, break_duration: None, watch_timer: true };
    let effect = step(&cmd, &None, &config(), 5);
    let written = effect.write.expect("a fresh session must be persisted");
    assert_eq!(written.work_duration, 1500);
    assert_eq!(written.break_duration, 300);
    assert!(effect.enter_watch);
}

#[test]
fn start_when_active_is_a_no_op() {
    let cmd = CliCommand::Start {
        work_duration: Some(600),
        break_duration: Some(120),
        watch_timer: true,
    };
    let effect = step(&cmd, &Some(active_session(1)), &config(), 99);
    assert!(effect.write.is_none());
    assert!(!effect.delete_file);
    assert!(!effect.enter_watch);
    assert!(effect.message.is_none());
}

#[test]
fn status_reports_countdown_or_absence() {
    let effect = step(&CliCommand::Status, &Some(active_session(0)), &config(), 60);
    assert_eq!(effect.message.as_deref(), Some("Work: 24:00 remaining"));
    assert!(effect.write.is_none());
    assert!(!effect.delete_file);

    let effect = step(&CliCommand::Status, &None, &config(), 60);
    assert_eq!(effect.message.as_deref(), Some("No active Pomodoro session."));
}

#[test]
fn stop_deletes_only_an_active_session() {
    let effect = step(&CliCommand::Stop, &Some(active_session(0)), &config(), 1);
    assert!(effect.delete_file);
    assert_eq!(effect.message.as_deref(), Some("Pomodoro session stopped."));

    let effect = step(&CliCommand::Stop, &None, &config(), 1);
    assert!(!effect.delete_file);
    assert!(effect.write.is_none());
    assert!(!effect.enter_watch);
    assert_eq!(effect.message.as_deref(), Some("No active Pomodoro session to stop."));
}

#[test]
fn watch_needs_an_active_session() {
    let effect = step(&CliCommand::EnableWatch, &Some(active_session(0)), &config(), 1);
    assert!(effect.enter_watch);
    assert!(effect.message.is_none());

    let effect = step(&CliCommand::EnableWatch, &None, &config(), 1);
    assert!(!effect.enter_watch);
    assert_eq!(effect.message.as_deref(), Some("No active Pomodoro session to watch."));
}
