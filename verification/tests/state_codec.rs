use pomodoro::PomodoroState;
use pomodoro::StateError;

fn state(start: u64, work: u64, brk: u64, working: bool, path: &str) -> PomodoroState {
    PomodoroState {
        start_time: start,
        work_duration: work,
        break_duration: brk,
        is_working: working,
        filepath: String::from(path),
    }
}

fn assert_round_trip(s: &PomodoroState) {
    let text = s.to_json();
    let back = PomodoroState::from_json(&text).expect("own rendering must load");
    assert_eq!(back.start_time, s.start_time);
    assert_eq!(back.work_duration, s.work_duration);
    assert_eq!(back.break_duration, s.break_duration);
    assert_eq!(back.is_working, s.is_working);
    assert_eq!(back.filepath, s.filepath);
}

#[test]
fn to_json_exact_text() {
    let s = state(1700000000, 1500, 300, true, "/tmp/pomodoro.state");
    assert_eq!(
        s.to_json(),
        "{\"start_time\":1700000000,\"work_duration\":1500,\"break_duration\":300,\"is_working\":true,\"filepath\":\"/tmp/pomodoro.state\"}"
    );
}

#[test]
fn to_json_escapes_path() {
    let s = state(0, 1, 2, false, "a\"b\\c\nd");
    assert_eq!(
        s.to_json(),
        "{\"start_time\":0,\"work_duration\":1,\"break_duration\":2,\"is_working\":false,\"filepath\":\"a\\\"b\\\\c\\u000ad\"}"
    );
}

#[test]
fn round_trip_plain() {
    assert_round_trip(&state(1700000000, 1500, 300, true, "/tmp/pomodoro.state"));
    assert_round_trip(&state(0, 0, 0, false, ""));
    assert_round_trip(&state(u64::MAX, u64::MAX, u64::MAX, true, "x"));
}

#[test]
fn round_trip_awkward_paths() {
    assert_round_trip(&state(7, 8, 9, false, "C:\\Users\\p o m\\state \"v1\".json"));
    assert_round_trip(&state(1, 2, 3, true, "tab\tnewline\ncr\rbell\u{7}nul\u{0}"));
    assert_round_trip(&state(4, 5, 6, false, "unicode \u{e9}\u{4e16}\u{754c} path"));
}

#[test]
fn own_rendering_is_valid_json_for_serde() {
    let s = state(1700000000, 1500, 300, true, "a\"b\\c\u{1}d");
    let text = s.to_json();
    let v: serde_json::Value = serde_json::from_str(&text).expect("rendered text must be JSON");
    assert_eq!(v["start_time"].as_u64(), Some(1700000000));
    assert_eq!(v["work_duration"].as_u64(), Some(1500));
    assert_eq!(v["break_duration"].as_u64(), Some(300));
    assert_eq!(v["is_working"].as_bool(), Some(true));
    assert_eq!(v["filepath"].as_str(), Some("a\"b\\c\u{1}d"));
}

#[test]
fn invalid_json_is_an_error_not_absence() {
    let r = PomodoroState::load(&Some(String::from("not json at all")));
    assert!(matches!(r, Err(StateError::DecodeError)));
    let r = PomodoroState::load(&Some(String::from("{\"start_time\":}")));
    assert!(matches!(r, Err(StateError::DecodeError)));
    let r = PomodoroState::load(&Some(String::from("")));
    assert!(matches!(r, Err(StateError::DecodeError)));
}

#[test]
fn from_json_rejects_broken_records() {
    assert!(PomodoroState::from_json("{\"start_time\":1,\"work_duration\":2}").is_err());
    assert!(
        PomodoroState::from_json(
            "{\"start_time\":1,\"work_duration\":2,\"break_duration\":3,\"is_working\":maybe,\"filepath\":\"x\"}"
        )
        .is_err()
    );
    assert!(
        PomodoroState::from_json(
            "{\"start_time\":1,\"work_duration\":2,\"break_duration\":3,\"is_working\":true,\"filepath\":\"x\"} "
        )
        .is_err()
    );
    assert!(
        PomodoroState::from_json(
            "{\"start_time\":99999999999999999999999,\"work_duration\":2,\"break_duration\":3,\"is_working\":true,\"filepath\":\"x\"}"
        )
        .is_err()
    );
}

#[test]
fn load_none_is_no_session() {
    let r = PomodoroState::load(&None);
    assert!(matches!(r, Ok(None)));
}

#[test]
fn load_some_valid_text_yields_record() {
    let s = state(123, 456, 789, false, "/tmp/x");
    let r = PomodoroState::load(&Some(s.to_json()));
    match r {
        Ok(Some(back)) => {
            assert_eq!(back.start_time, 123);
            assert_eq!(back.work_duration, 456);
            assert_eq!(back.break_duration, 789);
            assert!(!back.is_working);
            assert_eq!(back.filepath, "/tmp/x");
        }
        other => panic!("expected a record, got {:?}", other.map(|o| o.is_some())),
    }
}

#[test]
fn is_active_false_exactly_without_file() {
    assert_eq!(PomodoroState::is_active(&None), Ok(false));
    let s = state(1, 2, 3, true, "p");
    assert_eq!(PomodoroState::is_active(&Some(s.to_json())), Ok(true));
    assert_eq!(
        PomodoroState::is_active(&Some(String::from("garbage"))),
        Err(StateError::DecodeError)
    );
}
