use soundcheck::error::AppError;
use soundcheck::monitor::{
    any_threshold_reached, ends_measurement, tripped_channels, AverageSession, ChannelTally,
    DetectState, ExitCode, Key, KeyPress, MaxSession, RunResult, TickEvents,
};

fn quiet() -> TickEvents {
    TickEvents { interrupted: false, key: None }
}

fn pressed(key: Key, control: bool) -> TickEvents {
    TickEvents { interrupted: false, key: Some(KeyPress { key, control }) }
}

#[test]
fn exit_codes() {
    assert_eq!(ExitCode::Success.code(), 0);
    assert_eq!(ExitCode::UserExit.code(), 1);
    assert_eq!(ExitCode::Error.code(), 2);
}

#[test]
fn run_results() {
    let done = RunResult::completed(ExitCode::UserExit);
    assert!(done.result.is_ok());
    assert_eq!(done.exit_code, ExitCode::UserExit);
    let failed = RunResult::failed(AppError::AudioStream("no stream".to_string()));
    assert_eq!(failed.exit_code, ExitCode::Error);
    assert!(matches!(failed.result, Err(AppError::AudioStream(ref text)) if text == "no stream"));
}

#[test]
fn keys_that_cancel_and_confirm() {
    assert!(KeyPress { key: Key::Esc, control: false }.is_cancel());
    assert!(KeyPress { key: Key::Char('c'), control: true }.is_cancel());
    assert!(!KeyPress { key: Key::Char('c'), control: false }.is_cancel());
    assert!(!KeyPress { key: Key::Char('x'), control: true }.is_cancel());
    assert!(!KeyPress { key: Key::Enter, control: false }.is_cancel());
    assert!(!KeyPress { key: Key::Other, control: true }.is_cancel());

    assert!(KeyPress { key: Key::Enter, control: false }.is_confirm());
    assert!(KeyPress { key: Key::Char('c'), control: true }.is_confirm());
    assert!(!KeyPress { key: Key::Esc, control: false }.is_confirm());
    assert!(!KeyPress { key: Key::Char('c'), control: false }.is_confirm());
}

#[test]
fn flags_of_channels() {
    assert!(!any_threshold_reached(&[]));
    assert!(!any_threshold_reached(&[false, false]));
    assert!(any_threshold_reached(&[false, true]));
    assert_eq!(tripped_channels(&[]), Vec::<usize>::new());
    assert_eq!(tripped_channels(&[false, true, false, true]), vec![1, 3]);
    assert_eq!(tripped_channels(&[true]), vec![0]);
}

#[test]
fn detection_runs_until_a_flag_is_set() {
    let mut state = DetectState::start();
    assert_eq!(state, DetectState::Running);
    assert_eq!(state.exit_code(), None);
    state = state.tick(&[false, false], &quiet());
    assert_eq!(state, DetectState::Running);
    state = state.tick(&[false, false], &pressed(Key::Enter, false));
    assert_eq!(state, DetectState::Running);
    state = state.tick(&[false, true], &quiet());
    assert_eq!(state, DetectState::Tripped);
    assert_eq!(state.exit_code(), Some(ExitCode::Success));
    state = state.tick(&[false, false], &pressed(Key::Esc, false));
    assert_eq!(state, DetectState::Tripped);
}

#[test]
fn detection_is_cancelled() {
    let by_key = DetectState::start().tick(&[false], &pressed(Key::Esc, false));
    assert_eq!(by_key, DetectState::Cancelled);
    assert_eq!(by_key.exit_code(), Some(ExitCode::UserExit));
    let by_control_c = DetectState::start().tick(&[false], &pressed(Key::Char('c'), true));
    assert_eq!(by_control_c, DetectState::Cancelled);
    let by_signal =
        DetectState::start().tick(&[false], &TickEvents { interrupted: true, key: None });
    assert_eq!(by_signal, DetectState::Cancelled);
    assert_eq!(by_signal.tick(&[true], &quiet()), DetectState::Cancelled);
}

#[test]
fn a_set_flag_counts_before_a_cancellation() {
    let state = DetectState::start().tick(&[true], &pressed(Key::Esc, false));
    assert_eq!(state, DetectState::Tripped);
}

#[test]
fn end_of_a_measurement() {
    assert!(!ends_measurement(None, u64::MAX, &quiet()));
    assert!(!ends_measurement(Some(1000), 999, &quiet()));
    assert!(ends_measurement(Some(1000), 1000, &quiet()));
    assert!(ends_measurement(Some(1000), 0, &pressed(Key::Enter, false)));
    assert!(ends_measurement(None, 0, &pressed(Key::Char('c'), true)));
    assert!(!ends_measurement(None, 0, &pressed(Key::Esc, false)));
    assert!(ends_measurement(None, 0, &TickEvents { interrupted: true, key: None }));
}

#[test]
fn max_without_a_tick_reports_the_floor() {
    let session = MaxSession::new(3, Some(5000));
    assert!(!session.is_done());
    assert_eq!(session.max_levels(), vec![-60000, -60000, -60000]);
}

#[test]
fn max_keeps_the_highest_level() {
    let mut session = MaxSession::new(2, Some(30));
    assert!(session.tick(&[-20000, -70000], 0, &quiet()));
    assert_eq!(session.max_levels(), vec![-20000, -60000]);
    assert!(session.tick(&[-10000, -50000], 10, &quiet()));
    assert!(session.tick(&[-30000, -55000], 20, &quiet()));
    assert_eq!(session.max_levels(), vec![-10000, -50000]);
    assert!(!session.tick(&[-5000, -40000], 30, &quiet()));
    assert!(session.is_done());
    assert_eq!(session.max_levels(), vec![-5000, -40000]);
    assert!(!session.tick(&[0, 0], 40, &quiet()));
    assert_eq!(session.max_levels(), vec![-5000, -40000]);
}

#[test]
fn max_ends_on_enter() {
    let mut session = MaxSession::new(1, None);
    assert!(session.tick(&[-100], 1_000_000, &pressed(Key::Esc, false)));
    assert!(!session.tick(&[-200], 1_000_010, &pressed(Key::Enter, false)));
    assert_eq!(session.max_levels(), vec![-100]);
}

#[test]
fn average_without_a_tick_reports_zero() {
    let session = AverageSession::new(2, None);
    assert!(!session.is_done());
    assert!(session.can_tick());
    assert_eq!(session.averages(), vec![0, 0]);
}

#[test]
fn average_of_three_ticks() {
    let mut session = AverageSession::new(1, None);
    assert!(session.tick(&[-20000], 0, &quiet()));
    assert!(session.tick(&[-10000], 10, &quiet()));
    assert!(session.tick(&[-30000], 20, &quiet()));
    assert_eq!(session.averages(), vec![-20000]);
}

#[test]
fn average_ends_when_the_duration_has_elapsed() {
    let mut session = AverageSession::new(2, Some(20));
    assert!(session.tick(&[-1000, 0], 0, &quiet()));
    assert!(session.tick(&[-2000, 0], 10, &quiet()));
    assert!(!session.tick(&[-6000, 3], 20, &quiet()));
    assert!(session.is_done());
    assert_eq!(session.averages(), vec![-3000, 1]);
    assert!(!session.tick(&[-90000, 900], 30, &quiet()));
    assert_eq!(session.averages(), vec![-3000, 1]);
}

#[test]
fn mean_rounds_down() {
    let tally = ChannelTally::new().with(-2).with(-3);
    assert_eq!(tally.mean(), -3);
    let tally = ChannelTally::new().with(2).with(3);
    assert_eq!(tally.mean(), 2);
    assert_eq!(ChannelTally::new().mean(), 0);
    assert!(ChannelTally::new().has_room());
}

#[test]
fn mean_at_the_limits() {
    let low = ChannelTally::new().with(i32::MIN).with(i32::MIN).with(i32::MIN);
    assert_eq!(low.mean(), i32::MIN);
    let high = ChannelTally::new().with(i32::MAX).with(i32::MAX);
    assert_eq!(high.mean(), i32::MAX);
    let mixed = ChannelTally::new().with(i32::MIN).with(i32::MAX);
    assert_eq!(mixed.mean(), -1);
}
