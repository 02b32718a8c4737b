use soundcheck::state::{AppState, SharedState};

#[test]
fn shared_state_starts_at_the_floor() {
    let state = SharedState::new(3);
    assert_eq!(state.current_db, vec![-60000; 3]);
    assert_eq!(state.smoothed_db, vec![-60000; 3]);
    assert_eq!(state.display_db, vec![-60000; 3]);
    assert_eq!(state.threshold_reached, vec![false; 3]);
    let empty = SharedState::new(0);
    assert!(empty.current_db.is_empty() && empty.threshold_reached.is_empty());
}

#[test]
fn loud_buffer_trips_and_stays_tripped() {
    // Full scale is 1_000_000; -10 dB is about 316_228.
    let threshold = 316_228;
    let mut state = SharedState::new(1);
    state.publish(&[100_000], &[-20000], threshold);
    assert_eq!(state.threshold_reached, vec![false]);
    state.publish(&[500_000], &[-6021], threshold);
    assert_eq!(state.threshold_reached, vec![true]);
    assert_eq!(state.current_db, vec![-6021]);
    for _ in 0..50 {
        state.publish(&[0], &[0], threshold);
        assert_eq!(state.threshold_reached, vec![true]);
        assert_eq!(state.current_db, vec![-60000]);
    }
}

#[test]
fn peak_at_the_threshold_does_not_trip() {
    let mut state = SharedState::new(2);
    state.publish(&[316_228, 316_229], &[-10000, -10000], 316_228);
    assert_eq!(state.threshold_reached, vec![false, true]);
}

#[test]
fn publish_smooths_in_two_stages() {
    let mut state = SharedState::new(2);
    state.publish(&[1, 0], &[-20000, -20000], 10);
    assert_eq!(state.current_db, vec![-20000, -60000]);
    assert_eq!(state.smoothed_db, vec![-44000, -60000]);
    assert_eq!(state.display_db, vec![-57600, -60000]);
    state.publish(&[1, 0], &[-20000, -20000], 10);
    assert_eq!(state.smoothed_db, vec![-34400, -60000]);
    assert_eq!(state.display_db, vec![-54120, -60000]);
}

#[test]
fn current_level_is_never_smoothed() {
    let mut state = SharedState::new(1);
    state.publish(&[9], &[-1000], 100);
    assert_eq!(state.current_db, vec![-1000]);
    state.publish(&[9], &[-59000], 100);
    assert_eq!(state.current_db, vec![-59000]);
}

#[test]
fn app_state_starts_with_a_status_line() {
    let state = AppState::new("USB Mic".to_string(), -10, 2);
    assert_eq!(state.device_name, "USB Mic");
    assert_eq!(state.threshold_db, -10);
    assert_eq!(state.status, "Monitoring USB Mic... Press Ctrl+C or Escape to quit.");
    assert_eq!(state.current_db, vec![-60000, -60000]);
    assert_eq!(state.smoothed_db, vec![-60000, -60000]);
    assert_eq!(state.display_db, vec![-60000, -60000]);
    assert_eq!(state.threshold_reached, vec![false, false]);
}

#[test]
fn app_state_takes_a_snapshot() {
    let mut shared = SharedState::new(2);
    shared.publish(&[5, 500], &[-40000, -3000], 100);
    let mut state = AppState::new("mic".to_string(), 0, 2);
    state.update_from_audio(&shared);
    assert_eq!(state.current_db, vec![-40000, -3000]);
    assert_eq!(state.smoothed_db, shared.smoothed_db);
    assert_eq!(state.display_db, shared.display_db);
    assert_eq!(state.threshold_reached, vec![false, true]);
    assert_eq!(state.device_name, "mic");
    assert_eq!(state.threshold_db, 0);
    assert_eq!(state.status, "Monitoring mic... Press Ctrl+C or Escape to quit.");
}

#[test]
fn ui_state_copies_what_is_shown() {
    let mut shared = SharedState::new(2);
    shared.publish(&[5, 500], &[-40000, -3000], 100);
    let mut state = AppState::new("mic".to_string(), -12, 2);
    state.update_from_audio(&shared);
    let shown = state.ui_state();
    assert_eq!(shown.device_name, "mic");
    assert_eq!(shown.current_db, vec![-40000, -3000]);
    assert_eq!(shown.display_db, shared.display_db);
    assert_eq!(shown.threshold_db, -12);
    assert_eq!(shown.status, "Monitoring mic... Press Ctrl+C or Escape to quit.");
}
