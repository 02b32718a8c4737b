use soundcheck::audio::create_audio_callback;
use soundcheck::monitor::{AverageSession, DetectState, ExitCode, MaxSession, TickEvents};
use soundcheck::state::{AppState, SharedState};

// Samples arrive as floating-point numbers. A sample is handed to the
// analysis as a signed integer whose magnitude is the bit pattern of its
// absolute value: for magnitudes that order is the order of the numbers.

fn encode_sample(sample: f32) -> i32 {
    if sample.is_nan() {
        return 0;
    }
    let magnitude = sample.abs().to_bits() as i32;
    if sample < 0.0 {
        -magnitude
    } else {
        magnitude
    }
}

fn encode_buffer(samples: &[f32]) -> Vec<i32> {
    samples.iter().map(|&sample| encode_sample(sample)).collect()
}

fn linear_threshold(threshold_db: i32) -> u32 {
    10.0f32.powf(threshold_db as f32 / 20.0).to_bits()
}

fn measured_level(peak: u32) -> i32 {
    (20.0 * f32::from_bits(peak).log10() * 1000.0).round() as i32
}

fn quiet() -> TickEvents {
    TickEvents { interrupted: false, key: None }
}

#[test]
fn half_scale_exceeds_minus_ten_decibels() {
    let callback = create_audio_callback(linear_threshold(-10), &[0], 1);
    let mut state = SharedState::new(1);
    callback.process(&mut state, &encode_buffer(&[0.1, -0.2, 0.3]), measured_level);
    assert_eq!(state.threshold_reached, vec![false]);
    callback.process(&mut state, &encode_buffer(&[0.1, -0.5, 0.3]), measured_level);
    assert_eq!(state.threshold_reached, vec![true]);
    assert_eq!(state.current_db, vec![-6021]);
    for _ in 0..20 {
        callback.process(&mut state, &encode_buffer(&[0.0, 0.0]), measured_level);
        assert_eq!(state.threshold_reached, vec![true]);
        assert_eq!(state.current_db, vec![-60000]);
    }
}

#[test]
fn loud_and_silent_channels_differ() {
    let callback = create_audio_callback(linear_threshold(0), &[0, 2], 3);
    let mut state = SharedState::new(2);
    let buffer = encode_buffer(&[1.0, f32::MAX, 0.0, -0.25, f32::MIN, 0.0]);
    callback.process(&mut state, &buffer, measured_level);
    assert_eq!(state.current_db, vec![0, -60000]);
    assert_ne!(state.current_db[0], state.current_db[1]);
    // Full scale does not exceed a threshold of 0 dB.
    assert_eq!(state.threshold_reached, vec![false, false]);
}

#[test]
fn a_transient_above_full_scale_is_reported() {
    let callback = create_audio_callback(linear_threshold(0), &[0], 1);
    let mut state = SharedState::new(1);
    callback.process(&mut state, &encode_buffer(&[2.0, f32::NAN]), measured_level);
    assert_eq!(state.current_db, vec![6021]);
    assert_eq!(state.threshold_reached, vec![true]);
}

#[test]
fn detection_ends_on_the_loud_buffer() {
    let callback = create_audio_callback(linear_threshold(-10), &[0], 1);
    let mut shared = SharedState::new(1);
    let mut snapshot = AppState::new("mic".to_string(), -10, 1);
    let mut detection = DetectState::start();

    callback.process(&mut shared, &encode_buffer(&[0.01]), measured_level);
    snapshot.update_from_audio(&shared);
    detection = detection.tick(&snapshot.threshold_reached, &quiet());
    assert_eq!(detection.exit_code(), None);

    callback.process(&mut shared, &encode_buffer(&[0.5]), measured_level);
    callback.process(&mut shared, &encode_buffer(&[0.0]), measured_level);
    snapshot.update_from_audio(&shared);
    detection = detection.tick(&snapshot.threshold_reached, &quiet());
    assert_eq!(detection, DetectState::Tripped);
    assert_eq!(detection.exit_code(), Some(ExitCode::Success));
}

#[test]
fn measurements_read_the_current_level_not_the_smoothed() {
    let callback = create_audio_callback(linear_threshold(0), &[0], 1);
    let mut shared = SharedState::new(1);
    let mut snapshot = AppState::new("mic".to_string(), 0, 1);
    let mut highest = MaxSession::new(1, None);
    let mut average = AverageSession::new(1, None);
    for (tick, sample) in [0.1f32, 0.31622776, 0.031622776].iter().enumerate() {
        callback.process(&mut shared, &encode_buffer(&[*sample]), measured_level);
        snapshot.update_from_audio(&shared);
        let elapsed_ms = 10 * tick as u64;
        assert!(highest.tick(&snapshot.current_db, elapsed_ms, &quiet()));
        assert!(average.can_tick());
        assert!(average.tick(&snapshot.current_db, elapsed_ms, &quiet()));
    }
    assert_eq!(highest.max_levels(), vec![-10000]);
    assert_eq!(average.averages(), vec![-20000]);
    assert!(shared.display_db[0] < -40000);
}
