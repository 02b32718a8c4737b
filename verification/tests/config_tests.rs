use soundcheck::config::{AverageArgs, Config, DetectArgs, MaxArgs};
use soundcheck::error::ConfigError;

fn detect(threshold: i32, min_db: i32) -> DetectArgs {
    DetectArgs { threshold, min_db, device: Some("test_device".to_string()), channels: vec![0] }
}

fn max(duration_ms: Option<i64>, min_db: i32) -> MaxArgs {
    MaxArgs { duration_ms, min_db, device: None, channels: vec![0, 1], quiet: false }
}

fn average(duration_ms: Option<i64>, min_db: i32) -> AverageArgs {
    AverageArgs {
        duration_ms,
        min_db,
        device: Some("line in".to_string()),
        channels: vec![2],
        quiet: true,
    }
}

#[test]
fn detect_args_become_the_config() {
    let config = Config::from_detect_args(detect(0, -60)).ok().unwrap();
    assert_eq!(config.threshold_db, 0);
    assert_eq!(config.min_db, -60);
    assert_eq!(config.channels, vec![0]);
    assert_eq!(config.device_name, Some("test_device".to_string()));
    let lowest = Config::from_detect_args(detect(-60, -100)).ok().unwrap();
    assert_eq!(lowest.threshold_db, -60);
    assert_eq!(lowest.min_db, -100);
}

#[test]
fn detect_threshold_out_of_range() {
    assert_eq!(
        Config::from_detect_args(detect(1, -60)).err(),
        Some(ConfigError::ThresholdOutOfRange { got: 1 })
    );
    assert_eq!(
        Config::from_detect_args(detect(-61, -60)).err(),
        Some(ConfigError::ThresholdOutOfRange { got: -61 })
    );
    // The threshold is checked before the lowest displayed level.
    assert_eq!(
        Config::from_detect_args(detect(5, 5)).err(),
        Some(ConfigError::ThresholdOutOfRange { got: 5 })
    );
}

#[test]
fn detect_min_db_out_of_range() {
    assert_eq!(
        Config::from_detect_args(detect(-10, 0)).err(),
        Some(ConfigError::MinDbOutOfRange { got: 0 })
    );
    assert_eq!(
        Config::from_detect_args(detect(-10, -101)).err(),
        Some(ConfigError::MinDbOutOfRange { got: -101 })
    );
    assert!(Config::from_detect_args(detect(-10, -1)).is_ok());
}

#[test]
fn max_args_become_the_config() {
    let config = Config::from_max_args(&max(Some(2500), -60)).ok().unwrap();
    assert_eq!(config.threshold_db, 0);
    assert_eq!(config.min_db, -60);
    assert_eq!(config.channels, vec![0, 1]);
    assert_eq!(config.device_name, None);
    assert!(Config::from_max_args(&max(None, -60)).is_ok());
    assert!(Config::from_max_args(&max(Some(1), -60)).is_ok());
}

#[test]
fn max_args_refused() {
    assert_eq!(
        Config::from_max_args(&max(Some(0), -60)).err(),
        Some(ConfigError::DurationNotPositive)
    );
    assert_eq!(
        Config::from_max_args(&max(Some(-5), -60)).err(),
        Some(ConfigError::DurationNotPositive)
    );
    assert_eq!(
        Config::from_max_args(&max(Some(0), 0)).err(),
        Some(ConfigError::MinDbOutOfRange { got: 0 })
    );
}

#[test]
fn average_args_become_the_config() {
    let config = Config::from_average_args(&average(None, -80)).ok().unwrap();
    assert_eq!(config.threshold_db, 0);
    assert_eq!(config.min_db, -80);
    assert_eq!(config.channels, vec![2]);
    assert_eq!(config.device_name, Some("line in".to_string()));
}

#[test]
fn average_args_refused() {
    assert_eq!(
        Config::from_average_args(&average(Some(-1), -60)).err(),
        Some(ConfigError::DurationNotPositive)
    );
    assert_eq!(
        Config::from_average_args(&average(Some(100), -200)).err(),
        Some(ConfigError::MinDbOutOfRange { got: -200 })
    );
}

// The threshold in decibels becomes a linear amplitude by a power of ten,
// which is floating-point arithmetic; the amplitude is handed on as its
// bit pattern.
fn db_to_amplitude(db: i32) -> u32 {
    10.0f32.powf(db as f32 / 20.0).to_bits()
}

fn linear_threshold(config: &Config) -> f32 {
    f32::from_bits(config.linear_threshold(db_to_amplitude))
}

#[test]
fn test_config_from_valid_args() {
    let config = Config {
        threshold_db: 0,
        min_db: -60,
        channels: vec![0],
        device_name: Some("test_device".to_string()),
    };

    assert_eq!(config.threshold_db, 0);
    assert_eq!(config.min_db, -60);
    assert_eq!(config.channels, vec![0]);
    assert_eq!(config.device_name, Some("test_device".to_string()));
    assert!(linear_threshold(&config) > 0.0);
}

#[test]
fn test_db_to_linear_conversion() {
    let config = Config { threshold_db: 0, min_db: -60, device_name: None, channels: vec![0] };
    // 0 dB should convert to amplitude of 1.0
    assert!((linear_threshold(&config) - 1.0).abs() < 0.001);

    let config = Config {
        threshold_db: -20,
        min_db: -60,
        device_name: Some("test_device".to_string()),
        channels: vec![0],
    };
    // -20 dB should convert to amplitude of ~0.1
    assert!((linear_threshold(&config) - 0.1).abs() < 0.01);
}

#[test]
fn linear_threshold_asks_for_the_configured_threshold() {
    let config = Config { threshold_db: -37, min_db: -60, device_name: None, channels: vec![] };
    assert_eq!(config.linear_threshold(|db| (db + 100) as u32), 63);
}
