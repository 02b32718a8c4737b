use soundcheck::constants::MIN_DB_LEVEL;
use soundcheck::smoothing::{amplitude_to_db, blend, AudioSmoother};

#[test]
fn blend_mixes_by_percent() {
    assert_eq!(blend(-60000, -20000, 40), -44000);
    assert_eq!(blend(-60000, -44000, 15), -57600);
    assert_eq!(blend(0, 100, 0), 0);
    assert_eq!(blend(0, 100, 100), 100);
}

#[test]
fn blend_rounds_down() {
    // (3 * 60 + 4 * 40) / 100 = 3.4
    assert_eq!(blend(3, 4, 40), 3);
    // (-3 * 60 + -4 * 40) / 100 = -3.4
    assert_eq!(blend(-3, -4, 40), -4);
    assert_eq!(blend(-1, 0, 40), -1);
    assert_eq!(blend(1, 0, 40), 0);
}

#[test]
fn blend_does_not_overflow_at_the_limits() {
    assert_eq!(blend(i32::MAX, i32::MAX, 40), i32::MAX);
    assert_eq!(blend(i32::MIN, i32::MIN, 15), i32::MIN);
    assert_eq!(blend(i32::MIN, i32::MAX, 100), i32::MAX);
    assert_eq!(blend(i32::MIN, i32::MAX, 50), -1);
}

#[test]
fn smoother_first_update() {
    let mut smoother = AudioSmoother::new(MIN_DB_LEVEL);
    assert_eq!(smoother.smoothed(), -60000);
    assert_eq!(smoother.display(), -60000);
    let shown = smoother.update(-20000);
    assert_eq!(smoother.smoothed(), -44000);
    assert_eq!(smoother.display(), -57600);
    assert_eq!(shown, -57600);
}

#[test]
fn smoother_fixed_point() {
    for level in [-60000, -12345, 0, 777] {
        let mut smoother = AudioSmoother::new(level);
        for _ in 0..200 {
            assert_eq!(smoother.update(level), level);
            assert_eq!(smoother.smoothed(), level);
            assert_eq!(smoother.display(), level);
        }
    }
}

#[test]
fn smoother_step_rises_without_overshoot() {
    let start = -60000;
    let target = -6000;
    let mut smoother = AudioSmoother::new(start);
    let mut smoothed = start;
    let mut display = start;
    for _ in 0..400 {
        smoother.update(target);
        assert!(smoother.smoothed() >= smoothed && smoother.smoothed() <= target);
        assert!(smoother.display() >= display && smoother.display() <= smoother.smoothed());
        smoothed = smoother.smoothed();
        display = smoother.display();
    }
    assert!(target - smoothed <= 2);
    assert!(target - display <= 8);
}

#[test]
fn smoother_step_falls_without_overshoot() {
    let start = -3000;
    let target = -48000;
    let mut smoother = AudioSmoother::new(start);
    let mut smoothed = start;
    let mut display = start;
    for _ in 0..400 {
        smoother.update(target);
        assert!(smoother.smoothed() <= smoothed && smoother.smoothed() >= target);
        assert!(smoother.display() <= display && smoother.display() >= smoother.smoothed());
        smoothed = smoother.smoothed();
        display = smoother.display();
    }
    assert_eq!(smoothed, target);
    assert_eq!(display, target);
}

#[test]
fn silence_is_at_the_floor() {
    assert_eq!(amplitude_to_db(0, 0), MIN_DB_LEVEL);
    assert_eq!(amplitude_to_db(0, -123456), MIN_DB_LEVEL);
    assert_eq!(MIN_DB_LEVEL, -60000);
}

#[test]
fn positive_amplitude_keeps_its_measured_level() {
    assert_eq!(amplitude_to_db(500_000, -6021), -6021);
    assert_eq!(amplitude_to_db(1, -120000), -120000);
    // A loud transient above full scale is reported, not clipped.
    assert_eq!(amplitude_to_db(u32::MAX, 3500), 3500);
}
