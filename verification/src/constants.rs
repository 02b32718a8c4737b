//! Constants of the level monitor.
use vstd::prelude::*;

verus! {

/// Number of level units in one decibel: levels are held in thousandths.
pub const UNITS_PER_DB: i32 = 1000;

/// Lowest level that is reported, also used for silence: -60 dB.
pub const MIN_DB_LEVEL: i32 = -60000;

/// Lowest level of the display in whole decibels.
pub const MIN_DB: i32 = -60;

/// Default threshold in whole decibels.
pub const DEFAULT_THRESHOLD_DB: i32 = 0;

/// Period of one polling tick in milliseconds.
pub const UPDATE_INTERVAL_MS: u64 = 10;

/// Columns of the level bar that are taken by its border.
pub const BAR_BORDER_WIDTH: usize = 2;

/// Weight, in percent, of a new raw level in the first smoothing stage.
pub const AUDIO_SMOOTHING_PERCENT: u8 = 40;

/// Weight, in percent, of the first stage's value in the display stage.
pub const DISPLAY_SMOOTHING_PERCENT: u8 = 15;

/// Sample rate that is chosen whenever the device supports it.
pub const PREFERRED_SAMPLE_RATE: u32 = 44100;

} // verus!
