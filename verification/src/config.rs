//! The arguments of the monitoring commands and their validation.
use vstd::prelude::*;
use crate::error::ConfigError;

verus! {

/// Arguments of threshold detection.
pub struct DetectArgs {
    /// Threshold in whole decibels.
    pub threshold: i32,
    /// Lowest displayed level in whole decibels.
    pub min_db: i32,
    /// Name of the input device; the default device where there is none.
    pub device: Option<String>,
    /// Channels to monitor.
    pub channels: Vec<usize>,
}

/// Arguments of the measurement of maximum levels.
pub struct MaxArgs {
    /// Duration of the measurement in milliseconds; where there is none,
    /// the measurement runs until it is confirmed.
    pub duration_ms: Option<i64>,
    /// Lowest displayed level in whole decibels.
    pub min_db: i32,
    /// Name of the input device; the default device where there is none.
    pub device: Option<String>,
    /// Channels to monitor.
    pub channels: Vec<usize>,
    /// Whether only the numbers are reported.
    pub quiet: bool,
}

/// Arguments of the measurement of average levels.
pub struct AverageArgs {
    /// Duration of the measurement in milliseconds; where there is none,
    /// the measurement runs until it is confirmed.
    pub duration_ms: Option<i64>,
    /// Lowest displayed level in whole decibels.
    pub min_db: i32,
    /// Name of the input device; the default device where there is none.
    pub device: Option<String>,
    /// Channels to monitor.
    pub channels: Vec<usize>,
    /// Whether only the numbers are reported.
    pub quiet: bool,
}

/// Arguments of the listing of devices: there are none.
pub struct ListArgs {}

/// The validated configuration of a session.
pub struct Config {
    pub threshold_db: i32,
    pub min_db: i32,
    pub channels: Vec<usize>,
    pub device_name: Option<String>,
}

/// A threshold is accepted from -60 dB to 0 dB.
pub open spec fn threshold_in_range(threshold: i32) -> bool {
    -60 <= threshold <= 0
}

/// A lowest displayed level is accepted from -100 dB to -1 dB.
pub open spec fn min_db_in_range(min_db: i32) -> bool {
    -100 <= min_db < 0
}

/// A duration is accepted where there is none or a positive one.
pub open spec fn duration_accepted(duration_ms: Option<i64>) -> bool {
    duration_ms is None || duration_ms->Some_0 > 0
}

/// What the validation of a measurement's arguments gives: the lowest
/// displayed level is checked first, then the duration, and the threshold
/// of the configuration, which a measurement does not use, is 0.
pub open spec fn measurement_config(
    duration_ms: Option<i64>,
    min_db: i32,
    device: Option<String>,
    channels: Seq<usize>,
    result: Result<Config, ConfigError>,
) -> bool {
    if !min_db_in_range(min_db) {
        result == Err::<Config, ConfigError>(ConfigError::MinDbOutOfRange { got: min_db })
    } else if !duration_accepted(duration_ms) {
        result == Err::<Config, ConfigError>(ConfigError::DurationNotPositive)
    } else {
        &&& result is Ok
        &&& result->Ok_0.threshold_db == 0
        &&& result->Ok_0.min_db == min_db
        &&& result->Ok_0.channels@ == channels
        &&& result->Ok_0.device_name == device
    }
}

/// Copies the name of a device, where there is one.
fn copy_name(name: &Option<String>) -> (copy: Option<String>)
    ensures
        copy == *name,
{
    match name {
        Some(text) => Some(text.clone()),
        None => None,
    }
}

/// Copies a selection of channels.
fn copy_channels(channels: &Vec<usize>) -> (copy: Vec<usize>)
    ensures
        copy@ == channels@,
{
    let copy = channels.clone();
    proof {
        assert(copy@ =~= channels@);
    }
    copy
}

/// Whether a lowest displayed level is accepted.
fn check_min_db(min_db: i32) -> (ok: bool)
    ensures
        ok == min_db_in_range(min_db),
{
    !(min_db >= 0 || min_db < -100)
}

/// Whether a duration is accepted.
fn check_duration(duration_ms: Option<i64>) -> (ok: bool)
    ensures
        ok == duration_accepted(duration_ms),
{
    match duration_ms {
        Some(duration) => duration > 0,
        None => true,
    }
}

impl Config {
    /// Validates the arguments of threshold detection. The threshold is
    /// checked first, then the lowest displayed level; arguments that pass
    /// both become the configuration unchanged.
    pub fn from_detect_args(detect_args: DetectArgs) -> (result: Result<Config, ConfigError>)
        ensures
            if !threshold_in_range(detect_args.threshold) {
                result == Err::<Config, ConfigError>(
                    ConfigError::ThresholdOutOfRange { got: detect_args.threshold },
                )
            } else if !min_db_in_range(detect_args.min_db) {
                result == Err::<Config, ConfigError>(
                    ConfigError::MinDbOutOfRange { got: detect_args.min_db },
                )
            } else {
                result == Ok::<Config, ConfigError>(
                    Config {
                        threshold_db: detect_args.threshold,
                        min_db: detect_args.min_db,
                        channels: detect_args.channels,
                        device_name: detect_args.device,
                    },
                )
            },
    {
        if detect_args.threshold > 0 || detect_args.threshold < -60 {
            return Err(ConfigError::ThresholdOutOfRange { got: detect_args.threshold });
        }
        if !check_min_db(detect_args.min_db) {
            return Err(ConfigError::MinDbOutOfRange { got: detect_args.min_db });
        }
        Ok(
            Config {
                threshold_db: detect_args.threshold,
                min_db: detect_args.min_db,
                channels: detect_args.channels,
                device_name: detect_args.device,
            },
        )
    }

    /// The threshold as a linear amplitude, for the analysis of the
    /// buffers: what `to_amplitude` gives for the threshold in whole
    /// decibels. It is asked once, for the configured threshold alone.
    pub fn linear_threshold<F: Fn(i32) -> u32>(&self, to_amplitude: F) -> (amplitude: u32)
        requires
            call_requires(to_amplitude, (self.threshold_db,)),
        ensures
            call_ensures(to_amplitude, (self.threshold_db,), amplitude),
    {
        to_amplitude(self.threshold_db)
    }

    /// Validates the arguments of the measurement of maximum levels.
    pub fn from_max_args(max_args: &MaxArgs) -> (result: Result<Config, ConfigError>)
        ensures
            measurement_config(
                max_args.duration_ms,
                max_args.min_db,
                max_args.device,
                max_args.channels@,
                result,
            ),
    {
        if !check_min_db(max_args.min_db) {
            return Err(ConfigError::MinDbOutOfRange { got: max_args.min_db });
        }
        if !check_duration(max_args.duration_ms) {
            return Err(ConfigError::DurationNotPositive);
        }
        Ok(
            Config {
                threshold_db: 0,
                min_db: max_args.min_db,
                channels: copy_channels(&max_args.channels),
                device_name: copy_name(&max_args.device),
            },
        )
    }

    /// Validates the arguments of the measurement of average levels.
    pub fn from_average_args(average_args: &AverageArgs) -> (result: Result<Config, ConfigError>)
        ensures
            measurement_config(
                average_args.duration_ms,
                average_args.min_db,
                average_args.device,
                average_args.channels@,
                result,
            ),
    {
        if !check_min_db(average_args.min_db) {
            return Err(ConfigError::MinDbOutOfRange { got: average_args.min_db });
        }
        if !check_duration(average_args.duration_ms) {
            return Err(ConfigError::DurationNotPositive);
        }
        Ok(
            Config {
                threshold_db: 0,
                min_db: average_args.min_db,
                channels: copy_channels(&average_args.channels),
                device_name: copy_name(&average_args.device),
            },
        )
    }
}

} // verus!
