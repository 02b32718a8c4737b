//! Error types of the level monitor.
use vstd::prelude::*;
use crate::text::{decimal, push_decimal, push_digits, push_text};

verus! {

/// A configuration that is refused before any audio is read.
#[derive(Debug, Clone, Copy, PartialEq, Eq)]
pub enum ConfigError {
    /// The threshold, in whole decibels, is not between -60 and 0.
    ThresholdOutOfRange { got: i32 },
    /// The lowest displayed level, in whole decibels, is not between -100
    /// and -1.
    MinDbOutOfRange { got: i32 },
    /// A monitoring duration was given and is not positive.
    DurationNotPositive,
    /// A selected channel does not exist on the device, whose highest
    /// channel index is `highest`.
    UnsupportedChannel { channel: usize, highest: usize },
}

/// A failure of the audio backend or of the terminal.
#[derive(Debug)]
pub enum AppError {
    /// The audio device could not be found or queried.
    AudioDevice(String),
    /// The audio stream could not be built or started.
    AudioStream(String),
    /// Reading from or drawing to the terminal failed.
    Io(String),
}

/// The result of an operation of the monitor.
pub type AppResult<T> = Result<T, AppError>;

impl ConfigError {
    /// What the error says to the user.
    pub open spec fn text(self) -> Seq<char> {
        match self {
            ConfigError::ThresholdOutOfRange { got } => {
                "Threshold must be between -60 and 0 dB, got "@ + decimal(got as int)
            },
            ConfigError::MinDbOutOfRange { got } => {
                "Minimum dB must be between -100 and 0 dB, got "@ + decimal(got as int)
            },
            ConfigError::DurationNotPositive => "Seconds must be positive"@,
            ConfigError::UnsupportedChannel { channel, highest } => {
                "Channel "@ + decimal(channel as int) + " not supported by device config (max "@
                    + decimal(highest as int) + ")"@
            },
        }
    }

    /// What the error says to the user.
    pub fn message(&self) -> (message: String)
        ensures
            message@ == self.text(),
    {
        match self {
            ConfigError::ThresholdOutOfRange { got } => {
                let mut message = "Threshold must be between -60 and 0 dB, got ".to_owned();
                push_decimal(&mut message, *got as i64);
                message
            },
            ConfigError::MinDbOutOfRange { got } => {
                let mut message = "Minimum dB must be between -100 and 0 dB, got ".to_owned();
                push_decimal(&mut message, *got as i64);
                message
            },
            ConfigError::DurationNotPositive => "Seconds must be positive".to_owned(),
            ConfigError::UnsupportedChannel { channel, highest } => {
                let mut message = "Channel ".to_owned();
                push_digits(&mut message, *channel as u64);
                push_text(&mut message, " not supported by device config (max ");
                push_digits(&mut message, *highest as u64);
                push_text(&mut message, ")");
                message
            },
        }
    }
}

impl AppError {
    /// What the error says to the user: the kind of the failure, then its
    /// description.
    pub open spec fn text(self) -> Seq<char> {
        match self {
            AppError::AudioDevice(description) => "Audio device error: "@ + description@,
            AppError::AudioStream(description) => "Audio stream error: "@ + description@,
            AppError::Io(description) => "I/O error: "@ + description@,
        }
    }

    /// What the error says to the user.
    pub fn message(&self) -> (message: String)
        ensures
            message@ == self.text(),
    {
        match self {
            AppError::AudioDevice(description) => {
                let mut message = "Audio device error: ".to_owned();
                push_text(&mut message, description.as_str());
                message
            },
            AppError::AudioStream(description) => {
                let mut message = "Audio stream error: ".to_owned();
                push_text(&mut message, description.as_str());
                message
            },
            AppError::Io(description) => {
                let mut message = "I/O error: ".to_owned();
                push_text(&mut message, description.as_str());
                message
            },
        }
    }
}

} // verus!
