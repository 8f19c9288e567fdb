//! Failures reported by the S260 protocol driver.
use vstd::prelude::*;

use crate::device::{self, source_name, Source};
use crate::text::{decimal, push_decimal, push_str};

verus! {

/// The kind of a failed socket or address operation.
#[derive(Debug, Clone, Copy, PartialEq, Eq)]
pub enum IoErrorKind {
    /// An argument, such as a timeout, was not acceptable.
    InvalidInput,
    /// The operation did not complete in time.
    TimedOut,
    /// The peer closed or reset the connection.
    ConnectionClosed,
    /// Any other failure.
    Other,
}

/// A failed socket or address operation, by kind and display text.
#[derive(Debug, Clone, PartialEq, Eq)]
pub struct IoError {
    /// What kind of failure occurred.
    pub kind: IoErrorKind,
    /// Human-readable description of the failure.
    pub message: String,
}

/// Failures reported by the S260 protocol driver.
#[derive(Debug, Clone, PartialEq, Eq)]
pub enum Error {
    /// Socket or address resolution failure.
    Io(IoError),
    /// Malformed JSON frame, with the parser's description.
    Json(String),
    /// Malformed or unexpected protocol data.
    Protocol(String),
    /// Explicit command rejection from the speaker.
    Rejected {
        /// Device result code.
        code: i64,
        /// Sanitized device message.
        message: String,
    },
    /// Required response field was absent.
    MissingField(&'static str),
    /// Device reported an unknown numeric source.
    InvalidSource(u64),
    /// Caller requested a source unsupported by S260.
    UnsupportedSource(String),
    /// Requested volume was outside the device-reported range.
    InvalidVolume {
        /// Requested volume.
        value: u8,
        /// Device-reported minimum.
        min: u8,
        /// Device-reported maximum.
        max: u8,
    },
    /// Device state did not reflect an acknowledged mutation before the deadline.
    VerificationTimeout {
        /// State field being verified.
        field: &'static str,
        /// Requested value.
        expected: String,
        /// Last value reported during verification.
        actual: String,
        /// Number of state queries made.
        attempts: u32,
        /// Elapsed verification time in milliseconds.
        elapsed_ms: u64,
    },
    /// Event connection could not be restored within the caller's wait budget.
    Reconnect(String),
    /// Requested equalizer preset was outside the reported range.
    InvalidEqPreset {
        /// Requested preset.
        value: u8,
        /// Number of presets reported by the device.
        preset_count: u8,
    },
}

/// Convenience result type for the S260 driver.
pub type Result<T> = std::result::Result<T, Error>;


/// Whether `d` is the model-independent error for the driver error `e`.
pub open spec fn maps_to(e: Error, d: device::Error) -> bool {
    match e {
        Error::Io(io) => d matches device::Error::Network { operation, message } && operation@
            == "S260 socket operation"@ && message@ == io.message@,
        Error::Json(m) => d matches device::Error::Protocol { message } && message@ == m@,
        Error::Protocol(m) => d matches device::Error::Protocol { message } && message@ == m@,
        Error::Rejected { code, message } => d matches device::Error::Rejected {
            code: c,
            message: m,
        } && c == code && m@ == message@,
        Error::MissingField(field) => d matches device::Error::Protocol { message } && message@
            == "missing field "@ + field@,
        Error::InvalidSource(index) => d matches device::Error::Protocol { message } && message@
            == "invalid source index "@ + decimal(index as nat),
        Error::UnsupportedSource(name) => d matches device::Error::UnsupportedSource(source)
            && source@ == source_name(name@),
        Error::InvalidVolume { value, min, max } => d == device::Error::InvalidVolume {
            value,
            min,
            max,
        },
        Error::VerificationTimeout { field, expected, actual, attempts, elapsed_ms } => d matches device::Error::VerificationTimeout {
            field: f,
            expected: x,
            actual: a,
            attempts: n,
            elapsed_ms: t,
        } && f@ == field@ && x@ == expected@ && a@ == actual@ && n == attempts && t == elapsed_ms,
        Error::Reconnect(m) => d matches device::Error::Network { operation, message }
            && operation@ == "event stream reconnect"@ && message@ == m@,
        Error::InvalidEqPreset { value, preset_count } => d == device::Error::InvalidEqPreset {
            value,
            preset_count,
        },
    }
}

impl Error {
    /// The model-independent error that reports this driver failure.
    pub fn into_device_error(self) -> (d: device::Error)
        ensures
            maps_to(self, d),
    {
        match self {
            Error::Io(io) => device::Error::Network {
                operation: "S260 socket operation",
                message: io.message,
            },
            Error::Json(message) => device::Error::Protocol { message },
            Error::Protocol(message) => device::Error::Protocol { message },
            Error::Rejected { code, message } => device::Error::Rejected { code, message },
            Error::MissingField(field) => {
                let mut message = String::new();
                push_str(&mut message, "missing field ");
                push_str(&mut message, field);
                device::Error::Protocol { message }
            },
            Error::InvalidSource(index) => {
                let mut message = String::new();
                push_str(&mut message, "invalid source index ");
                push_decimal(&mut message, index as u128);
                device::Error::Protocol { message }
            },
            Error::UnsupportedSource(name) => device::Error::UnsupportedSource(
                Source::new(name.as_str()),
            ),
            Error::InvalidVolume { value, min, max } => device::Error::InvalidVolume {
                value,
                min,
                max,
            },
            Error::VerificationTimeout { field, expected, actual, attempts, elapsed_ms } => {
                device::Error::VerificationTimeout { field, expected, actual, attempts, elapsed_ms }
            },
            Error::Reconnect(message) => device::Error::Network {
                operation: "event stream reconnect",
                message,
            },
            Error::InvalidEqPreset { value, preset_count } => device::Error::InvalidEqPreset {
                value,
                preset_count,
            },
        }
    }
}

} // verus!
