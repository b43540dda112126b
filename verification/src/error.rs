//! The error kinds of the library.

use vstd::prelude::*;
use vstd::string::*;
use crate::utils::text::{append_decimal, decimal_repr};

verus! {

/// What can go wrong while weather data is read, checked and merged.
#[derive(Debug)]
pub enum ProcessingError {
    /// A record breaks a rule that relates its temperatures.
    TemperatureValidation { message: String },
    /// A station is not in the catalog.
    StationNotFound { station_id: u32 },
    /// An option has a value that is not supported.
    Config(String),
    /// A field of a record lies outside its accepted range.
    Validation(String),
    /// A coordinate cannot be read.
    InvalidCoordinate(String),
    /// A source flag is none of 0, 1 and 9.
    InvalidQualityFlag(u8),
    /// A value of a data file cannot be read.
    InvalidTemperature(String),
    /// Records that do not belong together were to be merged.
    DataMerge(String),
    /// A builder was used without a required field.
    MissingData(String),
    /// An archive, a file name or a line does not have the expected form.
    InvalidFormat(String),
    /// The run was stopped on request.
    Cancelled,
}

/// The text that `message` gives for an error.
pub open spec fn message_spec(e: ProcessingError) -> Seq<char> {
    match e {
        ProcessingError::TemperatureValidation { message } => "Temperature validation error: "@
            + message@,
        ProcessingError::StationNotFound { station_id } => "Station "@ + decimal_repr(
            station_id as nat,
        ) + " not found"@,
        ProcessingError::Config(m) => "Configuration error: "@ + m@,
        ProcessingError::Validation(m) => "Validation error: "@ + m@,
        ProcessingError::InvalidCoordinate(m) => "Invalid coordinate format: "@ + m@,
        ProcessingError::InvalidQualityFlag(v) => "Invalid quality flag: "@ + decimal_repr(
            v as nat,
        ),
        ProcessingError::InvalidTemperature(m) => "Invalid temperature: "@ + m@,
        ProcessingError::DataMerge(m) => "Data merge error: "@ + m@,
        ProcessingError::MissingData(m) => "Missing required data: "@ + m@,
        ProcessingError::InvalidFormat(m) => "Invalid data format: "@ + m@,
        ProcessingError::Cancelled => "Processing cancelled by user"@,
    }
}

impl ProcessingError {
    /// The error as a line of text.
    pub fn message(&self) -> (s: String)
        ensures
            s@ == message_spec(*self),
    {
        match self {
            ProcessingError::TemperatureValidation { message } => {
                let mut s = String::from_str("Temperature validation error: ");
                s.append(message.as_str());
                s
            },
            ProcessingError::StationNotFound { station_id } => {
                let mut s = String::from_str("Station ");
                append_decimal(&mut s, *station_id as u64);
                s.append(" not found");
                s
            },
            ProcessingError::Config(m) => {
                let mut s = String::from_str("Configuration error: ");
                s.append(m.as_str());
                s
            },
            ProcessingError::Validation(m) => {
                let mut s = String::from_str("Validation error: ");
                s.append(m.as_str());
                s
            },
            ProcessingError::InvalidCoordinate(m) => {
                let mut s = String::from_str("Invalid coordinate format: ");
                s.append(m.as_str());
                s
            },
            ProcessingError::InvalidQualityFlag(v) => {
                let mut s = String::from_str("Invalid quality flag: ");
                append_decimal(&mut s, *v as u64);
                s
            },
            ProcessingError::InvalidTemperature(m) => {
                let mut s = String::from_str("Invalid temperature: ");
                s.append(m.as_str());
                s
            },
            ProcessingError::DataMerge(m) => {
                let mut s = String::from_str("Data merge error: ");
                s.append(m.as_str());
                s
            },
            ProcessingError::MissingData(m) => {
                let mut s = String::from_str("Missing required data: ");
                s.append(m.as_str());
                s
            },
            ProcessingError::InvalidFormat(m) => {
                let mut s = String::from_str("Invalid data format: ");
                s.append(m.as_str());
                s
            },
            ProcessingError::Cancelled => String::from_str("Processing cancelled by user"),
        }
    }
}

/// An `InvalidFormat` error whose text is `prefix` followed by `detail`.
pub fn invalid_format(prefix: &str, detail: &str) -> (e: ProcessingError)
    ensures
        e matches ProcessingError::InvalidFormat(m) && m@ == prefix@ + detail@,
{
    let mut s = String::from_str(prefix);
    s.append(detail);
    ProcessingError::InvalidFormat(s)
}

} // verus!
