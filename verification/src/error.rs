//! The library's error type.
//!
//! Individual signals that cannot be measured never raise an error — they
//! become absent slots in a snapshot.  An error means the whole facility is
//! unusable: an unsupported platform, unreadable or unparseable system data,
//! or metrics that fail validation.

use vstd::prelude::*;
use vstd::string::*;

verus! {

/// Everything that can go wrong across the library.
#[derive(Debug)]
pub enum PwrzvError {
    /// A system file or stream could not be read.
    IoError { detail: String },
    /// The host is not one of the supported platforms.
    UnsupportedPlatform { platform: String },
    /// System data could not be parsed.
    ParseError { detail: String },
    /// A system resource could not be reached.
    ResourceAccessError { resource: String },
    /// Scoring was asked to work on invalid data.
    CalculationError { detail: String },
    /// A value was outside its permitted range.
    InvalidValue { detail: String },
}

/// Result type used throughout the library.
pub type PwrzvResult<T> = Result<T, PwrzvError>;

impl PwrzvError {
    /// The human-readable description of the error, one fixed phrase per
    /// variant followed by the variant's payload.
    pub open spec fn spec_message(self) -> Seq<char> {
        match self {
            PwrzvError::IoError { detail } => "I/O error: "@ + detail@,
            PwrzvError::UnsupportedPlatform { platform } => "Unsupported platform: "@ + platform@
                + ". This library only supports Linux and macOS for now."@,
            PwrzvError::ParseError { detail } => "Failed to parse system data: "@ + detail@,
            PwrzvError::ResourceAccessError { resource } => "Failed to access system resource: "@
                + resource@,
            PwrzvError::CalculationError { detail } => "Calculation error: "@ + detail@,
            PwrzvError::InvalidValue { detail } => "Invalid value: "@ + detail@,
        }
    }

    /// Render the error as text.
    pub fn message(&self) -> (r: String)
        ensures
            r@ == self.spec_message(),
    {
        match self {
            PwrzvError::IoError { detail } => String::from_str("I/O error: ").concat(
                detail.as_str(),
            ),
            PwrzvError::UnsupportedPlatform { platform } => String::from_str(
                "Unsupported platform: ",
            ).concat(platform.as_str()).concat(
                ". This library only supports Linux and macOS for now.",
            ),
            PwrzvError::ParseError { detail } => String::from_str(
                "Failed to parse system data: ",
            ).concat(detail.as_str()),
            PwrzvError::ResourceAccessError { resource } => String::from_str(
                "Failed to access system resource: ",
            ).concat(resource.as_str()),
            PwrzvError::CalculationError { detail } => String::from_str(
                "Calculation error: ",
            ).concat(detail.as_str()),
            PwrzvError::InvalidValue { detail } => String::from_str("Invalid value: ").concat(
                detail.as_str(),
            ),
        }
    }

    /// Create an unsupported-platform error.
    pub fn unsupported_platform(platform: &str) -> (r: Self)
        ensures
            r matches PwrzvError::UnsupportedPlatform { platform: p } && p@ == platform@,
    {
        PwrzvError::UnsupportedPlatform { platform: String::from_str(platform) }
    }

    /// Create a parsing error.
    pub fn parse_error(detail: &str) -> (r: Self)
        ensures
            r matches PwrzvError::ParseError { detail: d } && d@ == detail@,
    {
        PwrzvError::ParseError { detail: String::from_str(detail) }
    }

    /// Create a resource-access error.
    pub fn resource_access_error(resource: &str) -> (r: Self)
        ensures
            r matches PwrzvError::ResourceAccessError { resource: d } && d@ == resource@,
    {
        PwrzvError::ResourceAccessError { resource: String::from_str(resource) }
    }

    /// Create a calculation error.
    pub fn calculation_error(detail: &str) -> (r: Self)
        ensures
            r matches PwrzvError::CalculationError { detail: d } && d@ == detail@,
    {
        PwrzvError::CalculationError { detail: String::from_str(detail) }
    }

    /// Create a collection error; collection failures surface as
    /// resource-access errors.
    pub fn collection_error(detail: &str) -> (r: Self)
        ensures
            r matches PwrzvError::ResourceAccessError { resource: d } && d@ == detail@,
    {
        PwrzvError::ResourceAccessError { resource: String::from_str(detail) }
    }

    /// Create an invalid-value error.
    pub fn invalid_value(detail: &str) -> (r: Self)
        ensures
            r matches PwrzvError::InvalidValue { detail: d } && d@ == detail@,
    {
        PwrzvError::InvalidValue { detail: String::from_str(detail) }
    }

    /// Create an I/O error from a caller-supplied description.
    pub fn io_error(detail: &str) -> (r: Self)
        ensures
            r matches PwrzvError::IoError { detail: d } && d@ == detail@,
    {
        PwrzvError::IoError { detail: String::from_str(detail) }
    }
}

} // verus!
