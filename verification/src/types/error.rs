//! The errors of the type system.
use vstd::prelude::*;

use crate::text::{decimal, decimal_text};

verus! {

/// An error of the type system. A `source` is what the underlying error says.
#[allow(inconsistent_fields)]
#[derive(Debug, PartialEq, Eq)]
pub enum TypesystemError {
    StringError { what: String },
    Unimplemented { what: String },
    RuntimeError { source: String },
    NumericParseError { val: String },
    UnsupportedTimestampPrecisionError { val: u64 },
    Utf8Error { source: String },
    ArrowError { source: String },
    ClickHouseError { source: String },
}

impl Clone for TypesystemError {
    fn clone(&self) -> (res: Self)
        ensures
            res == *self,
    {
        match self {
            TypesystemError::StringError { what } => TypesystemError::StringError {
                what: what.clone(),
            },
            TypesystemError::Unimplemented { what } => TypesystemError::Unimplemented {
                what: what.clone(),
            },
            TypesystemError::RuntimeError { source } => TypesystemError::RuntimeError {
                source: source.clone(),
            },
            TypesystemError::NumericParseError { val } => TypesystemError::NumericParseError {
                val: val.clone(),
            },
            TypesystemError::UnsupportedTimestampPrecisionError { val } =>
            TypesystemError::UnsupportedTimestampPrecisionError { val: *val },
            TypesystemError::Utf8Error { source } => TypesystemError::Utf8Error {
                source: source.clone(),
            },
            TypesystemError::ArrowError { source } => TypesystemError::ArrowError {
                source: source.clone(),
            },
            TypesystemError::ClickHouseError { source } => TypesystemError::ClickHouseError {
                source: source.clone(),
            },
        }
    }
}

impl TypesystemError {
    /// What the error says.
    pub open spec fn message(&self) -> Seq<char> {
        match self {
            TypesystemError::StringError { what } => what@,
            TypesystemError::Unimplemented { what } => "Unimplemented: "@ + what@,
            TypesystemError::RuntimeError { source } => "RuntimeError: "@ + source@,
            TypesystemError::NumericParseError { val } => "Failed to parse as number: "@ + val@,
            TypesystemError::UnsupportedTimestampPrecisionError { val } =>
            "Invalid timestamp precision: "@ + decimal(*val as nat),
            TypesystemError::Utf8Error { source } => "Utf8Error: "@ + source@,
            TypesystemError::ArrowError { source } => "ArrowError: "@ + source@,
            TypesystemError::ClickHouseError { source } => "ClickHouseError: "@ + source@,
        }
    }

    /// What the error says.
    pub fn to_string(&self) -> (res: String)
        ensures
            res@ == self.message(),
    {
        match self {
            TypesystemError::StringError { what } => what.clone(),
            TypesystemError::Unimplemented { what } => {
                "Unimplemented: ".to_owned().concat(what.as_str())
            },
            TypesystemError::RuntimeError { source } => {
                "RuntimeError: ".to_owned().concat(source.as_str())
            },
            TypesystemError::NumericParseError { val } => {
                "Failed to parse as number: ".to_owned().concat(val.as_str())
            },
            TypesystemError::UnsupportedTimestampPrecisionError { val } => {
                "Invalid timestamp precision: ".to_owned().concat(decimal_text(*val).as_str())
            },
            TypesystemError::Utf8Error { source } => {
                "Utf8Error: ".to_owned().concat(source.as_str())
            },
            TypesystemError::ArrowError { source } => {
                "ArrowError: ".to_owned().concat(source.as_str())
            },
            TypesystemError::ClickHouseError { source } => {
                "ClickHouseError: ".to_owned().concat(source.as_str())
            },
        }
    }
}

/// Fails with an error that says `what`.
pub fn ts_fail<T>(what: String) -> (res: Result<T, TypesystemError>)
    ensures
        res == Err::<T, TypesystemError>(TypesystemError::StringError { what }),
{
    Err(TypesystemError::StringError { what })
}

/// Fails with the error for something that the type system does not support.
pub fn ts_unimplemented<T>(what: String) -> (res: Result<T, TypesystemError>)
    ensures
        res == Err::<T, TypesystemError>(TypesystemError::Unimplemented { what }),
{
    Err(TypesystemError::Unimplemented { what })
}

/// What each error of the type system says.
pub proof fn law_errors_say_what_they_are(text: String, val: u64)
    ensures
        (TypesystemError::StringError { what: text }).message() == text@,
        (TypesystemError::Unimplemented { what: text }).message() == "Unimplemented: "@ + text@,
        (TypesystemError::RuntimeError { source: text }).message() == "RuntimeError: "@ + text@,
        (TypesystemError::NumericParseError { val: text }).message()
            == "Failed to parse as number: "@ + text@,
        (TypesystemError::UnsupportedTimestampPrecisionError { val }).message()
            == "Invalid timestamp precision: "@ + decimal(val as nat),
        (TypesystemError::Utf8Error { source: text }).message() == "Utf8Error: "@ + text@,
        (TypesystemError::ArrowError { source: text }).message() == "ArrowError: "@ + text@,
        (TypesystemError::ClickHouseError { source: text }).message() == "ClickHouseError: "@
            + text@,
{
}

} // verus!
