//! Errors of MessagePack decoding and encoding.
use vstd::prelude::*;

verus! {

/// Errors that can occur during MessagePack decoding.
#[derive(Debug, PartialEq)]
pub enum Error {
    /// Encountered a MessagePack type that doesn't match the expected type
    UnexpectedType,
    /// Not enough data available to decode a complete MessagePack value
    InsufficientData,
    /// The MessagePack data is malformed or corrupted
    InvalidData,
    /// Encountered a field name that isn't recognized
    UnknownField(String),
    /// Required field is missing from the input
    MissingField(String),
    /// Integer value is too large for the target type
    IntegerOverflow,
    /// Shape is not supported for deserialization
    UnsupportedShape(String),
    /// Type is not supported for deserialization
    UnsupportedType(String),
    /// Feature not yet implemented
    NotImplemented(String),
    /// Invalid enum variant
    InvalidEnum(String),
}

/// An `Error` with its messages as character sequences.
pub enum ErrorView {
    UnexpectedType,
    InsufficientData,
    InvalidData,
    UnknownField(Seq<char>),
    MissingField(Seq<char>),
    IntegerOverflow,
    UnsupportedShape(Seq<char>),
    UnsupportedType(Seq<char>),
    NotImplemented(Seq<char>),
    InvalidEnum(Seq<char>),
}

impl View for Error {
    type V = ErrorView;

    open spec fn view(&self) -> ErrorView {
        match self {
            Error::UnexpectedType => ErrorView::UnexpectedType,
            Error::InsufficientData => ErrorView::InsufficientData,
            Error::InvalidData => ErrorView::InvalidData,
            Error::UnknownField(s) => ErrorView::UnknownField(s@),
            Error::MissingField(s) => ErrorView::MissingField(s@),
            Error::IntegerOverflow => ErrorView::IntegerOverflow,
            Error::UnsupportedShape(s) => ErrorView::UnsupportedShape(s@),
            Error::UnsupportedType(s) => ErrorView::UnsupportedType(s@),
            Error::NotImplemented(s) => ErrorView::NotImplemented(s@),
            Error::InvalidEnum(s) => ErrorView::InvalidEnum(s@),
        }
    }
}

/// The message of an error, as its `Display` shows it.
pub open spec fn error_message(e: ErrorView) -> Seq<char> {
    match e {
        ErrorView::UnexpectedType => "Unexpected MessagePack type"@,
        ErrorView::InsufficientData => "Insufficient data to decode"@,
        ErrorView::InvalidData => "Invalid MessagePack data"@,
        ErrorView::UnknownField(f) => "Unknown field: "@ + f,
        ErrorView::MissingField(f) => "Missing required field: "@ + f,
        ErrorView::IntegerOverflow => "Integer value too large for target type"@,
        ErrorView::UnsupportedShape(s) => "Unsupported shape for deserialization: "@ + s,
        ErrorView::UnsupportedType(s) => "Unsupported type for deserialization: "@ + s,
        ErrorView::NotImplemented(s) => "Feature not yet implemented: "@ + s,
        ErrorView::InvalidEnum(s) => "Invalid enum variant: "@ + s,
    }
}

fn prefixed(prefix: &str, rest: &String) -> (r: String)
    ensures
        r@ == prefix@ + rest@,
{
    let mut r = String::from_str(prefix);
    r.append(rest.as_str());
    r
}

impl Error {
    /// The human-readable message of this error.
    pub fn message(&self) -> (r: String)
        ensures
            r@ == error_message(self@),
    {
        match self {
            Error::UnexpectedType => String::from_str("Unexpected MessagePack type"),
            Error::InsufficientData => String::from_str("Insufficient data to decode"),
            Error::InvalidData => String::from_str("Invalid MessagePack data"),
            Error::UnknownField(f) => prefixed("Unknown field: ", f),
            Error::MissingField(f) => prefixed("Missing required field: ", f),
            Error::IntegerOverflow => String::from_str("Integer value too large for target type"),
            Error::UnsupportedShape(s) => prefixed("Unsupported shape for deserialization: ", s),
            Error::UnsupportedType(s) => prefixed("Unsupported type for deserialization: ", s),
            Error::NotImplemented(s) => prefixed("Feature not yet implemented: ", s),
            Error::InvalidEnum(s) => prefixed("Invalid enum variant: ", s),
        }
    }
}

/// Errors of MessagePack encoding: values and containers that the format
/// cannot hold as they are given.
#[derive(Debug, PartialEq, Eq, Structural)]
pub enum EncodeError {
    /// A `u128`, which MessagePack has no integer format for
    U128NotSupported,
    /// An `i128`, which MessagePack has no integer format for
    I128NotSupported,
    /// A map (or object) whose length was not given up front
    MapLengthRequired,
    /// An array whose length was not given up front
    ArrayLengthRequired,
}

/// The message of an encoding error.
pub open spec fn encode_error_message(e: EncodeError) -> Seq<char> {
    match e {
        EncodeError::U128NotSupported => "u128 is not directly supported by MessagePack"@,
        EncodeError::I128NotSupported => "i128 is not directly supported by MessagePack"@,
        EncodeError::MapLengthRequired => "MessagePack requires map length upfront"@,
        EncodeError::ArrayLengthRequired => "MessagePack requires array length upfront"@,
    }
}

impl EncodeError {
    /// The human-readable message of this error.
    pub fn message(&self) -> (r: &'static str)
        ensures
            r@ == encode_error_message(*self),
    {
        match self {
            EncodeError::U128NotSupported => "u128 is not directly supported by MessagePack",
            EncodeError::I128NotSupported => "i128 is not directly supported by MessagePack",
            EncodeError::MapLengthRequired => "MessagePack requires map length upfront",
            EncodeError::ArrayLengthRequired => "MessagePack requires array length upfront",
        }
    }
}

} // verus!
