//! Decoding of one flat attribute collection into a described target shape.
//!
//! [`shapes`] describes the input collection and the requested output shape,
//! [`values`] the decoded results, and [`deserialize_headers`] holds the
//! top-level entry point [`deserialize`].

use vstd::prelude::*;

pub mod deserialize_headers;
pub mod deserialize_values;
pub mod multivalue;
pub mod numbers;
pub mod properties;
pub mod shapes;
pub mod textops;
pub mod values;

pub use deserialize_headers::deserialize;

verus! {

/// Mathematical model of a decode error: each variant of
/// [`HeadersDeserializationError`] with its text as a sequence of characters.
#[verifier::ext_equal]
pub enum ErrorModel {
    InvalidTopLevelType { msg: Seq<char> },
    InvalidValueType { msg: Seq<char> },
    ParseError { source: Seq<char>, msg: Seq<char> },
    InvalidState { msg: Seq<char> },
}

/// Why a decode failed.
///
/// - `InvalidTopLevelType`: the overall requested shape cannot be built from
///   a flat attribute collection (a bare scalar, string, option, ... at the
///   top level).
/// - `InvalidValueType`: a single attribute's string value was asked to
///   decode into a shape that needs nested structure (a record, map, tuple,
///   or a non-unit enum variant).
/// - `ParseError`: a primitive textual parse failed; `source` names the
///   requested primitive kind and `msg` carries the parser's own message.
/// - `InvalidState`: a structurally valid request hit a runtime precondition
///   violation (an empty value where a character was needed, or a missing
///   required field).
#[derive(Debug, PartialEq, Eq)]
pub enum HeadersDeserializationError {
    InvalidTopLevelType { msg: &'static str },
    InvalidValueType { msg: &'static str },
    ParseError { source: &'static str, msg: String },
    InvalidState { msg: &'static str },
}

impl HeadersDeserializationError {
    /// A fixed description of the failure family; the specific diagnostic
    /// lives in the variant's own message.
    pub fn description(&self) -> (r: &'static str)
        ensures
            r@ == "unable to deserialize from HTTP headers"@,
    {
        "unable to deserialize from HTTP headers"
    }
}

impl View for HeadersDeserializationError {
    type V = ErrorModel;

    open spec fn view(&self) -> ErrorModel {
        match self {
            HeadersDeserializationError::InvalidTopLevelType { msg } => (ErrorModel::InvalidTopLevelType { msg: msg@ }),
            HeadersDeserializationError::InvalidValueType { msg } => (ErrorModel::InvalidValueType { msg: msg@ }),
            HeadersDeserializationError::ParseError { source, msg } => (ErrorModel::ParseError { source: source@, msg: msg@ }),
            HeadersDeserializationError::InvalidState { msg } => (ErrorModel::InvalidState { msg: msg@ }),
        }
    }
}

} // verus!
