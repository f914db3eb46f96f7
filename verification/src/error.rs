//! The error kinds shared across the codec.

use vstd::prelude::*;

verus! {

/// Spec-level image of an [`Error`]: the carried strings are sequences of
/// characters, so that contracts can speak of their contents.
pub enum ErrorSpec {
    /// Malformed line structure, malformed base64, truncated or over-long
    /// wire fields, or an algorithm-id mismatch between the line token and
    /// the embedded wire string.
    InvalidFormat,
    /// The algorithm identifier is not among the supported ones; carries
    /// the offending identifier.
    UnsupportedKeytype(Seq<char>),
    /// The ECDSA curve name is not the one the algorithm identifier calls
    /// for; carries the offending name.
    UnsupportedCurve(Seq<char>),
    /// A wire field that must be text is not valid UTF-8.
    Utf8,
}

/// An error surfaced by the decode path. No recovery is attempted
/// internally; every parse failure is terminal for that call.
#[derive(Debug)]
pub enum Error {
    /// Malformed line structure, malformed base64, truncated or over-long
    /// wire fields, or an algorithm-id mismatch between the line token and
    /// the embedded wire string.
    InvalidFormat,
    /// The algorithm identifier is not among the supported ones; carries
    /// the offending identifier.
    UnsupportedKeytype(String),
    /// The ECDSA curve name is not the one the algorithm identifier calls
    /// for; carries the offending name.
    UnsupportedCurve(String),
    /// A wire field that must be text is not valid UTF-8.
    Utf8,
}

impl View for Error {
    type V = ErrorSpec;

    open spec fn view(&self) -> ErrorSpec {
        match self {
            Error::InvalidFormat => ErrorSpec::InvalidFormat,
            Error::UnsupportedKeytype(t) => ErrorSpec::UnsupportedKeytype(t@),
            Error::UnsupportedCurve(t) => ErrorSpec::UnsupportedCurve(t@),
            Error::Utf8 => ErrorSpec::Utf8,
        }
    }
}

} // verus!
