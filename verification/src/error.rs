//! Error types for jCard parsing.

use vstd::prelude::*;

use crate::text::owned;

verus! {

/// Error returned by jCard parsing operations.
///
/// [`InvalidJson`](Self::InvalidJson) indicates the input is not valid JSON.
/// [`InvalidStructure`](Self::InvalidStructure) indicates valid JSON that is
/// not a jCard (e.g., missing `"vcard"` tag, not an array).
/// [`InvalidXml`](Self::InvalidXml) indicates input that is not well-formed XML.
#[derive(Debug, Clone, PartialEq, Eq)]
pub enum Error {
    /// The input is not valid JSON; the message of the JSON reader.
    InvalidJson(String),
    /// Valid JSON but not a valid jCard structure.
    InvalidStructure(String),
    /// The input is not well-formed XML; the message of the XML reader.
    InvalidXml(String),
}

pub enum SpecError {
    InvalidJson(Seq<char>),
    InvalidStructure(Seq<char>),
    InvalidXml(Seq<char>),
}

impl View for Error {
    type V = SpecError;

    open spec fn view(&self) -> SpecError {
        match self {
            Error::InvalidJson(m) => SpecError::InvalidJson(m@),
            Error::InvalidStructure(m) => SpecError::InvalidStructure(m@),
            Error::InvalidXml(m) => SpecError::InvalidXml(m@),
        }
    }
}

/// The text of an error: its kind, then its message.
pub open spec fn spec_error_display(e: SpecError) -> Seq<char> {
    match e {
        SpecError::InvalidJson(m) => "invalid JSON: "@ + m,
        SpecError::InvalidStructure(m) => "invalid jCard structure: "@ + m,
        SpecError::InvalidXml(m) => "invalid XML: "@ + m,
    }
}

impl Error {
    /// The text of the error: its kind, then its message.
    pub fn display_string(&self) -> (r: String)
        ensures
            r@ == spec_error_display(self@),
    {
        let mut r = match self {
            Error::InvalidJson(_) => owned("invalid JSON: "),
            Error::InvalidStructure(_) => owned("invalid jCard structure: "),
            Error::InvalidXml(_) => owned("invalid XML: "),
        };
        match self {
            Error::InvalidJson(m) | Error::InvalidStructure(m) | Error::InvalidXml(m) => {
                r.append(m.as_str())
            },
        }
        r
    }
}

} // verus!
