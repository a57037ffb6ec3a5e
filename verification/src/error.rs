//! The failures that a render can end in.

use vstd::prelude::*;
use vstd::string::StringExecFns;

verus! {

/// Why a render, or the reading of its configuration, failed. Each variant carries the detail
/// that completes its message.
#[derive(Debug)]
pub enum SiaError {
    Io(String),
    XmlParseError(String),
    InvalidSvg(String),
    Image(String),
    InvalidConfig(String),
    Parse(String),
    FontLoad(String),
    LatinDetect(String),
    FontNameDetect(String),
    Message(String),
}

impl SiaError {
    /// The detail that the error carries.
    pub open spec fn detail(self) -> Seq<char> {
        match self {
            SiaError::Io(d) => d@,
            SiaError::XmlParseError(d) => d@,
            SiaError::InvalidSvg(d) => d@,
            SiaError::Image(d) => d@,
            SiaError::InvalidConfig(d) => d@,
            SiaError::Parse(d) => d@,
            SiaError::FontLoad(d) => d@,
            SiaError::LatinDetect(d) => d@,
            SiaError::FontNameDetect(d) => d@,
            SiaError::Message(d) => d@,
        }
    }

    /// The words that introduce the detail in the error's message.
    pub open spec fn heading(self) -> Seq<char> {
        match self {
            SiaError::Io(_) => "I/O error: "@,
            SiaError::XmlParseError(_) => "XML Parse error: "@,
            SiaError::InvalidSvg(_) => "Invalid SVG: "@,
            SiaError::Image(_) => "Image error: "@,
            SiaError::InvalidConfig(_) => "Invalid configuration: "@,
            SiaError::Parse(_) => "Error While Parsing: "@,
            SiaError::FontLoad(_) => "Font load failure: "@,
            SiaError::LatinDetect(_) => "Latin\u{2010}script detection error: "@,
            SiaError::FontNameDetect(_) => "Font\u{2010}name detection error: "@,
            SiaError::Message(_) => "Sia Error: "@,
        }
    }

    /// The message of the error: its heading and then its detail.
    pub open spec fn message_spec(self) -> Seq<char> {
        self.heading() + self.detail()
    }

    /// Is this an invalid-configuration error with the detail `what`?
    pub open spec fn is_invalid_config(self, what: Seq<char>) -> bool {
        self matches SiaError::InvalidConfig(d) && d@ == what
    }

    /// The message of the error.
    pub fn message(&self) -> (out: String)
        ensures
            out@ == self.message_spec(),
    {
        match self {
            SiaError::Io(d) => String::from_str("I/O error: ").concat(d.as_str()),
            SiaError::XmlParseError(d) => String::from_str("XML Parse error: ").concat(d.as_str()),
            SiaError::InvalidSvg(d) => String::from_str("Invalid SVG: ").concat(d.as_str()),
            SiaError::Image(d) => String::from_str("Image error: ").concat(d.as_str()),
            SiaError::InvalidConfig(d) => String::from_str("Invalid configuration: ").concat(
                d.as_str(),
            ),
            SiaError::Parse(d) => String::from_str("Error While Parsing: ").concat(d.as_str()),
            SiaError::FontLoad(d) => String::from_str("Font load failure: ").concat(d.as_str()),
            SiaError::LatinDetect(d) => String::from_str(
                "Latin\u{2010}script detection error: ",
            ).concat(d.as_str()),
            SiaError::FontNameDetect(d) => String::from_str(
                "Font\u{2010}name detection error: ",
            ).concat(d.as_str()),
            SiaError::Message(d) => String::from_str("Sia Error: ").concat(d.as_str()),
        }
    }

    /// An invalid-configuration error about `what`.
    pub fn invalid_config(what: &str) -> (e: SiaError)
        ensures
            e.is_invalid_config(what@),
    {
        SiaError::InvalidConfig(String::from_str(what))
    }
}

} // verus!
