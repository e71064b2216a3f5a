//! Error taxonomy of the scanner.

use vstd::prelude::*;
use vstd::string::StringExecFns;

verus! {

/// Every failure the library reports.
///
/// `IoError` stands for a socket setup, send or receive fault that a caller
/// performing the actual I/O observed; `Timeout` is the expected "host kept
/// silent" outcome and distinct from a fault. `MalformedPacket`,
/// `UnsupportedRecordType` and `InvalidUtf8` come out of the wire codec.
/// `ResolutionFailed` records an exhausted reverse-lookup chain, and
/// `ParseError` a rejected port-list or address string.
#[derive(Clone, Copy, PartialEq, Eq, Structural, Debug)]
pub enum FindiError {
    IoError,
    Timeout,
    MalformedPacket,
    UnsupportedRecordType,
    InvalidUtf8,
    ResolutionFailed,
    ParseError,
}

impl FindiError {
    /// A short reason in words, for records and reports.
    pub fn text(&self) -> (r: String)
        ensures
            r@ == self.spec_text(),
    {
        match *self {
            FindiError::IoError => String::from_str("socket error"),
            FindiError::Timeout => String::from_str("timed out"),
            FindiError::MalformedPacket => String::from_str("malformed packet"),
            FindiError::UnsupportedRecordType => String::from_str("unsupported record type"),
            FindiError::InvalidUtf8 => String::from_str("invalid UTF-8"),
            FindiError::ResolutionFailed => String::from_str("Reverse lookup failed"),
            FindiError::ParseError => String::from_str("parse error"),
        }
    }

    /// The words [`Self::text`] reports.
    pub open spec fn spec_text(self) -> Seq<char> {
        match self {
            FindiError::IoError => "socket error"@,
            FindiError::Timeout => "timed out"@,
            FindiError::MalformedPacket => "malformed packet"@,
            FindiError::UnsupportedRecordType => "unsupported record type"@,
            FindiError::InvalidUtf8 => "invalid UTF-8"@,
            FindiError::ResolutionFailed => "Reverse lookup failed"@,
            FindiError::ParseError => "parse error"@,
        }
    }
}

} // verus!
