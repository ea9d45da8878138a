//! The failures a copy can end in.

use vstd::prelude::*;
use vstd::string::*;

verus! {

/// Why an invocation failed.
///
/// The first four variants are found before anything is written; `Io` is met
/// while copying and travels over the status channel; `Channel` means the
/// status channel itself broke, which a correct run never sees.
#[derive(Debug, Clone, PartialEq, Eq)]
pub enum XcpError {
    /// The invocation is malformed.
    InvalidArguments(String),
    /// A source is missing, is a directory without recursion, or is the
    /// destination itself.
    InvalidSource(&'static str),
    /// The destination cannot take what is to be copied into it.
    InvalidDestination(&'static str),
    /// The destination path is already taken; the path is carried along.
    DestinationExists(&'static str, String),
    /// A read, write or metadata call failed; carries the system's own words.
    Io(String),
    /// The status channel was closed under a sender.
    Channel,
}

impl XcpError {
    /// The text of [`XcpError::message`], as a sequence of characters.
    pub open spec fn text(self) -> Seq<char> {
        match self {
            XcpError::InvalidArguments(m) => "Invalid arguments: "@ + m@,
            XcpError::InvalidSource(m) => "Invalid source: "@ + m@,
            XcpError::InvalidDestination(m) => "Invalid destination: "@ + m@,
            XcpError::DestinationExists(m, p) => "Destination exists: "@ + m@ + " "@ + p@,
            XcpError::Io(m) => "I/O error: "@ + m@,
            XcpError::Channel => "Status channel closed unexpectedly."@,
        }
    }

    /// One line for the diagnostic stream.
    pub fn message(&self) -> (s: String)
        ensures
            s@ == self.text(),
    {
        match self {
            XcpError::InvalidArguments(m) => String::from_str("Invalid arguments: ").concat(
                m.as_str(),
            ),
            XcpError::InvalidSource(m) => String::from_str("Invalid source: ").concat(m),
            XcpError::InvalidDestination(m) => String::from_str("Invalid destination: ").concat(m),
            XcpError::DestinationExists(m, p) => String::from_str("Destination exists: ").concat(
                m,
            ).concat(" ").concat(p.as_str()),
            XcpError::Io(m) => String::from_str("I/O error: ").concat(m.as_str()),
            XcpError::Channel => String::from_str("Status channel closed unexpectedly."),
        }
    }

    /// The exit code of a run that ended in this failure. It is the same
    /// for every failure, and never that of success, which is zero.
    pub fn exit_code(&self) -> (code: u8)
        ensures
            code == 1,
    {
        1
    }

    /// A copy of this failure.
    pub fn duplicate(&self) -> (copy: XcpError)
        ensures
            copy == *self,
    {
        match self {
            XcpError::InvalidArguments(m) => XcpError::InvalidArguments(m.clone()),
            XcpError::InvalidSource(m) => XcpError::InvalidSource(*m),
            XcpError::InvalidDestination(m) => XcpError::InvalidDestination(*m),
            XcpError::DestinationExists(m, p) => XcpError::DestinationExists(*m, p.clone()),
            XcpError::Io(m) => XcpError::Io(m.clone()),
            XcpError::Channel => XcpError::Channel,
        }
    }
}

} // verus!
