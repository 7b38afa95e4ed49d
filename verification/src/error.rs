//! The ways in which a session can fail.

use vstd::prelude::*;

verus! {

/// Why an operation of the session failed.
#[derive(Debug, Clone, Copy, PartialEq, Eq)]
pub enum SessionError {
    /// The port identifier is empty or is not text.
    InvalidInput,
    /// The transport could not establish the connection.
    OpenFailure,
    /// The connection was opened, but the activation command could not be
    /// sent.
    ActivationWriteFailure,
    /// Reading from the device failed, or what was read is not text.
    ReadFailure,
}

impl SessionError {
    /// The message for this error.
    pub open spec fn spec_message(self) -> Seq<char> {
        match self {
            SessionError::InvalidInput => "Failed to get port name."@,
            SessionError::OpenFailure => "Failed to open."@,
            SessionError::ActivationWriteFailure => "Failed to write."@,
            SessionError::ReadFailure => "Error reading line."@,
        }
    }

    /// A short description of the failure, for a diagnostic stream.
    pub fn message(&self) -> (text: &'static str)
        ensures
            text@ == self.spec_message(),
    {
        match self {
            SessionError::InvalidInput => "Failed to get port name.",
            SessionError::OpenFailure => "Failed to open.",
            SessionError::ActivationWriteFailure => "Failed to write.",
            SessionError::ReadFailure => "Error reading line.",
        }
    }
}

} // verus!
