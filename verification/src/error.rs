//! Errors a controller can report.

use vstd::prelude::*;
use vstd::string::StringExecFns;

verus! {

/// Common controller errors.
#[derive(Debug, Copy, Clone, PartialEq, Eq, Structural)]
pub enum Error {
    /// The connection to the device failed while reading or writing.
    Transport,
    /// Input buffer does not contain the expected amount of data.
    InvalidReport,
    /// Unexpected control returned from hardware device.
    UnknownControl,
}

impl Error {
    /// The text that describes each kind of error.
    pub open spec fn message_text(self) -> Seq<char> {
        match self {
            Error::Transport => "Transfer to or from the device failed"@,
            Error::InvalidReport => "Report is either two small or not parsable"@,
            Error::UnknownControl => "Unexpected control returned from hardware device"@,
        }
    }

    /// A human-readable description of the error.
    pub fn message(&self) -> (text: String)
        ensures
            text@ == self.message_text(),
    {
        match self {
            Error::Transport => String::from_str("Transfer to or from the device failed"),
            Error::InvalidReport => String::from_str("Report is either two small or not parsable"),
            Error::UnknownControl => String::from_str(
                "Unexpected control returned from hardware device",
            ),
        }
    }
}

} // verus!
