//! The failures that a conversion can report.

use vstd::prelude::*;

verus! {

/// Why a conversion stopped.
#[derive(Clone, Copy, Debug, PartialEq, Eq, Structural)]
pub enum ConvertError {
    /// No terminal is attached, so there is no character grid to fill.
    TerminalUnavailable,
    /// The terminal reported a grid with no columns or no rows.
    InvalidTerminalSize,
    /// A brightness above the declared maximum reached the palette.
    InvalidBrightnessIndex,
}

impl ConvertError {
    /// A short description of the failure, for the error stream.
    pub fn message(&self) -> (text: String)
        ensures
            text@ == self.message_text(),
    {
        match self {
            ConvertError::TerminalUnavailable => "Can't get terminal size".to_string(),
            ConvertError::InvalidTerminalSize => "The terminal has no columns or no rows".to_string(),
            ConvertError::InvalidBrightnessIndex => "The index is higher than the max index".to_string(),
        }
    }

    /// The characters of [`ConvertError::message`].
    pub open spec fn message_text(&self) -> Seq<char> {
        match self {
            ConvertError::TerminalUnavailable => "Can't get terminal size"@,
            ConvertError::InvalidTerminalSize => "The terminal has no columns or no rows"@,
            ConvertError::InvalidBrightnessIndex => "The index is higher than the max index"@,
        }
    }
}

} // verus!
