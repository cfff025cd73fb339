//! The ways in which reading a file's metadata can fail.

use vstd::prelude::*;

verus! {

/// Why a buffer could not be read as FLAC metadata.
#[derive(Debug, Clone, Copy, PartialEq, Eq, Structural)]
pub enum FormatError {
    /// The buffer does not start with the FLAC signature.
    NotContainer,
    /// A length stored in the buffer reaches past the end of the buffer.
    Truncated,
}

impl FormatError {
    /// The message shown for this error.
    pub fn message(&self) -> (text: String)
        ensures
            text@ == match *self {
                FormatError::NotContainer => "Given path is not a FLAC file."@,
                FormatError::Truncated => "Invalid or corrupt FLAC file given"@,
            },
    {
        match self {
            FormatError::NotContainer => "Given path is not a FLAC file.".to_owned(),
            FormatError::Truncated => "Invalid or corrupt FLAC file given".to_owned(),
        }
    }
}

} // verus!
