//! The audio formats whose tags can be read, by file extension.

use vstd::prelude::*;

verus! {

/// An audio format whose tags can be read.
#[derive(Debug, Clone, Copy, PartialEq, Eq, Structural)]
pub enum AudioFormat {
    Flac,
}

/// The format that a file extension stands for. The extension is given
/// without its dot and is taken as written: `FLAC` is not `flac`.
pub open spec fn format_of(extension: Seq<char>) -> Option<AudioFormat> {
    if extension == "flac"@ {
        Some(AudioFormat::Flac)
    } else {
        None
    }
}

/// Chooses the format of a file by its extension; `None` for a file of no
/// format that can be read.
pub fn format_of_extension(extension: &str) -> (format: Option<AudioFormat>)
    ensures
        format == format_of(extension@),
{
    let given = extension.to_owned();
    let flac = "flac".to_owned();
    if given == flac {
        Some(AudioFormat::Flac)
    } else {
        None
    }
}

} // verus!
