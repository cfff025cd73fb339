//! The head of a picture block.

use vstd::prelude::*;

verus! {

/// What a picture in a picture block shows.
#[derive(Debug, Clone, Copy, PartialEq, Eq, Structural)]
pub enum PictureType {
    Other,
    PNG,
    GeneralIcon,
    FrontCover,
    BackCover,
    LinerNotes,
    MediaLabel,
    LeadArtist,
    ArtistOrPerformer,
    Conductor,
    BandOrOrchestra,
    Composer,
    Lyricist,
    RecordingLocation,
    DuringRecording,
    DuringPerformance,
    MovieOrScreenCapture,
    ABrightColoredFish,
    Illustration,
    BandOrArtistLogotype,
    PublisherOrStudioLogotype,
}

/// The first fields of a picture block: what the picture shows, and the
/// length of the media type string that follows.
#[derive(Debug, Clone, Copy, PartialEq, Eq, Structural)]
pub struct PictureBlock {
    pub picture_type: PictureType,
    pub media_type_length: usize,
}

} // verus!
