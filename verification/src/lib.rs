//! Reading the tags of FLAC audio files.
//!
//! A file is read in three steps. [`get_metadata_blocks`] checks the
//! signature and walks the list of metadata blocks. [`VorbisCommentBlock::decode`]
//! decodes the payload of a Vorbis comment block into its vendor string and
//! its fields. [`normalize`] collects the fields under the usual tag names.
//! [`read_metadata`] does all three.

pub mod block;
pub mod container;
pub mod error;
pub mod formats;
pub mod layout;
pub mod metadata;
pub mod picture;
pub mod reader;
pub mod text;
pub mod vorbis;

pub use block::MetadataBlock;
pub use block::MetadataBlockType;
pub use block::MetadataType;
pub use container::get_metadata_blocks;
pub use container::is_flac;
pub use error::FormatError;
pub use formats::format_of_extension;
pub use formats::AudioFormat;
pub use metadata::normalize;
pub use metadata::Metadata;
pub use picture::PictureBlock;
pub use picture::PictureType;
pub use reader::read_metadata;
pub use vorbis::Metadatum;
pub use vorbis::VorbisComment;
pub use vorbis::VorbisCommentBlock;
