use termtag::block::MetadataBlock;
use termtag::block::MetadataBlockType;
use termtag::block::MetadataType;
use termtag::block::LAST_BLOCK_FLAG;
use termtag::block::MAX_BLOCK_LENGTH;
use termtag::block::METADATA_TYPE_FLAG;
use termtag::error::FormatError;
use termtag::formats::format_of_extension;
use termtag::formats::AudioFormat;
use termtag::picture::PictureBlock;
use termtag::picture::PictureType;
use termtag::vorbis::Metadatum;
use termtag::vorbis::VorbisComment;
use termtag::vorbis::VorbisCommentBlock;

#[test]
fn block_type_of_each_known_code() {
    assert_eq!(MetadataBlockType::from(0), MetadataBlockType::StreamInfo);
    assert_eq!(MetadataBlockType::from(1), MetadataBlockType::Padding);
    assert_eq!(MetadataBlockType::from(2), MetadataBlockType::Application);
    assert_eq!(MetadataBlockType::from(3), MetadataBlockType::SeekTable);
    assert_eq!(MetadataBlockType::from(4), MetadataBlockType::VorbisComment);
    assert_eq!(MetadataBlockType::from(5), MetadataBlockType::Cuesheet);
    assert_eq!(MetadataBlockType::from(6), MetadataBlockType::Picture);
}

#[test]
fn block_type_of_reserved_and_forbidden_codes() {
    assert_eq!(MetadataBlockType::from(7), MetadataBlockType::Reserved);
    assert_eq!(MetadataBlockType::from(64), MetadataBlockType::Reserved);
    assert_eq!(MetadataBlockType::from(126), MetadataBlockType::Reserved);
    assert_eq!(MetadataBlockType::from(127), MetadataBlockType::Forbidden);
    assert_eq!(MetadataBlockType::from(128), MetadataBlockType::Forbidden);
    assert_eq!(MetadataBlockType::from(255), MetadataBlockType::Forbidden);
}

#[test]
fn block_type_by_its_short_name() {
    let kind: MetadataType = MetadataType::from(4);
    assert_eq!(kind, MetadataBlockType::VorbisComment);
}

#[test]
fn default_block_type_is_stream_info() {
    assert_eq!(MetadataBlockType::default(), MetadataBlockType::StreamInfo);
}

#[test]
fn header_masks() {
    assert_eq!(LAST_BLOCK_FLAG, 0b1000_0000);
    assert_eq!(METADATA_TYPE_FLAG, 0b0111_1111);
    assert_eq!(MAX_BLOCK_LENGTH, 16_777_215);
}

#[test]
fn block_keeps_what_it_is_made_of() {
    let block = MetadataBlock::new(MetadataBlockType::Picture, true, vec![1, 2, 3, 4, 5]);
    assert_eq!(block.metadata_type, MetadataBlockType::Picture);
    assert!(block.is_last);
    assert_eq!(block.data, vec![1, 2, 3, 4, 5]);
    assert_eq!(block.header_length(), 5);
}

#[test]
fn header_length_of_empty_block_is_zero() {
    let block = MetadataBlock::new(MetadataBlockType::Padding, false, Vec::new());
    assert_eq!(block.header_length(), 0);
    assert!(!block.is_last);
}

#[test]
fn default_block_is_empty_stream_info() {
    let block = MetadataBlock::default();
    assert_eq!(block.metadata_type, MetadataBlockType::StreamInfo);
    assert!(!block.is_last);
    assert!(block.data.is_empty());
}

#[test]
fn tag_keeps_key_and_value() {
    let tag = Metadatum::new("TITLE".to_string(), "Song".to_string());
    assert_eq!(tag.key, "TITLE");
    assert_eq!(tag.value, "Song");
}

#[test]
fn tag_header_length_counts_bytes_and_separator() {
    let tag = Metadatum::new("TITLE".to_string(), "Song".to_string());
    assert_eq!(tag.header_length(), 10);
    let empty = Metadatum::new(String::new(), String::new());
    assert_eq!(empty.header_length(), 1);
    let wide: VorbisComment = Metadatum::new("K\u{fc}".to_string(), "\u{1F3B5}".to_string());
    assert_eq!(wide.header_length(), 3 + 4 + 1);
}

#[test]
fn default_tag_is_empty() {
    let tag = Metadatum::default();
    assert_eq!(tag.key, "");
    assert_eq!(tag.value, "");
}

#[test]
fn comment_block_keeps_what_it_is_made_of() {
    let fields = vec![Metadatum::new("A".to_string(), "1".to_string())];
    let block = VorbisCommentBlock::new(4, "test".to_string(), 1, Some(fields));
    assert_eq!(block.vendor_length, 4);
    assert_eq!(block.vendor, "test");
    assert_eq!(block.num_fields, 1);
    let fields = block.fields.unwrap();
    assert_eq!(fields.len(), 1);
    assert_eq!(fields[0].key, "A");
    assert_eq!(fields[0].value, "1");
}

#[test]
fn default_comment_block_is_empty() {
    let block = VorbisCommentBlock::default();
    assert_eq!(block.vendor_length, 0);
    assert_eq!(block.vendor, "");
    assert_eq!(block.num_fields, 0);
    assert!(block.fields.is_none());
}

#[test]
fn error_messages() {
    assert_eq!(FormatError::NotContainer.message(), "Given path is not a FLAC file.");
    assert_eq!(FormatError::Truncated.message(), "Invalid or corrupt FLAC file given");
    assert_ne!(FormatError::NotContainer, FormatError::Truncated);
}

#[test]
fn flac_extension_is_known() {
    assert_eq!(format_of_extension("flac"), Some(AudioFormat::Flac));
}

#[test]
fn other_extensions_are_unknown() {
    assert_eq!(format_of_extension("FLAC"), None);
    assert_eq!(format_of_extension("mp3"), None);
    assert_eq!(format_of_extension("fla"), None);
    assert_eq!(format_of_extension("flacs"), None);
    assert_eq!(format_of_extension(".flac"), None);
    assert_eq!(format_of_extension(""), None);
}

#[test]
fn picture_head_holds_type_and_length() {
    let head = PictureBlock { picture_type: PictureType::FrontCover, media_type_length: 9 };
    assert_eq!(head.picture_type, PictureType::FrontCover);
    assert_eq!(head.media_type_length, 9);
    assert_ne!(PictureType::Other, PictureType::PNG);
}
