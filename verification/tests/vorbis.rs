use termtag::error::FormatError;
use termtag::vorbis::read_prefix;
use termtag::vorbis::read_prefixed;
use termtag::vorbis::split_field;
use termtag::vorbis::VorbisCommentBlock;

fn prefixed(bytes: &[u8]) -> Vec<u8> {
    let mut out = (bytes.len() as u32).to_le_bytes().to_vec();
    out.extend_from_slice(bytes);
    out
}

fn comment_payload(vendor: &[u8], fields: &[&[u8]]) -> Vec<u8> {
    let mut out = prefixed(vendor);
    out.extend_from_slice(&(fields.len() as u32).to_le_bytes());
    for field in fields {
        out.extend_from_slice(&prefixed(field));
    }
    out
}

fn pairs(block: &VorbisCommentBlock) -> Vec<(String, String)> {
    match &block.fields {
        Some(fields) => fields.iter().map(|f| (f.key.clone(), f.value.clone())).collect(),
        None => Vec::new(),
    }
}

fn pair(key: &str, value: &str) -> (String, String) {
    (key.to_string(), value.to_string())
}

#[test]
fn decode_round_trip_of_vendor_and_two_fields() {
    let payload = comment_payload(b"test", &[b"TITLE=Song", b"ARTIST=Band"]);
    let block = VorbisCommentBlock::decode(&payload).unwrap();
    assert_eq!(block.vendor, "test");
    assert_eq!(block.vendor_length, 4);
    assert_eq!(block.num_fields, 2);
    assert_eq!(pairs(&block), vec![pair("TITLE", "Song"), pair("ARTIST", "Band")]);
}

#[test]
fn decode_reads_the_wire_layout_byte_for_byte() {
    let payload = vec![
        3, 0, 0, 0, b'e', b'n', b'c', 1, 0, 0, 0, 3, 0, 0, 0, b'A', b'=', b'b',
    ];
    let block = VorbisCommentBlock::decode(&payload).unwrap();
    assert_eq!(block.vendor, "enc");
    assert_eq!(block.vendor_length, 3);
    assert_eq!(block.num_fields, 1);
    assert_eq!(pairs(&block), vec![pair("A", "b")]);
}

#[test]
fn decode_of_zero_fields_gives_no_fields() {
    let payload = comment_payload(b"vendor", &[]);
    let block = VorbisCommentBlock::decode(&payload).unwrap();
    assert_eq!(block.vendor, "vendor");
    assert_eq!(block.num_fields, 0);
    assert!(block.fields.is_none());
    assert!(pairs(&block).is_empty());
}

#[test]
fn decode_of_empty_vendor() {
    let payload = comment_payload(b"", &[b"A=1"]);
    let block = VorbisCommentBlock::decode(&payload).unwrap();
    assert_eq!(block.vendor, "");
    assert_eq!(block.vendor_length, 0);
    assert_eq!(pairs(&block), vec![pair("A", "1")]);
}

#[test]
fn decode_of_invalid_vendor_gives_placeholder() {
    let payload = comment_payload(&[0xFF, 0xFE, 0x41], &[b"TITLE=Song"]);
    let block = VorbisCommentBlock::decode(&payload).unwrap();
    assert_eq!(block.vendor, "Unknown Vendor");
    assert_eq!(block.vendor_length, 3);
    assert_eq!(pairs(&block), vec![pair("TITLE", "Song")]);
}

#[test]
fn decode_of_overlong_encoding_in_vendor_gives_placeholder() {
    let payload = comment_payload(&[0xC0, 0x80], &[]);
    let block = VorbisCommentBlock::decode(&payload).unwrap();
    assert_eq!(block.vendor, "Unknown Vendor");
}

#[test]
fn decode_reads_multibyte_text() {
    let vendor = "Xiph \u{2603} libVorbis";
    let field = "TITLE=Sigur R\u{f3}s \u{1F3B5} \u{65e5}\u{672c}";
    let payload = comment_payload(vendor.as_bytes(), &[field.as_bytes()]);
    let block = VorbisCommentBlock::decode(&payload).unwrap();
    assert_eq!(block.vendor, vendor);
    assert_eq!(block.vendor_length, vendor.len());
    assert_eq!(pairs(&block), vec![pair("TITLE", "Sigur R\u{f3}s \u{1F3B5} \u{65e5}\u{672c}")]);
}

#[test]
fn decode_splits_behind_multibyte_key() {
    let field = "K\u{fc}nstler=Bj\u{f6}rk";
    let payload = comment_payload(b"v", &[field.as_bytes()]);
    let block = VorbisCommentBlock::decode(&payload).unwrap();
    assert_eq!(pairs(&block), vec![pair("K\u{fc}nstler", "Bj\u{f6}rk")]);
}

#[test]
fn decode_drops_field_without_separator() {
    let payload = comment_payload(b"v", &[b"TITLE=Song", b"NOSEPARATOR", b"ARTIST=Band"]);
    let block = VorbisCommentBlock::decode(&payload).unwrap();
    assert_eq!(block.num_fields, 3);
    assert_eq!(pairs(&block), vec![pair("TITLE", "Song"), pair("ARTIST", "Band")]);
}

#[test]
fn decode_of_only_dropped_fields_gives_empty_list() {
    let payload = comment_payload(b"v", &[b"NOSEPARATOR", b""]);
    let block = VorbisCommentBlock::decode(&payload).unwrap();
    assert_eq!(block.num_fields, 2);
    assert_eq!(block.fields.as_ref().map(|fields| fields.len()), Some(0));
}

#[test]
fn decode_drops_field_of_invalid_text() {
    let payload = comment_payload(b"v", &[b"A=1", &[b'B', b'=', 0xFF], b"C=3"]);
    let block = VorbisCommentBlock::decode(&payload).unwrap();
    assert_eq!(block.num_fields, 3);
    assert_eq!(pairs(&block), vec![pair("A", "1"), pair("C", "3")]);
}

#[test]
fn decode_splits_at_the_first_separator() {
    let payload = comment_payload(b"v", &[b"COMMENT=a=b=c", b"X==", b"=lonely", b"EMPTY="]);
    let block = VorbisCommentBlock::decode(&payload).unwrap();
    assert_eq!(
        pairs(&block),
        vec![pair("COMMENT", "a=b=c"), pair("X", "="), pair("", "lonely"), pair("EMPTY", "")]
    );
}

#[test]
fn decode_keeps_duplicate_keys_in_order() {
    let payload = comment_payload(b"v", &[b"ARTIST=A", b"ARTIST=B"]);
    let block = VorbisCommentBlock::decode(&payload).unwrap();
    assert_eq!(pairs(&block), vec![pair("ARTIST", "A"), pair("ARTIST", "B")]);
}

#[test]
fn decode_ignores_bytes_behind_the_last_field() {
    let mut payload = comment_payload(b"v", &[b"A=1"]);
    payload.extend_from_slice(&[1, 2, 3]);
    let block = VorbisCommentBlock::decode(&payload).unwrap();
    assert_eq!(pairs(&block), vec![pair("A", "1")]);
}

#[test]
fn decode_of_empty_payload_is_truncated() {
    assert_eq!(VorbisCommentBlock::decode(&Vec::new()).err(), Some(FormatError::Truncated));
}

#[test]
fn decode_of_partial_vendor_length_is_truncated() {
    assert_eq!(VorbisCommentBlock::decode(&vec![4, 0, 0]).err(), Some(FormatError::Truncated));
}

#[test]
fn decode_of_overlong_vendor_is_truncated() {
    let payload = vec![5, 0, 0, 0, b't', b'e', b's', b't'];
    assert_eq!(VorbisCommentBlock::decode(&payload).err(), Some(FormatError::Truncated));
}

#[test]
fn decode_of_huge_vendor_length_is_truncated() {
    let payload = vec![0xFF, 0xFF, 0xFF, 0xFF, b't', b'e', b's', b't'];
    assert_eq!(VorbisCommentBlock::decode(&payload).err(), Some(FormatError::Truncated));
}

#[test]
fn decode_without_field_count_is_truncated() {
    let payload = prefixed(b"test");
    assert_eq!(VorbisCommentBlock::decode(&payload).err(), Some(FormatError::Truncated));
    let mut partial = prefixed(b"test");
    partial.extend_from_slice(&[1, 0]);
    assert_eq!(VorbisCommentBlock::decode(&partial).err(), Some(FormatError::Truncated));
}

#[test]
fn decode_with_missing_field_is_truncated() {
    let mut payload = comment_payload(b"test", &[b"A=1"]);
    let count_at = 4 + 4;
    payload[count_at] = 2;
    assert_eq!(VorbisCommentBlock::decode(&payload).err(), Some(FormatError::Truncated));
}

#[test]
fn decode_with_overlong_field_is_truncated() {
    let mut payload = comment_payload(b"test", &[b"A=1", b"B=2"]);
    let second_field = 4 + 4 + 4 + 4 + 3;
    payload[second_field] = 4;
    assert_eq!(VorbisCommentBlock::decode(&payload).err(), Some(FormatError::Truncated));
}

#[test]
fn decode_with_huge_field_count_is_truncated() {
    let mut payload = comment_payload(b"test", &[b"A=1"]);
    let count_at = 4 + 4;
    payload[count_at..count_at + 4].copy_from_slice(&[0xFF, 0xFF, 0xFF, 0xFF]);
    assert_eq!(VorbisCommentBlock::decode(&payload).err(), Some(FormatError::Truncated));
}

#[test]
fn decode_twice_gives_the_same_block() {
    let payload = comment_payload(b"test", &[b"TITLE=Song", b"junk", b"ARTIST=Band"]);
    let first = VorbisCommentBlock::decode(&payload).unwrap();
    let second = VorbisCommentBlock::decode(&payload).unwrap();
    assert_eq!(first.vendor, second.vendor);
    assert_eq!(first.vendor_length, second.vendor_length);
    assert_eq!(first.num_fields, second.num_fields);
    assert_eq!(pairs(&first), pairs(&second));
}

#[test]
fn prefix_is_read_little_endian() {
    let data = vec![0x04, 0x03, 0x02, 0x01, 0xAA];
    assert_eq!(read_prefix(&data, 0), Some(0x0102_0304));
    assert_eq!(read_prefix(&data, 1), Some(0xAA01_0203));
    assert_eq!(read_prefix(&data, 2), None);
    assert_eq!(read_prefix(&data, 5), None);
    assert_eq!(read_prefix(&data, 9), None);
}

#[test]
fn prefixed_bytes_are_copied_with_the_next_offset() {
    let data = vec![9, 2, 0, 0, 0, 7, 8, 1];
    assert_eq!(read_prefixed(&data, 1), Some((vec![7, 8], 7)));
    assert_eq!(read_prefixed(&data, 0), None);
    assert_eq!(read_prefixed(&data, 4), None);
    assert_eq!(read_prefixed(&data, 8), None);
}

#[test]
fn split_field_separates_key_and_value() {
    let tag = split_field("TITLE=Song").unwrap();
    assert_eq!(tag.key, "TITLE");
    assert_eq!(tag.value, "Song");
    assert!(split_field("NOSEPARATOR").is_none());
    assert!(split_field("").is_none());
    let bare = split_field("=").unwrap();
    assert_eq!(bare.key, "");
    assert_eq!(bare.value, "");
}
