//! The byte layout of a Vorbis comment block, and the law that decoding
//! reads it back.

use vstd::prelude::*;
use vstd::utf8::encode_utf8;
use vstd::utf8::encode_utf8_decode_utf8;
use vstd::utf8::encode_utf8_valid_utf8;
use crate::error::FormatError;
use crate::text::is_separator_index;
use crate::text::lemma_separator_index_unique;
use crate::text::text_of;
use crate::text::SEPARATOR;
use crate::vorbis::decode_comments;
use crate::vorbis::field_tags;
use crate::vorbis::fields_from;
use crate::vorbis::le_u32;
use crate::vorbis::prefixed_bytes;
use crate::vorbis::prefixed_fits;
use crate::vorbis::split_tag;
use crate::vorbis::vendor_text;
use crate::vorbis::CommentBlockView;
use crate::vorbis::TagView;

verus! {

/// The largest number that a length prefix can hold.
pub const MAX_PREFIX: u32 = 0xFFFF_FFFF;

/// The four bytes of a number, little-endian.
pub open spec fn le_bytes(value: nat) -> Seq<u8>
    recommends
        value <= MAX_PREFIX,
{
    seq![
        (value % 0x100) as u8,
        ((value / 0x100) % 0x100) as u8,
        ((value / 0x1_0000) % 0x100) as u8,
        ((value / 0x100_0000) % 0x100) as u8,
    ]
}

/// Bytes behind their length.
pub open spec fn prefixed(bytes: Seq<u8>) -> Seq<u8>
    recommends
        bytes.len() <= MAX_PREFIX,
{
    le_bytes(bytes.len()) + bytes
}

/// A tag written as `key=value`.
pub open spec fn tag_text(tag: TagView) -> Seq<char> {
    tag.key + seq![SEPARATOR] + tag.value
}

/// The tag can stand in a field: its key holds no separator and its text
/// is short enough for a length prefix.
pub open spec fn tag_fits(tag: TagView) -> bool {
    &&& tag.wf()
    &&& encode_utf8(tag_text(tag)).len() <= MAX_PREFIX
}

/// The fields of the given tags, one after the other.
pub open spec fn fields_layout(tags: Seq<TagView>) -> Seq<u8>
    decreases tags.len(),
{
    if tags.len() == 0 {
        Seq::empty()
    } else {
        prefixed(encode_utf8(tag_text(tags.first()))) + fields_layout(tags.drop_first())
    }
}

/// The payload of a Vorbis comment block with the given vendor string and
/// tags.
pub open spec fn comment_layout(vendor: Seq<char>, tags: Seq<TagView>) -> Seq<u8> {
    prefixed(encode_utf8(vendor)) + le_bytes(tags.len()) + fields_layout(tags)
}

/// The block that the payload of `vendor` and `tags` is read as.
pub open spec fn comment_block_of(vendor: Seq<char>, tags: Seq<TagView>) -> CommentBlockView {
    CommentBlockView {
        vendor_length: encode_utf8(vendor).len(),
        vendor,
        num_fields: tags.len(),
        fields: if tags.len() == 0 {
            None
        } else {
            Some(tags)
        },
    }
}

/// The four bytes of a number are read back as that number.
pub proof fn lemma_le_round_trip(data: Seq<u8>, at: int, value: nat)
    requires
        0 <= at,
        at + 4 <= data.len(),
        value <= MAX_PREFIX,
        data.subrange(at, at + 4) == le_bytes(value),
    ensures
        le_u32(data, at) == value,
{
    let bytes = le_bytes(value);
    assert(data[at] == data.subrange(at, at + 4)[0]);
    assert(data[at + 1] == data.subrange(at, at + 4)[1]);
    assert(data[at + 2] == data.subrange(at, at + 4)[2]);
    assert(data[at + 3] == data.subrange(at, at + 4)[3]);
    assert(bytes[0] == value % 0x100);
    assert(bytes[1] == (value / 0x100) % 0x100);
    assert(bytes[2] == (value / 0x1_0000) % 0x100);
    assert(bytes[3] == (value / 0x100_0000) % 0x100);
}

/// Text that was encoded is well-formed and reads as the same text.
pub proof fn lemma_text_round_trip(text: Seq<char>)
    ensures
        text_of(encode_utf8(text)) == Some(text),
{
    encode_utf8_valid_utf8(text);
    encode_utf8_decode_utf8(text);
}

/// A tag written as `key=value`, with a key that holds no separator, is
/// split into the same key and value.
pub proof fn lemma_tag_round_trip(tag: TagView)
    requires
        tag.wf(),
    ensures
        split_tag(tag_text(tag)) == Some(tag),
        field_tags(encode_utf8(tag_text(tag))) == seq![tag],
{
    let text = tag_text(tag);
    let index = tag.key.len() as int;
    assert(text[index] == SEPARATOR);
    assert forall|j: int| 0 <= j < index implies text[j] != SEPARATOR by {
        assert(text[j] == tag.key[j]);
    }
    assert(is_separator_index(text, index));
    lemma_separator_index_unique(text, index);
    assert(text.subrange(0, index) == tag.key);
    assert(text.subrange(index + 1, text.len() as int) == tag.value);
    lemma_text_round_trip(text);
}

/// Bytes behind their length, standing at `at`, are read as those bytes.
pub proof fn lemma_prefixed_round_trip(data: Seq<u8>, at: int, bytes: Seq<u8>)
    requires
        0 <= at,
        bytes.len() <= MAX_PREFIX,
        at + 4 + bytes.len() <= data.len(),
        data.subrange(at, at + 4 + bytes.len()) == prefixed(bytes),
    ensures
        le_u32(data, at) == bytes.len(),
        prefixed_fits(data, at),
        prefixed_bytes(data, at) == bytes,
{
    let end = at + 4 + bytes.len();
    assert(data.subrange(at, at + 4) == le_bytes(bytes.len())) by {
        assert(data.subrange(at, at + 4) == data.subrange(at, end).subrange(0, 4));
        assert(prefixed(bytes).subrange(0, 4) == le_bytes(bytes.len()));
    }
    lemma_le_round_trip(data, at, bytes.len());
    assert(data.subrange(at + 4, end) == bytes) by {
        assert(data.subrange(at + 4, end) == data.subrange(at, end).subrange(
            4,
            4 + bytes.len() as int,
        ));
        assert(prefixed(bytes).subrange(4, 4 + bytes.len() as int) == bytes);
    }
}

/// Fields laid out from `at` to the end of the buffer are read as their
/// tags.
pub proof fn lemma_fields_round_trip(data: Seq<u8>, at: int, tags: Seq<TagView>)
    requires
        0 <= at <= data.len(),
        data.subrange(at, data.len() as int) == fields_layout(tags),
        forall|i: int| 0 <= i < tags.len() ==> tag_fits(#[trigger] tags[i]),
    ensures
        fields_from(data, at, tags.len()) == Some(tags),
    decreases tags.len(),
{
    if tags.len() == 0 {
        assert(tags == Seq::<TagView>::empty());
    } else {
        let tag = tags.first();
        let rest = tags.drop_first();
        let bytes = encode_utf8(tag_text(tag));
        let tail = data.subrange(at, data.len() as int);
        assert(tag_fits(tag));
        assert(tail == prefixed(bytes) + fields_layout(rest));
        let next = at + 4 + bytes.len();
        assert(tail.len() == 4 + bytes.len() + fields_layout(rest).len());
        assert(data.subrange(at, next) == prefixed(bytes)) by {
            assert(data.subrange(at, next) == tail.subrange(0, 4 + bytes.len() as int));
            assert(tail.subrange(0, 4 + bytes.len() as int) == prefixed(bytes));
        }
        lemma_prefixed_round_trip(data, at, bytes);
        lemma_tag_round_trip(tag);
        assert(data.subrange(next, data.len() as int) == fields_layout(rest)) by {
            assert(data.subrange(next, data.len() as int) == tail.subrange(
                4 + bytes.len() as int,
                tail.len() as int,
            ));
            assert(tail.subrange(4 + bytes.len() as int, tail.len() as int) == fields_layout(rest));
        }
        assert forall|i: int| 0 <= i < rest.len() implies tag_fits(#[trigger] rest[i]) by {
            assert(rest[i] == tags[i + 1]);
        }
        lemma_fields_round_trip(data, next, rest);
        assert(seq![tag] + rest == tags);
    }
}

/// A Vorbis comment block that is laid out as bytes and decoded comes back
/// with its vendor string and its tags, in their order.
pub proof fn lemma_comment_round_trip(vendor: Seq<char>, tags: Seq<TagView>)
    requires
        encode_utf8(vendor).len() <= MAX_PREFIX,
        tags.len() <= MAX_PREFIX,
        forall|i: int| 0 <= i < tags.len() ==> tag_fits(#[trigger] tags[i]),
    ensures
        decode_comments(comment_layout(vendor, tags)) == Ok::<CommentBlockView, FormatError>(
            comment_block_of(vendor, tags),
        ),
{
    let vendor_bytes = encode_utf8(vendor);
    let data = comment_layout(vendor, tags);
    let count_at = 4 + vendor_bytes.len() as int;
    let fields_at = count_at + 4;
    assert(data.len() == fields_at + fields_layout(tags).len());
    assert(data.subrange(0, count_at) == prefixed(vendor_bytes));
    lemma_prefixed_round_trip(data, 0, vendor_bytes);
    lemma_text_round_trip(vendor);
    assert(vendor_text(prefixed_bytes(data, 0)) == vendor);
    assert(data.subrange(count_at, fields_at) == le_bytes(tags.len()));
    lemma_le_round_trip(data, count_at, tags.len());
    assert(data.subrange(fields_at, data.len() as int) == fields_layout(tags));
    lemma_fields_round_trip(data, fields_at, tags);
}

} // verus!
