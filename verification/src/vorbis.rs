//! The Vorbis comment block: a vendor string and a list of `key=value`
//! fields.
//!
//! Unlike the rest of a FLAC file, the block writes its numbers little-endian.
//! It starts with the length of the vendor string in four bytes and the
//! vendor string itself. Then comes the number of fields in four bytes, and
//! for each field its length in four bytes and its text.

use vstd::prelude::*;
use vstd::slice::slice_subrange;
use vstd::slice::slice_to_vec;
use vstd::string::StrSliceExecFns;
use vstd::utf8::encode_utf8;
use crate::error::FormatError;
use crate::text::decode_text;
use crate::text::find_separator;
use crate::text::separator_index;
use crate::text::text_of;
use crate::text::SEPARATOR;

verus! {

/// The length of a length prefix.
pub const PREFIX_LENGTH: usize = 4;

/// One tag: a key and its value.
#[derive(Debug)]
pub struct Metadatum {
    pub key: String,
    pub value: String,
}

/// A field of a Vorbis comment block.
pub type VorbisComment = Metadatum;

/// A tag as a mathematical value.
pub struct TagView {
    pub key: Seq<char>,
    pub value: Seq<char>,
}

impl View for Metadatum {
    type V = TagView;

    open spec fn view(&self) -> TagView {
        TagView { key: self.key@, value: self.value@ }
    }
}

impl TagView {
    /// The key holds no separator, so that key and value can be told apart
    /// when the tag is written as `key=value`.
    pub open spec fn wf(self) -> bool {
        forall|i: int| 0 <= i < self.key.len() ==> self.key[i] != SEPARATOR
    }

    /// The number of bytes that the tag takes when written as `key=value`.
    pub open spec fn encoded_len(self) -> nat {
        encode_utf8(self.key).len() + encode_utf8(self.value).len() + 1
    }
}

/// The views of a list of tags, in order.
pub open spec fn tag_views(tags: Seq<Metadatum>) -> Seq<TagView> {
    tags.map_values(|tag: Metadatum| tag@)
}

impl Metadatum {
    /// The key holds no separator.
    pub open spec fn wf(&self) -> bool {
        self@.wf()
    }

    pub fn new(key: String, value: String) -> (tag: Self)
        ensures
            tag.key == key,
            tag.value == value,
    {
        Metadatum { key, value }
    }

    /// The length of the tag written as `key=value`, in bytes: what stands
    /// in the length prefix of its field.
    pub fn header_length(&self) -> (length: u64)
        requires
            self@.encoded_len() <= usize::MAX,
        ensures
            length == self@.encoded_len(),
    {
        let total: usize = self.key.as_str().len() + self.value.as_str().len() + 1;
        total as u64
    }
}

impl Default for Metadatum {
    fn default() -> (tag: Self)
        ensures
            tag.key@ == Seq::<char>::empty(),
            tag.value@ == Seq::<char>::empty(),
    {
        Metadatum { key: String::new(), value: String::new() }
    }
}

/// A Vorbis comment block as read: the vendor string with the length its
/// prefix gave, and the fields with the count that the block gave.
///
/// `fields` is `None` where the block says that it has no fields. It can
/// hold fewer fields than `num_fields` says: a field without a separator is
/// left out.
#[derive(Debug)]
pub struct VorbisCommentBlock {
    pub vendor_length: usize,
    pub vendor: String,
    pub num_fields: usize,
    pub fields: Option<Vec<VorbisComment>>,
}

/// A Vorbis comment block as a mathematical value.
pub struct CommentBlockView {
    pub vendor_length: nat,
    pub vendor: Seq<char>,
    pub num_fields: nat,
    pub fields: Option<Seq<TagView>>,
}

impl CommentBlockView {
    /// The tags of the block in the order of the file; none where the block
    /// has no fields.
    pub open spec fn tags(self) -> Seq<TagView> {
        match self.fields {
            Some(fields) => fields,
            None => Seq::empty(),
        }
    }
}

impl View for VorbisCommentBlock {
    type V = CommentBlockView;

    open spec fn view(&self) -> CommentBlockView {
        CommentBlockView {
            vendor_length: self.vendor_length as nat,
            vendor: self.vendor@,
            num_fields: self.num_fields as nat,
            fields: match self.fields {
                Some(fields) => Some(tag_views(fields@)),
                None => None,
            },
        }
    }
}

/// The 32-bit little-endian number in the four bytes at `at`.
pub open spec fn le_u32(data: Seq<u8>, at: int) -> nat {
    (data[at] + data[at + 1] * 0x100 + data[at + 2] * 0x1_0000 + data[at + 3] * 0x100_0000) as nat
}

/// A length prefix and the bytes that it announces lie in the buffer
/// from `at` on.
pub open spec fn prefixed_fits(data: Seq<u8>, at: int) -> bool {
    &&& 0 <= at
    &&& at + 4 <= data.len()
    &&& at + 4 + le_u32(data, at) <= data.len()
}

/// The bytes that the length prefix at `at` announces.
pub open spec fn prefixed_bytes(data: Seq<u8>, at: int) -> Seq<u8>
    recommends
        prefixed_fits(data, at),
{
    data.subrange(at + 4, at + 4 + le_u32(data, at))
}

/// The vendor string that stands for one that is not well-formed UTF-8.
pub open spec fn unknown_vendor() -> Seq<char> {
    "Unknown Vendor"@
}

/// The vendor string in the given bytes.
pub open spec fn vendor_text(bytes: Seq<u8>) -> Seq<char> {
    match text_of(bytes) {
        Some(text) => text,
        None => unknown_vendor(),
    }
}

/// The tag that a field's text holds: the key before the first separator
/// and the value behind it. A text without a separator holds none.
pub open spec fn split_tag(text: Seq<char>) -> Option<TagView> {
    match separator_index(text) {
        Some(index) => Some(
            TagView {
                key: text.subrange(0, index),
                value: text.subrange(index + 1, text.len() as int),
            },
        ),
        None => None,
    }
}

/// The tags that a field's bytes give: one, or none where the bytes are
/// not well-formed UTF-8 or hold no separator.
pub open spec fn field_tags(bytes: Seq<u8>) -> Seq<TagView> {
    match text_of(bytes) {
        Some(text) => match split_tag(text) {
            Some(tag) => seq![tag],
            None => Seq::empty(),
        },
        None => Seq::empty(),
    }
}

/// The tags of `count` fields that start at `at`; `None` where the buffer
/// ends before the last of them does.
pub open spec fn fields_from(data: Seq<u8>, at: int, count: nat) -> Option<Seq<TagView>>
    decreases count,
{
    if count == 0 {
        Some(Seq::empty())
    } else if !prefixed_fits(data, at) {
        None
    } else {
        match fields_from(data, at + 4 + le_u32(data, at), (count - 1) as nat) {
            Some(rest) => Some(field_tags(prefixed_bytes(data, at)) + rest),
            None => None,
        }
    }
}

/// What the payload of a Vorbis comment block decodes to.
pub open spec fn decode_comments(data: Seq<u8>) -> Result<CommentBlockView, FormatError> {
    if !prefixed_fits(data, 0) {
        Err(FormatError::Truncated)
    } else {
        let vendor_length = le_u32(data, 0);
        let count_at = 4 + vendor_length as int;
        if count_at + 4 > data.len() {
            Err(FormatError::Truncated)
        } else {
            let num_fields = le_u32(data, count_at);
            match fields_from(data, count_at + 4, num_fields) {
                Some(fields) => Ok(
                    CommentBlockView {
                        vendor_length,
                        vendor: vendor_text(prefixed_bytes(data, 0)),
                        num_fields,
                        fields: if num_fields == 0 {
                            None
                        } else {
                            Some(fields)
                        },
                    },
                ),
                None => Err(FormatError::Truncated),
            }
        }
    }
}

/// A text with a separator splits into a key without separator and a value.
pub proof fn lemma_split_tag_wf(text: Seq<char>)
    ensures
        split_tag(text) matches Some(tag) ==> tag.wf() && text == tag.key + seq![SEPARATOR]
            + tag.value,
{
    if let Some(index) = separator_index(text) {
        let tag = split_tag(text).unwrap();
        assert(crate::text::is_separator_index(text, index));
        assert forall|i: int| 0 <= i < tag.key.len() implies tag.key[i] != SEPARATOR by {
            assert(tag.key[i] == text[i]);
        }
        assert(text =~= tag.key + seq![SEPARATOR] + tag.value);
    }
}

/// Every tag that is read out of fields has a key without separator.
pub proof fn lemma_fields_wf(data: Seq<u8>, at: int, count: nat)
    requires
        fields_from(data, at, count) is Some,
    ensures
        forall|i: int|
            0 <= i < fields_from(data, at, count).unwrap().len() ==> (#[trigger] fields_from(
                data,
                at,
                count,
            ).unwrap()[i]).wf(),
        fields_from(data, at, count).unwrap().len() <= count,
    decreases count,
{
    if count > 0 {
        let next = at + 4 + le_u32(data, at);
        lemma_fields_wf(data, next, (count - 1) as nat);
        let first = field_tags(prefixed_bytes(data, at));
        let rest = fields_from(data, next, (count - 1) as nat).unwrap();
        let all = fields_from(data, at, count).unwrap();
        assert(all == first + rest);
        if let Some(text) = text_of(prefixed_bytes(data, at)) {
            lemma_split_tag_wf(text);
        }
        assert forall|i: int| 0 <= i < all.len() implies (#[trigger] all[i]).wf() by {
            if i >= first.len() {
                assert(all[i] == rest[i - first.len()]);
            } else {
                assert(all[i] == first[i]);
            }
        }
    }
}

/// A field that holds no tag, for want of a separator or of well-formed
/// text, is passed over: the fields behind it are read as if it were not
/// there.
pub proof fn lemma_field_without_tag_dropped(data: Seq<u8>, at: int, count: nat)
    requires
        count > 0,
        prefixed_fits(data, at),
        text_of(prefixed_bytes(data, at)) matches Some(text) ==> forall|j: int|
            0 <= j < text.len() ==> text[j] != SEPARATOR,
    ensures
        fields_from(data, at, count) == fields_from(
            data,
            at + 4 + le_u32(data, at),
            (count - 1) as nat,
        ),
{
    if let Some(text) = text_of(prefixed_bytes(data, at)) {
        crate::text::lemma_separator_index_none(text);
    }
    let rest = fields_from(data, at + 4 + le_u32(data, at), (count - 1) as nat);
    if let Some(rest) = rest {
        assert(Seq::<TagView>::empty() + rest == rest);
    }
}

/// Reads the little-endian length prefix at `at`, where four bytes are left
/// for it.
pub fn read_prefix(data: &Vec<u8>, at: usize) -> (length: Option<usize>)
    ensures
        match length {
            Some(length) => at + 4 <= data.len() && length == le_u32(data@, at as int),
            None => at + 4 > data.len(),
        },
{
    if at > data.len() || data.len() - at < PREFIX_LENGTH {
        return None;
    }
    let value: u32 = (data[at] as u32) + (data[at + 1] as u32) * 0x100 + (data[at + 2] as u32)
        * 0x1_0000 + (data[at + 3] as u32) * 0x100_0000;
    Some(value as usize)
}

/// Reads the length prefix at `at` and copies the bytes that it announces.
/// Gives them with the offset behind them, or `None` where the buffer ends
/// before they do.
pub fn read_prefixed(data: &Vec<u8>, at: usize) -> (read: Option<(Vec<u8>, usize)>)
    ensures
        match read {
            Some((bytes, next)) => {
                &&& prefixed_fits(data@, at as int)
                &&& bytes@ == prefixed_bytes(data@, at as int)
                &&& next == at + 4 + le_u32(data@, at as int)
            },
            None => !prefixed_fits(data@, at as int),
        },
{
    let length = match read_prefix(data, at) {
        Some(length) => length,
        None => {
            return None;
        },
    };
    let start = at + PREFIX_LENGTH;
    if length > data.len() - start {
        return None;
    }
    let bytes = slice_to_vec(slice_subrange(data.as_slice(), start, start + length));
    Some((bytes, start + length))
}

/// Splits a field's text at its first separator into key and value.
pub fn split_field(text: &str) -> (tag: Option<Metadatum>)
    ensures
        match tag {
            Some(tag) => split_tag(text@) == Some(tag@),
            None => split_tag(text@) is None,
        },
{
    match find_separator(text) {
        Some(index) => {
            let total = text.unicode_len();
            let key = text.substring_char(0, index).to_owned();
            let value = text.substring_char(index + 1, total).to_owned();
            Some(Metadatum::new(key, value))
        },
        None => None,
    }
}

/// The tags read so far, followed by those still to come.
spec fn tags_followed_by(read: Seq<TagView>, rest: Option<Seq<TagView>>) -> Option<
    Seq<TagView>,
> {
    match rest {
        Some(rest) => Some(read + rest),
        None => None,
    }
}

impl VorbisCommentBlock {
    pub fn new(
        vendor_length: usize,
        vendor: String,
        num_fields: usize,
        fields: Option<Vec<VorbisComment>>,
    ) -> (block: Self)
        ensures
            block.vendor_length == vendor_length,
            block.vendor == vendor,
            block.num_fields == num_fields,
            block.fields == fields,
    {
        VorbisCommentBlock { vendor_length, vendor, num_fields, fields }
    }

    /// Decodes the payload of a Vorbis comment block.
    ///
    /// A vendor string that is not well-formed UTF-8 is read as
    /// `Unknown Vendor`. A field that is not well-formed UTF-8, or that has
    /// no separator, is left out; the fields around it are kept. Fails with
    /// `Truncated` where a length or the field count reaches past the end
    /// of the payload.
    pub fn decode(data: &Vec<u8>) -> (result: Result<VorbisCommentBlock, FormatError>)
        ensures
            match result {
                Ok(block) => decode_comments(data@) == Ok::<CommentBlockView, FormatError>(block@),
                Err(e) => decode_comments(data@) == Err::<CommentBlockView, FormatError>(e),
            },
            result matches Ok(block) ==> {
                &&& block@.tags().len() <= block.num_fields
                &&& forall|i: int| 0 <= i < block@.tags().len() ==> (#[trigger] block@.tags()[i]).wf()
            },
    {
        let (vendor_bytes, count_at) = match read_prefixed(data, 0) {
            Some(read) => read,
            None => {
                return Err(FormatError::Truncated);
            },
        };
        let vendor_length = vendor_bytes.len();
        let vendor = match decode_text(vendor_bytes) {
            Some(text) => text,
            None => "Unknown Vendor".to_owned(),
        };
        let num_fields = match read_prefix(data, count_at) {
            Some(count) => count,
            None => {
                return Err(FormatError::Truncated);
            },
        };
        let fields_at = count_at + PREFIX_LENGTH;
        if num_fields == 0 {
            return Ok(VorbisCommentBlock::new(vendor_length, vendor, num_fields, None));
        }
        let mut index = fields_at;
        let mut fields: Vec<VorbisComment> = Vec::new();
        let mut done: usize = 0;
        while done < num_fields
            invariant
                prefixed_fits(data@, 0),
                fields_at == 4 + le_u32(data@, 0) + 4,
                num_fields == le_u32(data@, fields_at - 4),
                done <= num_fields,
                fields_at <= index <= data.len(),
                fields_from(data@, fields_at as int, num_fields as nat) == tags_followed_by(
                    tag_views(fields@),
                    fields_from(data@, index as int, (num_fields - done) as nat),
                ),
            decreases num_fields - done,
        {
            let (field_bytes, next) = match read_prefixed(data, index) {
                Some(read) => read,
                None => {
                    return Err(FormatError::Truncated);
                },
            };
            let ghost read = tag_views(fields@);
            let ghost rest = fields_from(data@, next as int, (num_fields - done - 1) as nat);
            match decode_text(field_bytes) {
                Some(text) => {
                    match split_field(text.as_str()) {
                        Some(tag) => {
                            fields.push(tag);
                            assert(tag_views(fields@) == read + seq![tag@]);
                        },
                        None => {},
                    }
                },
                None => {},
            }
            proof {
                let found = field_tags(prefixed_bytes(data@, index as int));
                assert(tag_views(fields@) == read + found);
                if let Some(rest) = rest {
                    assert(read + (found + rest) == read + found + rest);
                }
            }
            index = next;
            done += 1;
        }
        proof {
            assert(tag_views(fields@) + Seq::<TagView>::empty() == tag_views(fields@));
            lemma_fields_wf(data@, fields_at as int, num_fields as nat);
        }
        Ok(VorbisCommentBlock::new(vendor_length, vendor, num_fields, Some(fields)))
    }
}

impl Default for VorbisCommentBlock {
    fn default() -> (block: Self)
        ensures
            block.vendor_length == 0,
            block.vendor@ == Seq::<char>::empty(),
            block.num_fields == 0,
            block.fields is None,
    {
        VorbisCommentBlock { vendor_length: 0, vendor: String::new(), num_fields: 0, fields: None }
    }
}

} // verus!
