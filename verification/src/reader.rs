//! From the bytes of a FLAC file to its tags.

use vstd::prelude::*;
use crate::block::block_views;
use crate::block::BlockView;
use crate::block::MetadataBlock;
use crate::block::MetadataBlockType;
use crate::container::get_metadata_blocks;
use crate::container::scan;
use crate::error::FormatError;
use crate::metadata::normalize;
use crate::metadata::normalized;
use crate::metadata::Metadata;
use crate::metadata::MetadataView;
use crate::vorbis::decode_comments;
use crate::vorbis::CommentBlockView;
use crate::vorbis::VorbisCommentBlock;

verus! {

/// The place of the first block of the given type at or behind `from`.
pub open spec fn index_of_type(blocks: Seq<BlockView>, kind: MetadataBlockType, from: int) -> Option<
    int,
>
    decreases blocks.len() - from,
{
    if from < 0 || from >= blocks.len() {
        None
    } else if blocks[from].metadata_type == kind {
        Some(from)
    } else {
        index_of_type(blocks, kind, from + 1)
    }
}

/// A comment block without vendor and without fields: what a file without
/// Vorbis comment block is read as.
pub open spec fn no_comments() -> CommentBlockView {
    CommentBlockView { vendor_length: 0, vendor: Seq::empty(), num_fields: 0, fields: None }
}

/// The comments of a block list: those of its first Vorbis comment block.
pub open spec fn comments_of(blocks: Seq<BlockView>) -> Result<CommentBlockView, FormatError> {
    match index_of_type(blocks, MetadataBlockType::VorbisComment, 0) {
        Some(index) => decode_comments(blocks[index].data),
        None => Ok(no_comments()),
    }
}

/// The tags of a FLAC file, or the reason why it cannot be read.
pub open spec fn tags_of(data: Seq<u8>) -> Result<MetadataView, FormatError> {
    match scan(data) {
        Ok(blocks) => match comments_of(blocks) {
            Ok(comments) => Ok(normalized(comments.tags())),
            Err(e) => Err(e),
        },
        Err(e) => Err(e),
    }
}

/// The first block of a type is of that type, and no block before it is.
pub proof fn lemma_index_of_type(blocks: Seq<BlockView>, kind: MetadataBlockType, from: int)
    requires
        0 <= from,
    ensures
        match index_of_type(blocks, kind, from) {
            Some(index) => {
                &&& from <= index < blocks.len()
                &&& blocks[index].metadata_type == kind
                &&& forall|i: int| from <= i < index ==> (#[trigger] blocks[i]).metadata_type != kind
            },
            None => forall|i: int|
                from <= i < blocks.len() ==> (#[trigger] blocks[i]).metadata_type != kind,
        },
    decreases blocks.len() - from,
{
    if from < blocks.len() && blocks[from].metadata_type != kind {
        lemma_index_of_type(blocks, kind, from + 1);
    }
}

/// Decoding one payload twice and collecting the tags each time gives the
/// same tags.
pub proof fn lemma_tags_repeatable(
    payload: Seq<u8>,
    first: VorbisCommentBlock,
    second: VorbisCommentBlock,
    first_tags: Metadata,
    second_tags: Metadata,
)
    requires
        decode_comments(payload) == Ok::<CommentBlockView, FormatError>(first@),
        decode_comments(payload) == Ok::<CommentBlockView, FormatError>(second@),
        first_tags@ == normalized(first@.tags()),
        second_tags@ == normalized(second@.tags()),
    ensures
        first@ == second@,
        first_tags@ == second_tags@,
{
}

/// Finds the first block of the given type.
pub fn find_block(blocks: &Vec<MetadataBlock>, kind: MetadataBlockType) -> (found: Option<usize>)
    ensures
        match found {
            Some(index) => index_of_type(block_views(blocks@), kind, 0) == Some(index as int)
                && index < blocks.len(),
            None => index_of_type(block_views(blocks@), kind, 0) is None,
        },
{
    let mut index: usize = 0;
    while index < blocks.len()
        invariant
            index <= blocks.len(),
            index_of_type(block_views(blocks@), kind, 0) == index_of_type(
                block_views(blocks@),
                kind,
                index as int,
            ),
        decreases blocks.len() - index,
    {
        assert(block_views(blocks@)[index as int] == blocks[index as int]@);
        if blocks[index].metadata_type == kind {
            return Some(index);
        }
        index += 1;
    }
    None
}

/// Reads the tags of a FLAC file out of its bytes.
///
/// The tags are those of the first Vorbis comment block. A file without
/// such a block has no tags. Fails with `NotContainer` where the bytes do not
/// start with the FLAC signature, and with `Truncated` where the block list
/// or the comment block ends before it should.
pub fn read_metadata(data: &Vec<u8>) -> (result: Result<Metadata, FormatError>)
    ensures
        match result {
            Ok(tags) => tags_of(data@) == Ok::<MetadataView, FormatError>(tags@),
            Err(e) => tags_of(data@) == Err::<MetadataView, FormatError>(e),
        },
{
    let blocks = match get_metadata_blocks(data) {
        Ok(blocks) => blocks,
        Err(e) => {
            return Err(e);
        },
    };
    let comments = match find_block(&blocks, MetadataBlockType::VorbisComment) {
        Some(index) => {
            assert(block_views(blocks@)[index as int] == blocks[index as int]@);
            match VorbisCommentBlock::decode(&blocks[index].data) {
                Ok(comments) => comments,
                Err(e) => {
                    return Err(e);
                },
            }
        },
        None => VorbisCommentBlock::default(),
    };
    Ok(normalize(&comments))
}

} // verus!
