//! Walking the metadata-block list of a FLAC file.
//!
//! A FLAC file starts with the four bytes `fLaC`. After them come the
//! metadata blocks, one after the other. Each has a header of four bytes: a
//! byte whose top bit marks the last block and whose other seven bits give the
//! block type, then the payload length as a 24-bit big-endian number. The
//! payload follows the header.

use vstd::prelude::*;
use vstd::slice::slice_subrange;
use vstd::slice::slice_to_vec;
use crate::block::block_type_of_code;
use crate::block::block_views;
use crate::block::BlockView;
use crate::block::MetadataBlock;
use crate::block::MetadataBlockType;
use crate::block::LAST_BLOCK_FLAG;
use crate::block::MAX_BLOCK_LENGTH;
use crate::block::METADATA_TYPE_FLAG;
use crate::error::FormatError;

verus! {

/// The length of the signature, and of a block header.
pub const HEADER_LENGTH: usize = 4;

/// The buffer starts with the signature `fLaC`.
pub open spec fn has_signature(data: Seq<u8>) -> bool {
    &&& data.len() >= 4
    &&& data[0] == 0x66
    &&& data[1] == 0x4C
    &&& data[2] == 0x61
    &&& data[3] == 0x43
}

/// The header byte marks the last metadata block.
pub open spec fn last_block_flag(first: u8) -> bool {
    first & LAST_BLOCK_FLAG != 0
}

/// The type code in a header byte.
pub open spec fn type_code(first: u8) -> u8 {
    first & METADATA_TYPE_FLAG
}

/// The 24-bit big-endian number in the three bytes at `at`.
pub open spec fn be_u24(data: Seq<u8>, at: int) -> int {
    data[at] * 0x1_0000 + data[at + 1] * 0x100 + data[at + 2]
}

/// The offset just behind the block whose header starts at `at`.
pub open spec fn block_end(data: Seq<u8>, at: int) -> int {
    at + 4 + be_u24(data, at + 1)
}

/// A whole block, header and payload, lies in the buffer from `at` on.
pub open spec fn block_fits(data: Seq<u8>, at: int) -> bool {
    &&& 0 <= at
    &&& at + 4 <= data.len()
    &&& block_end(data, at) <= data.len()
}

/// The block whose header starts at `at`.
pub open spec fn block_at(data: Seq<u8>, at: int) -> BlockView
    recommends
        block_fits(data, at),
{
    BlockView {
        metadata_type: block_type_of_code(type_code(data[at])),
        is_last: last_block_flag(data[at]),
        data: data.subrange(at + 4, block_end(data, at)),
    }
}

/// The blocks from the header at `at` up to and including the first one
/// that carries the last-block flag; `None` where the buffer ends before
/// that block does.
pub open spec fn blocks_from(data: Seq<u8>, at: int) -> Option<Seq<BlockView>>
    decreases data.len() - at,
{
    if !block_fits(data, at) {
        None
    } else if last_block_flag(data[at]) {
        Some(seq![block_at(data, at)])
    } else {
        match blocks_from(data, block_end(data, at)) {
            Some(rest) => Some(seq![block_at(data, at)] + rest),
            None => None,
        }
    }
}

/// What a scan of the buffer gives: the block list, or the reason why there
/// is none.
pub open spec fn scan(data: Seq<u8>) -> Result<Seq<BlockView>, FormatError> {
    if !has_signature(data) {
        Err(FormatError::NotContainer)
    } else {
        match blocks_from(data, 4) {
            Some(blocks) => Ok(blocks),
            None => Err(FormatError::Truncated),
        }
    }
}

/// The list is not empty, its last block carries the last-block flag and no
/// other block does.
pub open spec fn closed_by_last_block(blocks: Seq<BlockView>) -> bool {
    &&& blocks.len() > 0
    &&& blocks.last().is_last
    &&& forall|i: int| 0 <= i < blocks.len() - 1 ==> !(#[trigger] blocks[i]).is_last
}

/// Starting from the header at `from` and going from block to block, the
/// walk comes to a header at `to`.
pub open spec fn walk_reaches(data: Seq<u8>, from: int, to: int) -> bool
    decreases data.len() - from,
{
    from == to || (block_fits(data, from) && !last_block_flag(data[from]) && walk_reaches(
        data,
        block_end(data, from),
        to,
    ))
}

/// A block list that was read ends with its only last block, and every
/// payload in it is as long as its header said.
pub proof fn lemma_blocks_closed(data: Seq<u8>, at: int)
    requires
        blocks_from(data, at) is Some,
    ensures
        closed_by_last_block(blocks_from(data, at).unwrap()),
        forall|i: int|
            0 <= i < blocks_from(data, at).unwrap().len() ==> (#[trigger] blocks_from(
                data,
                at,
            ).unwrap()[i]).wf(),
    decreases data.len() - at,
{
    let blocks = blocks_from(data, at).unwrap();
    assert(be_u24(data, at + 1) <= MAX_BLOCK_LENGTH);
    if !last_block_flag(data[at]) {
        let end = block_end(data, at);
        lemma_blocks_closed(data, end);
        let rest = blocks_from(data, end).unwrap();
        assert(blocks == seq![block_at(data, at)] + rest);
        assert forall|i: int| 0 <= i < blocks.len() - 1 implies !(#[trigger] blocks[i]).is_last by {
            if i > 0 {
                assert(blocks[i] == rest[i - 1]);
            }
        }
        assert forall|i: int| 0 <= i < blocks.len() implies (#[trigger] blocks[i]).wf() by {
            if i > 0 {
                assert(blocks[i] == rest[i - 1]);
            }
        }
        assert(blocks.last() == rest.last());
    }
}

/// A scan that succeeds gives exactly one block with the last-block flag,
/// and that block is the last of the list.
pub proof fn lemma_scan_closed(data: Seq<u8>)
    requires
        scan(data) is Ok,
    ensures
        closed_by_last_block(scan(data).unwrap()),
{
    lemma_blocks_closed(data, 4);
}

/// A buffer that does not start with the signature is no FLAC file,
/// whatever follows.
pub proof fn lemma_scan_not_container(data: Seq<u8>)
    requires
        !has_signature(data),
    ensures
        scan(data) == Err::<Seq<BlockView>, FormatError>(FormatError::NotContainer),
{
}

/// Where the walk stops short at some header, it stops short from every
/// header before it.
proof fn lemma_walk_truncated(data: Seq<u8>, from: int, to: int)
    requires
        walk_reaches(data, from, to),
        !block_fits(data, to),
    ensures
        blocks_from(data, from) is None,
    decreases data.len() - from,
{
    if from != to {
        lemma_walk_truncated(data, block_end(data, from), to);
    }
}

/// Where the walk from the first header comes to a header whose length
/// field reaches past the end of the buffer, or to a place with fewer than
/// four bytes left for a header, the scan fails as truncated.
pub proof fn lemma_scan_truncated(data: Seq<u8>, at: int)
    requires
        has_signature(data),
        walk_reaches(data, 4, at),
        at + 4 > data.len() || block_end(data, at) > data.len(),
    ensures
        scan(data) == Err::<Seq<BlockView>, FormatError>(FormatError::Truncated),
{
    lemma_walk_truncated(data, 4, at);
}

/// Whether the buffer starts with the FLAC signature.
pub fn is_flac(data: &Vec<u8>) -> (flac: bool)
    ensures
        flac == has_signature(data@),
{
    data.len() >= 4 && data[0] == 0x66 && data[1] == 0x4C && data[2] == 0x61 && data[3] == 0x43
}

/// The blocks read so far, followed by those still to come.
spec fn followed_by(read: Seq<BlockView>, rest: Option<Seq<BlockView>>) -> Option<
    Seq<BlockView>,
> {
    match rest {
        Some(rest) => Some(read + rest),
        None => None,
    }
}

/// Reads the metadata blocks of a FLAC file, up to and including the block
/// that carries the last-block flag. Blocks of reserved and forbidden types
/// are kept like the others.
///
/// Fails with `NotContainer` where the buffer does not start with the
/// signature, and with `Truncated` where it ends before the last block does.
pub fn get_metadata_blocks(data: &Vec<u8>) -> (result: Result<Vec<MetadataBlock>, FormatError>)
    ensures
        match result {
            Ok(blocks) => scan(data@) == Ok::<Seq<BlockView>, FormatError>(block_views(blocks@)),
            Err(e) => scan(data@) == Err::<Seq<BlockView>, FormatError>(e),
        },
        result matches Ok(blocks) ==> {
            &&& closed_by_last_block(block_views(blocks@))
            &&& forall|i: int| 0 <= i < blocks.len() ==> (#[trigger] blocks[i]).wf()
        },
        !has_signature(data@) ==> result == Err::<Vec<MetadataBlock>, FormatError>(
            FormatError::NotContainer,
        ),
{
    if !is_flac(data) {
        return Err(FormatError::NotContainer);
    }
    let data_len = data.len();
    let mut index: usize = HEADER_LENGTH;
    let mut blocks: Vec<MetadataBlock> = Vec::new();
    let mut is_last_block = false;
    while !is_last_block
        invariant
            has_signature(data@),
            data_len == data.len(),
            4 <= index <= data_len,
            blocks_from(data@, 4) == followed_by(
                block_views(blocks@),
                if is_last_block {
                    Some(Seq::empty())
                } else {
                    blocks_from(data@, index as int)
                },
            ),
        decreases data_len - index,
    {
        if data_len - index < HEADER_LENGTH {
            return Err(FormatError::Truncated);
        }
        let ghost header_at = index as int;
        let first = data[index];
        let length = (data[index + 1] as usize) * 0x1_0000 + (data[index + 2] as usize) * 0x100
            + (data[index + 3] as usize);
        index += HEADER_LENGTH;
        if length > data_len - index {
            return Err(FormatError::Truncated);
        }
        is_last_block = first & LAST_BLOCK_FLAG != 0;
        let metadata_type = MetadataBlockType::from(first & METADATA_TYPE_FLAG);
        let payload = slice_to_vec(slice_subrange(data.as_slice(), index, index + length));
        index += length;
        let ghost read = block_views(blocks@);
        let block = MetadataBlock::new(metadata_type, is_last_block, payload);
        blocks.push(block);
        proof {
            assert(block@ == block_at(data@, header_at));
            assert(block_views(blocks@) == read + seq![block_at(data@, header_at)]);
            if !is_last_block {
                match blocks_from(data@, index as int) {
                    Some(rest) => {
                        assert(read + (seq![block_at(data@, header_at)] + rest) == read
                            + seq![block_at(data@, header_at)] + rest);
                    },
                    None => {},
                }
            } else {
                assert(read + seq![block_at(data@, header_at)] == read + seq![
                    block_at(data@, header_at),
                ] + Seq::<BlockView>::empty());
            }
        }
    }
    proof {
        assert(block_views(blocks@) + Seq::<BlockView>::empty() == block_views(blocks@));
        lemma_blocks_closed(data@, 4);
        assert forall|i: int| 0 <= i < blocks.len() implies (#[trigger] blocks[i]).wf() by {
            assert(block_views(blocks@)[i] == blocks[i]@);
        }
    }
    Ok(blocks)
}

} // verus!
