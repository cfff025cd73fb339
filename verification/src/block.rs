//! Metadata blocks: the typed, length-prefixed records that follow the
//! signature of a FLAC file.

use vstd::prelude::*;

verus! {

/// Bit 7 of a block header's first byte: set on the last metadata block.
pub const LAST_BLOCK_FLAG: u8 = 0x80;

/// Bits 0 to 6 of a block header's first byte: the block type code.
pub const METADATA_TYPE_FLAG: u8 = 0x7F;

/// The largest payload length that the three length bytes of a header can hold.
pub const MAX_BLOCK_LENGTH: usize = 0xFF_FFFF;

/// What a metadata block holds, as told by the type code in its header.
#[derive(Debug, Clone, Copy, PartialEq, Eq, Structural)]
pub enum MetadataBlockType {
    StreamInfo,
    Padding,
    Application,
    SeekTable,
    VorbisComment,
    Cuesheet,
    Picture,
    /// Codes 7 to 126, which the format keeps for later use.
    Reserved,
    /// Code 127, which the format forbids.
    Forbidden,
}

/// Short name of [`MetadataBlockType`].
pub type MetadataType = MetadataBlockType;

/// The block type that a type code stands for.
pub open spec fn block_type_of_code(code: u8) -> MetadataBlockType {
    if code == 0 {
        MetadataBlockType::StreamInfo
    } else if code == 1 {
        MetadataBlockType::Padding
    } else if code == 2 {
        MetadataBlockType::Application
    } else if code == 3 {
        MetadataBlockType::SeekTable
    } else if code == 4 {
        MetadataBlockType::VorbisComment
    } else if code == 5 {
        MetadataBlockType::Cuesheet
    } else if code == 6 {
        MetadataBlockType::Picture
    } else if code < 127 {
        MetadataBlockType::Reserved
    } else {
        MetadataBlockType::Forbidden
    }
}

impl From<u8> for MetadataBlockType {
    /// The block type of a type code. Codes above 127 do not occur in a
    /// header, whose type code has seven bits; they map to `Forbidden`.
    fn from(value: u8) -> (kind: Self) {
        if value == 0 {
            MetadataBlockType::StreamInfo
        } else if value == 1 {
            MetadataBlockType::Padding
        } else if value == 2 {
            MetadataBlockType::Application
        } else if value == 3 {
            MetadataBlockType::SeekTable
        } else if value == 4 {
            MetadataBlockType::VorbisComment
        } else if value == 5 {
            MetadataBlockType::Cuesheet
        } else if value == 6 {
            MetadataBlockType::Picture
        } else if value < 127 {
            MetadataBlockType::Reserved
        } else {
            MetadataBlockType::Forbidden
        }
    }
}

impl vstd::std_specs::convert::FromSpecImpl<u8> for MetadataBlockType {
    open spec fn obeys_from_spec() -> bool {
        true
    }

    open spec fn from_spec(v: u8) -> Self {
        block_type_of_code(v)
    }
}

impl Default for MetadataBlockType {
    fn default() -> (kind: Self)
        ensures
            kind == MetadataBlockType::StreamInfo,
    {
        MetadataBlockType::StreamInfo
    }
}

/// One metadata block as read from a file: its type, whether it closes the
/// block list, and its payload.
#[derive(Debug)]
pub struct MetadataBlock {
    pub metadata_type: MetadataBlockType,
    pub is_last: bool,
    pub data: Vec<u8>,
}

/// A metadata block as a mathematical value.
pub struct BlockView {
    pub metadata_type: MetadataBlockType,
    pub is_last: bool,
    pub data: Seq<u8>,
}

impl View for MetadataBlock {
    type V = BlockView;

    open spec fn view(&self) -> BlockView {
        BlockView { metadata_type: self.metadata_type, is_last: self.is_last, data: self.data@ }
    }
}

impl BlockView {
    /// The payload is short enough for its length to be written in a header.
    pub open spec fn wf(self) -> bool {
        self.data.len() <= MAX_BLOCK_LENGTH
    }
}

/// The views of a list of blocks, in order.
pub open spec fn block_views(blocks: Seq<MetadataBlock>) -> Seq<BlockView> {
    blocks.map_values(|block: MetadataBlock| block@)
}

impl MetadataBlock {
    /// The payload is short enough for its length to be written in a header.
    pub open spec fn wf(&self) -> bool {
        self@.wf()
    }

    pub fn new(metadata_type: MetadataBlockType, is_last: bool, data: Vec<u8>) -> (block: Self)
        ensures
            block.metadata_type == metadata_type,
            block.is_last == is_last,
            block.data == data,
    {
        MetadataBlock { metadata_type, is_last, data }
    }

    /// The payload length, as the block's header states it.
    pub fn header_length(&self) -> (length: u64)
        ensures
            length == self.data@.len(),
    {
        self.data.len() as u64
    }
}

impl Default for MetadataBlock {
    fn default() -> (block: Self)
        ensures
            block.metadata_type == MetadataBlockType::StreamInfo,
            !block.is_last,
            block.data@ == Seq::<u8>::empty(),
    {
        MetadataBlock { metadata_type: MetadataBlockType::StreamInfo, is_last: false, data: Vec::new() }
    }
}

} // verus!
