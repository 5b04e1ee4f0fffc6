//! The block-level view of a torrent: pieces are downloaded as fixed-size
//! blocks, each addressed by its piece index, byte offset within the piece,
//! and length.

use crate::byteseq::vec_u8_eq;
use std::sync::Arc;
use vstd::prelude::*;

verus! {

/// The canonical block length, 16 KiB. Every block of a piece has this
/// length, except possibly the piece's last block.
pub const BLOCK_LEN: u32 = 0x4000;

/// The number of blocks a piece of `piece_len` bytes is divided into:
/// the piece length divided by the block length, rounded up.
pub open spec fn spec_block_count(piece_len: u32) -> int {
    (piece_len as int + BLOCK_LEN as int - 1) / (BLOCK_LEN as int)
}

/// The length of the block at `block_index` in a piece of `piece_len`
/// bytes: the canonical length, or whatever remains of the piece.
pub open spec fn spec_block_len(piece_len: u32, block_index: int) -> int {
    if piece_len as int - block_index * (BLOCK_LEN as int) >= BLOCK_LEN as int {
        BLOCK_LEN as int
    } else {
        piece_len as int - block_index * (BLOCK_LEN as int)
    }
}

/// Returns the number of blocks in a piece of the given length.
///
/// The result is the piece length divided by the canonical block length,
/// rounded up, so that a final shorter block is counted too.
pub fn block_count(piece_len: u32) -> (r: usize)
    ensures
        r == spec_block_count(piece_len),
        piece_len >= 1 ==> (r * (BLOCK_LEN as int) >= piece_len),
        piece_len >= 1 ==> ((r - 1) * (BLOCK_LEN as int) < piece_len),
{
    ((piece_len as u64 + (BLOCK_LEN as u64 - 1)) / (BLOCK_LEN as u64)) as usize
}

/// Returns the length of the block at the given index within a piece of
/// the given length.
///
/// All blocks have the canonical block length except the last block of the
/// piece, which may be shorter. An index at or past the piece's block count
/// is excluded by the precondition.
pub fn block_len(piece_len: u32, block_index: usize) -> (r: u32)
    requires
        block_index < spec_block_count(piece_len),
    ensures
        r == spec_block_len(piece_len, block_index as int),
        r > 0,
        r <= BLOCK_LEN,
{
    proof {
        lemma_block_start_in_piece(piece_len, block_index as int);
    }
    let block_index = block_index as u32;
    let block_offset = block_index * BLOCK_LEN;
    if piece_len - block_offset >= BLOCK_LEN {
        BLOCK_LEN
    } else {
        piece_len - block_offset
    }
}

/// A block index below the piece's block count starts strictly inside
/// the piece.
pub proof fn lemma_block_start_in_piece(piece_len: u32, block_index: int)
    requires
        0 <= block_index < spec_block_count(piece_len),
    ensures
        block_index * (BLOCK_LEN as int) < piece_len,
        block_index < 0x40000,
{
    let b = BLOCK_LEN as int;
    assert(block_index * b < piece_len) by (nonlinear_arith)
        requires
            b == 0x4000,
            0 <= block_index < (piece_len as int + b - 1) / b,
            piece_len <= u32::MAX,
    ;
    assert(block_index * b < piece_len ==> block_index < 0x40000) by (nonlinear_arith)
        requires
            b == 0x4000,
            piece_len <= u32::MAX,
    ;
}

/// An offset on a block boundary strictly inside the piece addresses a
/// block index below the piece's block count.
pub proof fn lemma_aligned_offset_index(piece_len: u32, offset: u32)
    requires
        offset as int % (BLOCK_LEN as int) == 0,
        offset < piece_len,
    ensures
        offset as int / (BLOCK_LEN as int) < spec_block_count(piece_len),
{
    let b = BLOCK_LEN as int;
    assert(offset as int % b == 0 && offset < piece_len ==> offset as int / b < (piece_len as int
        + b - 1) / b) by (nonlinear_arith)
        requires
            b == 0x4000,
            piece_len <= u32::MAX,
    ;
}

/// Metadata identifying one block within a torrent: the piece it belongs
/// to, its byte offset within that piece, and its length in bytes.
#[derive(Clone, Copy, Debug, PartialEq, Eq, Structural, PartialOrd, Ord, Hash)]
pub struct BlockInfo {
    /// The index of the piece of which this is a block.
    pub piece_index: usize,
    /// The zero-based byte offset into the piece.
    pub offset: u32,
    /// The block's length in bytes, at most the canonical block length.
    pub len: u32,
}

impl BlockInfo {
    /// Returns the index of the block within its piece, assuming the
    /// canonical block length.
    pub fn index_in_piece(&self) -> (r: usize)
        requires
            self.len > 0,
            self.len <= BLOCK_LEN,
        ensures
            r == self.offset as int / BLOCK_LEN as int,
    {
        (self.offset / BLOCK_LEN) as usize
    }
}

/// A block cached in memory, shared between the disk task and peer
/// sessions without copying.
pub type CachedBlock = Arc<Vec<u8>>;

/// The bytes of one block: either an exclusively held buffer (a fresh
/// arrival) or a shared immutable buffer (handed out of the cache).
#[derive(Debug, Clone)]
pub enum BlockData {
    Owned(Vec<u8>),
    Cached(CachedBlock),
}

impl BlockData {
    /// The byte contents, whichever variant holds them.
    pub open spec fn bytes(&self) -> Seq<u8> {
        match self {
            BlockData::Owned(v) => v@,
            BlockData::Cached(c) => c@,
        }
    }

    /// Returns the raw buffer of an exclusively held block. A cached
    /// block is shared and cannot be moved out, so the precondition
    /// excludes it.
    pub fn into_owned(self) -> (r: Vec<u8>)
        requires
            self is Owned,
        ensures
            r@ == self.bytes(),
    {
        match self {
            BlockData::Owned(b) => b,
            BlockData::Cached(c) => Vec::new(),
        }
    }

    /// A borrow of the block's bytes.
    pub fn as_vec(&self) -> (r: &Vec<u8>)
        ensures
            r@ == self.bytes(),
    {
        match self {
            BlockData::Owned(b) => b,
            BlockData::Cached(c) => &**c,
        }
    }

    /// The block's length in bytes.
    pub fn len(&self) -> (r: usize)
        ensures
            r == self.bytes().len(),
    {
        self.as_vec().len()
    }
}

/// What equality of two block-data values means: the same variant
/// holding the same bytes.
pub open spec fn spec_block_data_eq(a: &BlockData, b: &BlockData) -> bool {
    match (a, b) {
        (BlockData::Owned(x), BlockData::Owned(y)) => x@ == y@,
        (BlockData::Cached(x), BlockData::Cached(y)) => x@ == y@,
        _ => false,
    }
}

impl PartialEq for BlockData {
    /// Two block-data values are equal when they are the same variant
    /// holding the same bytes.
    fn eq(&self, other: &Self) -> (r: bool) {
        match (self, other) {
            (BlockData::Owned(a), BlockData::Owned(b)) => vec_u8_eq(a, b),
            (BlockData::Cached(a), BlockData::Cached(b)) => vec_u8_eq(&**a, &**b),
            _ => false,
        }
    }
}

impl vstd::std_specs::cmp::PartialEqSpecImpl for BlockData {
    open spec fn obeys_eq_spec() -> bool {
        true
    }

    open spec fn eq_spec(&self, other: &Self) -> bool {
        spec_block_data_eq(self, other)
    }
}

/// One block together with its location in the torrent: the metadata of
/// a completed block transfer, or of a block served from the cache.
#[derive(Debug)]
pub struct Block {
    /// The index of the piece of which this is a block.
    pub piece_index: usize,
    /// The zero-based byte offset into the piece.
    pub offset: u32,
    /// The actual raw data of the block.
    pub data: BlockData,
}

impl Block {
    /// Constructs a new block from its metadata and data.
    pub fn new(info: BlockInfo, data: BlockData) -> (r: Block)
        requires
            data.bytes().len() == info.len,
        ensures
            r.piece_index == info.piece_index,
            r.offset == info.offset,
            r.data == data,
    {
        Block { piece_index: info.piece_index, offset: info.offset, data }
    }

    /// Returns the metadata describing this block.
    pub fn info(&self) -> (r: BlockInfo)
        requires
            self.data.bytes().len() <= u32::MAX,
        ensures
            r.piece_index == self.piece_index,
            r.offset == self.offset,
            r.len == self.data.bytes().len(),
    {
        BlockInfo {
            piece_index: self.piece_index,
            offset: self.offset,
            len: self.data.len() as u32,
        }
    }
}

} // verus!
