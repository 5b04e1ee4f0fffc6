//! The disk path: per-torrent disk state routing blocks into piece
//! assemblers, and the disk worker that owns all torrent states and
//! executes the command protocol.
//!
//! The worker itself performs no file I/O here: a completed piece comes
//! out as a list of positional writes to hand to the files, and a block
//! read is planned as a list of positional reads whose results are handed
//! back for assembly. Everything around those two hand-offs is verified.

use crate::blockinfo::{
    lemma_aligned_offset_index, spec_block_count, spec_block_len, Block, BlockData, BlockInfo,
    BLOCK_LEN,
};
use crate::define::{FileIndex, Sha1Hash, TorrentId};
use crate::error::{NewTorrentError, ReadError};
use crate::piece::{sha1_of, split_into_blocks, writes_bytes, FileWrite, Piece};
use crate::storage_info::{
    files_contiguous, files_total_len, lemma_files_monotonic, FileInfo, StorageInfo,
};
use std::sync::Arc;
use vstd::prelude::*;

verus! {

/// One positional read against one file: `len` bytes are wanted from
/// byte `offset` of the file at `file_index`.
#[derive(Debug, Clone, Copy, PartialEq, Eq, Structural)]
pub struct FileRead {
    /// The index of the file to read from.
    pub file_index: FileIndex,
    /// The byte offset within that file.
    pub offset: u64,
    /// The number of bytes to read.
    pub len: u64,
}

/// The total byte count of a read plan.
pub open spec fn reads_total(rs: Seq<FileRead>) -> int
    decreases rs.len(),
{
    if rs.len() == 0 {
        0
    } else {
        reads_total(rs.drop_last()) + rs.last().len
    }
}

/// Appending one read adds its length to the total.
pub proof fn lemma_reads_total_push(rs: Seq<FileRead>, r: FileRead)
    ensures
        reads_total(rs.push(r)) == reads_total(rs) + r.len,
{
    assert(rs.push(r).drop_last() =~= rs);
}

/// Plans the reads that fetch the byte range of one piece from the files
/// it overlaps: one positional read per file of the range, clipped
/// against each file's byte range. The planned reads cover exactly `len`
/// bytes, in order: each starts at the file position where the piece's
/// cursor stands and none reaches past its file's declared length.
pub fn read_plan(
    torrent_piece_offset: u64,
    file_range_start: FileIndex,
    file_range_end: FileIndex,
    files: &Vec<FileInfo>,
    len: u32,
) -> (r: Vec<FileRead>)
    requires
        len >= 1,
        files_contiguous(files@),
        files_total_len(files@) < 0x1000_0000_0000_0000,
        file_range_start < file_range_end <= files@.len(),
        files@[file_range_start as int].torrent_offset <= torrent_piece_offset,
        torrent_piece_offset < files@[file_range_start as int].spec_end(),
        files@[file_range_end - 1].torrent_offset < torrent_piece_offset + len,
        torrent_piece_offset + len <= files@[file_range_end - 1].spec_end(),
    ensures
        reads_total(r@) == len,
        r@.len() == file_range_end - file_range_start,
        forall|j: int| 0 <= j < r@.len() ==> (#[trigger] r@[j]).file_index == file_range_start + j,
        forall|j: int|
            0 <= j < r@.len() ==> (#[trigger] r@[j]).offset + r@[j].len <= files@[r@[j].file_index as int].len,
        forall|j: int|
            0 <= j < r@.len() ==> files@[(#[trigger] r@[j]).file_index as int].torrent_offset
                + r@[j].offset == torrent_piece_offset + reads_total(r@.take(j)),
        forall|j: int| 0 <= j < r@.len() ==> (#[trigger] r@[j]).len >= 1,
{
    proof {
        assert forall|i: int|
            0 <= i < files@.len() implies #[trigger] files@[i].spec_end() <= files_total_len(
            files@,
        ) by {
            lemma_files_monotonic(files@, i, files@.len() - 1);
        }
    }
    let mut reads: Vec<FileRead> = Vec::new();
    let mut covered: u64 = 0;
    let mut fi: usize = file_range_start;
    while fi < file_range_end
        invariant
            len >= 1,
            files_contiguous(files@),
            files_total_len(files@) < 0x1000_0000_0000_0000,
            forall|i: int|
                0 <= i < files@.len() ==> #[trigger] files@[i].spec_end() <= files_total_len(
                    files@,
                ),
            file_range_start < file_range_end <= files@.len(),
            files@[file_range_start as int].torrent_offset <= torrent_piece_offset,
            torrent_piece_offset < files@[file_range_start as int].spec_end(),
            files@[file_range_end - 1].torrent_offset < torrent_piece_offset + len,
            torrent_piece_offset + len <= files@[file_range_end - 1].spec_end(),
            file_range_start <= fi <= file_range_end,
            covered <= len,
            reads_total(reads@) == covered,
            reads@.len() == fi - file_range_start,
            fi < file_range_end ==> files@[fi as int].torrent_offset <= torrent_piece_offset
                + covered < files@[fi as int].spec_end(),
            fi == file_range_end ==> covered == len,
            forall|j: int|
                0 <= j < reads@.len() ==> (#[trigger] reads@[j]).file_index == file_range_start
                    + j,
            forall|j: int|
                0 <= j < reads@.len() ==> (#[trigger] reads@[j]).offset + reads@[j].len
                    <= files@[reads@[j].file_index as int].len,
            forall|j: int|
                0 <= j < reads@.len() ==> files@[(#[trigger] reads@[j]).file_index as int].torrent_offset
                    + reads@[j].offset == torrent_piece_offset + reads_total(reads@.take(j)),
            forall|j: int| 0 <= j < reads@.len() ==> (#[trigger] reads@[j]).len >= 1,
        decreases file_range_end - fi,
    {
        let cursor = torrent_piece_offset + covered;
        let remaining = len as u64 - covered;
        proof {
            lemma_files_monotonic(files@, fi as int, file_range_end - 1);
        }
        let file = &files[fi];
        let slice = file.get_slice(cursor, remaining);
        let ghost pre_reads = reads@;
        let w = FileRead { file_index: fi, offset: slice.offset, len: slice.len };
        reads.push(w);
        proof {
            lemma_reads_total_push(pre_reads, w);
            assert(reads@.take(reads@.len() - 1) =~= pre_reads);
            assert forall|j: int|
                0 <= j < reads@.len() implies files@[(#[trigger] reads@[j]).file_index as int].torrent_offset
                + reads@[j].offset == torrent_piece_offset + reads_total(reads@.take(j)) by {
                assert(reads@.take(j) =~= pre_reads.take(j));
                if j < pre_reads.len() {
                    assert(reads@[j] == pre_reads[j]);
                } else {
                    assert(reads@.take(j) =~= pre_reads);
                    assert(reads@[j] == w);
                }
            }
        }
        covered = covered + slice.len;
        fi = fi + 1;
        proof {
            if fi < file_range_end {
                lemma_files_monotonic(files@, fi as int, file_range_end - 1);
                assert(files@[fi as int].torrent_offset == files@[fi as int - 1].spec_end());
                assert(torrent_piece_offset + covered == files@[fi as int].torrent_offset);
            } else {
                assert(covered == len);
            }
        }
    }
    reads
}

/// Whether a block announcement is valid against the torrent's storage:
/// the piece exists, the offset lies on a block boundary inside the
/// piece, and the announced length is exactly the length of the block
/// the offset addresses.
pub open spec fn spec_valid_block(storage: StorageInfo, b: BlockInfo, data_len: int) -> bool {
    &&& (b.piece_index as int) < storage.piece_count
    &&& b.offset as int % (BLOCK_LEN as int) == 0
    &&& (b.offset as int) < storage.spec_piece_len_at(b.piece_index as int)
    &&& b.len == data_len
    &&& data_len == spec_block_len(
        storage.spec_piece_len_at(b.piece_index as int) as u32,
        b.offset as int / (BLOCK_LEN as int),
    )
}

/// What handling one block write produced.
pub enum BlockWriteOutcome {
    /// The block announcement failed validation against the storage;
    /// nothing changed.
    InvalidBlock,
    /// The block was placed in (or was already in) its piece's write
    /// buffer; the piece is still missing blocks.
    Buffered,
    /// The block completed its piece and the piece's digest matched: the
    /// carried writes place the piece's bytes into its files.
    PieceComplete { index: usize, writes: Vec<FileWrite> },
    /// The block completed its piece but the digest did not match; the
    /// buffered blocks were discarded.
    PieceHashMismatch { index: usize },
}

/// The disk-side state of one torrent: its storage layout, the expected
/// piece digests, and the in-progress piece assemblers.
pub struct Torrent {
    /// All information concerning this torrent's storage.
    pub info: StorageInfo,
    /// The in-progress piece assemblers, one slot per piece index. This
    /// is the torrent's disk write buffer.
    pub write_buf: Vec<Option<Piece>>,
    /// The concatenation of all expected 20-byte piece digests.
    pub piece_hashes: Vec<u8>,
}

/// How one torrent's disk state may change when a block write is
/// handled, and what each outcome promises.
pub open spec fn spec_write_block_post(
    t_old: Torrent,
    t_new: Torrent,
    b: BlockInfo,
    data: Seq<u8>,
    r: BlockWriteOutcome,
) -> bool {
    &&& t_new.info == t_old.info
    &&& t_new.piece_hashes == t_old.piece_hashes
    &&& ((r is InvalidBlock) <==> !spec_valid_block(t_old.info, b, data.len() as int))
    &&& (r is InvalidBlock ==> t_new == t_old)
    &&& forall|i: int|
        0 <= i < t_old.write_buf@.len() && i != b.piece_index as int
            ==> t_new.write_buf@[i] == t_old.write_buf@[i]
    &&& (spec_valid_block(t_old.info, b, data.len() as int) ==> {
        let slots = t_old.spec_slots_with(b, data);
        &&& ((r is Buffered) <==> crate::piece::count_filled(slots) < slots.len())
        &&& (r is Buffered ==> (t_new.write_buf@[b.piece_index as int] matches Some(p)
            && p.blocks_view() == slots))
        &&& ((r matches BlockWriteOutcome::PieceComplete { .. }) <==> (crate::piece::count_filled(
            slots,
        ) == slots.len() && sha1_of(crate::piece::content_of(slots)) == t_old.spec_hash_at(
            b.piece_index as int,
        )))
        &&& ((r matches BlockWriteOutcome::PieceHashMismatch { .. }) <==> (
        crate::piece::count_filled(slots) == slots.len() && sha1_of(
            crate::piece::content_of(slots),
        ) != t_old.spec_hash_at(b.piece_index as int)))
    })
    &&& (r matches BlockWriteOutcome::PieceComplete { index, writes } ==> {
        &&& index == b.piece_index
        &&& t_new.write_buf@[index as int] is None
        &&& writes_bytes(writes@).len() == t_old.info.spec_piece_len_at(index as int)
        &&& sha1_of(writes_bytes(writes@)) == t_old.spec_hash_at(index as int)
        &&& writes@.len() >= 1
        &&& forall|j: int|
            0 <= j < writes@.len() ==> 0 <= (#[trigger] writes@[j]).file_index
                < t_old.info.files@.len()
        &&& forall|j: int|
            0 <= j < writes@.len() ==> (#[trigger] writes@[j]).offset + writes@[j].bytes@.len()
                <= t_old.info.files@[writes@[j].file_index as int].len
        &&& forall|j: int|
            0 <= j < writes@.len() ==> t_old.info.files@[(#[trigger] writes@[j]).file_index as int].torrent_offset
                + writes@[j].offset == t_old.info.spec_piece_offset(index as int) + writes_bytes(
                writes@.take(j),
            ).len()
    })
    &&& (r matches BlockWriteOutcome::PieceHashMismatch { index } ==> {
        &&& index == b.piece_index
        &&& t_new.write_buf@[index as int] is None
    })
}

impl Torrent {
    /// The expected digest of the piece at `index`.
    pub open spec fn spec_hash_at(&self, index: int) -> Seq<u8> {
        self.piece_hashes@.subrange(20 * index, 20 * index + 20)
    }

    /// The block slots of the piece at `b.piece_index` once `data` has
    /// been placed at `b.offset`: the live assembler's slots with the
    /// block landed in its slot, or a fresh assembler's slots holding
    /// only this block.
    pub open spec fn spec_slots_with(&self, b: BlockInfo, data: Seq<u8>) -> Seq<Option<Seq<u8>>> {
        let idx = b.piece_index as int;
        let slot = b.offset as int / (BLOCK_LEN as int);
        match self.write_buf@[idx] {
            Some(p) => crate::piece::spec_enqueue(p.blocks_view(), slot, data),
            None => Seq::new(
                spec_block_count(self.info.spec_piece_len_at(idx) as u32) as nat,
                |i: int| None,
            ).update(slot, Some(data)),
        }
    }

    /// The content the piece at `b.piece_index` holds once `data` has
    /// been placed at `b.offset`: what a completing piece is hashed over.
    pub open spec fn spec_piece_content_with(&self, b: BlockInfo, data: Seq<u8>) -> Seq<u8> {
        crate::piece::content_of(self.spec_slots_with(b, data))
    }

    /// What a well-formed assembler for piece `index` looks like: sized
    /// and hashed for that piece, covering exactly the files the piece's
    /// byte range intersects.
    pub open spec fn piece_wf(&self, p: Piece, index: int) -> bool {
        &&& p.wf()
        &&& p.len == self.info.spec_piece_len_at(index)
        &&& p.expected_hash@ == self.spec_hash_at(index)
        &&& p.file_range_start < p.file_range_end <= self.info.files@.len()
        &&& forall|j: int|
            0 <= j < self.info.files@.len() ==> ((p.file_range_start <= j < p.file_range_end)
                <==> (#[trigger] self.info.files@[j]).intersects(
                self.info.spec_piece_offset(index),
                self.info.spec_piece_offset(index) + self.info.spec_piece_len_at(index),
            ))
    }

    /// The state invariant: the storage is well formed, there is one
    /// write-buffer slot per piece, the digest table holds one 20-byte
    /// digest per piece, and every live assembler is well formed for its
    /// piece.
    pub open spec fn wf(&self) -> bool {
        &&& self.info.wf()
        &&& self.write_buf@.len() == self.info.piece_count
        &&& self.piece_hashes@.len() == 20 * self.info.piece_count
        &&& forall|i: int|
            0 <= i < self.write_buf@.len() ==> ((#[trigger] self.write_buf@[i]) matches Some(p)
                ==> self.piece_wf(p, i))
    }

    /// Creates the disk state for a torrent: empty write buffer, no
    /// piece in progress.
    pub fn new(info: StorageInfo, piece_hashes: Vec<u8>) -> (r: Torrent)
        requires
            info.wf(),
            piece_hashes@.len() == 20 * info.piece_count,
        ensures
            r.wf(),
            r.info == info,
            r.piece_hashes == piece_hashes,
            forall|i: int| 0 <= i < r.write_buf@.len() ==> r.write_buf@[i] is None,
    {
        let count = info.piece_count;
        let mut write_buf: Vec<Option<Piece>> = Vec::new();
        let mut i: usize = 0;
        while i < count
            invariant
                i <= count,
                write_buf@.len() == i,
                forall|j: int| 0 <= j < i ==> write_buf@[j] is None,
            decreases count - i,
        {
            write_buf.push(None);
            i += 1;
        }
        Torrent { info, write_buf, piece_hashes }
    }

    /// Copies the 20-byte digest of the piece at `index` out of the
    /// digest table.
    fn hash_at(&self, index: usize) -> (r: Sha1Hash)
        requires
            self.wf(),
            index < self.info.piece_count,
        ensures
            r@ == self.spec_hash_at(index as int),
    {
        let hashes_len = self.piece_hashes.len();
        let bytes = crate::byteseq::copy_range(&self.piece_hashes, 20 * index, 20);
        let mut r: Sha1Hash = [0u8; 20];
        let mut i: usize = 0;
        while i < 20
            invariant
                bytes@.len() == 20,
                r@.len() == 20,
                i <= 20,
                forall|j: int| 0 <= j < i ==> r@[j] == bytes@[j],
            decreases 20 - i,
        {
            r[i] = bytes[i];
            i += 1;
        }
        proof {
            assert(r@ =~= bytes@);
        }
        r
    }

    /// Routes one arriving block into its piece's assembler.
    ///
    /// The block is validated against the storage; an invalid one is
    /// rejected with nothing changed. A valid block lands in the slot
    /// its offset addresses (a duplicate changes nothing), creating the
    /// assembler on the piece's first block. When the block completes
    /// its piece, the piece is hashed in offset order: on a match the
    /// piece's positional writes come back and the assembler is dropped;
    /// on a mismatch the buffered blocks are discarded.
    pub fn write_block(&mut self, block_info: BlockInfo, data: Vec<u8>) -> (r: BlockWriteOutcome)
        requires
            old(self).wf(),
        ensures
            final(self).wf(),
            spec_write_block_post(*old(self), *final(self), block_info, data@, r),
    {
        // validate the block against the storage
        let valid = block_info.piece_index < self.info.piece_count && block_info.offset
            % BLOCK_LEN == 0 && {
            let plen = self.info.piece_len_at(block_info.piece_index);
            block_info.offset < plen && {
                proof {
                    lemma_aligned_offset_index(plen, block_info.offset);
                }
                let index_in_piece = (block_info.offset / BLOCK_LEN) as usize;
                let expected_len = crate::blockinfo::block_len(plen, index_in_piece);
                block_info.len as usize == data.len() && expected_len as usize == data.len()
            }
        };
        if !valid {
            return BlockWriteOutcome::InvalidBlock;
        }
        let piece_index = block_info.piece_index;
        let plen = self.info.piece_len_at(piece_index);
        let piece_offset = self.info.piece_offset(piece_index);
        proof {
            self.info.lemma_piece_in_range(piece_index as int);
            lemma_aligned_offset_index(plen, block_info.offset);
        }

        // locate or create the assembler for this piece
        let slot = &mut self.write_buf[piece_index];
        let taken = slot.take();
        let mut piece = match taken {
            Some(p) => p,
            None => {
                let expected_hash = self.hash_at(piece_index);
                let range = self.info.byte_range_to_file_range(
                    piece_offset,
                    piece_offset + plen as u64,
                );
                Piece::new(expected_hash, plen, range.0, range.1)
            },
        };
        proof {
            assert(self.piece_wf(piece, piece_index as int));
        }
        let ghost pre_piece = piece;

        // place the block into its slot
        let ghost data_view = data@;
        piece.enqueue_block(block_info.offset, data);
        proof {
            let idx = piece_index as int;
            if old(self).write_buf@[idx] is None {
                assert(pre_piece.blocks_view() =~= Seq::new(
                    spec_block_count(old(self).info.spec_piece_len_at(idx) as u32) as nat,
                    |i: int| None,
                ));
                assert(pre_piece.blocks_view().update(
                    block_info.offset as int / (BLOCK_LEN as int),
                    Some(data_view),
                ) =~= old(self).spec_slots_with(block_info, data_view));
            }
            assert(piece.blocks_view() == old(self).spec_slots_with(block_info, data_view));
            assert(piece.content() == old(self).spec_piece_content_with(block_info, data_view));
        }

        if piece.is_complete() {
            let hash_matches = piece.match_hash();
            if hash_matches {
                proof {
                    piece.lemma_content_len();
                    self.info.lemma_range_facts(
                        piece_offset as int,
                        piece_offset + plen,
                        piece.file_range_start as int,
                        piece.file_range_end as int,
                    );
                }
                let writes = piece.write_plan(piece_offset, &self.info.files);
                BlockWriteOutcome::PieceComplete { index: piece_index, writes }
            } else {
                BlockWriteOutcome::PieceHashMismatch { index: piece_index }
            }
        } else {
            proof {
                crate::piece::lemma_count_filled_bounds(piece.blocks_view());
            }
            self.write_buf.set(piece_index, Some(piece));
            BlockWriteOutcome::Buffered
        }
    }

    /// Plans the positional reads that fetch the whole piece holding the
    /// requested block: the read path fetches a piece at a time and
    /// serves blocks out of the read bytes.
    pub fn read_block_plan(&self, block_info: BlockInfo) -> (r: Result<Vec<FileRead>, ReadError>)
        requires
            self.wf(),
        ensures
            (r is Err) <==> !spec_valid_block(self.info, block_info, block_info.len as int),
            r matches Err(e) ==> e == ReadError::InvalidBlockOffset,
            r matches Ok(reads) ==> {
                &&& reads_total(reads@) == self.info.spec_piece_len_at(
                    block_info.piece_index as int,
                )
                &&& reads@.len() >= 1
                &&& forall|j: int|
                    0 <= j < reads@.len() ==> 0 <= (#[trigger] reads@[j]).file_index
                        < self.info.files@.len()
                &&& forall|j: int|
                    0 <= j < reads@.len() ==> (#[trigger] reads@[j]).offset + reads@[j].len
                        <= self.info.files@[reads@[j].file_index as int].len
                &&& forall|j: int|
                    0 <= j < reads@.len() ==> self.info.files@[(
                    #[trigger] reads@[j]).file_index as int].torrent_offset + reads@[j].offset
                        == self.info.spec_piece_offset(block_info.piece_index as int)
                        + reads_total(reads@.take(j))
            },
    {
        let valid = block_info.piece_index < self.info.piece_count && block_info.offset
            % BLOCK_LEN == 0 && {
            let plen = self.info.piece_len_at(block_info.piece_index);
            block_info.offset < plen && {
                proof {
                    lemma_aligned_offset_index(plen, block_info.offset);
                }
                let index_in_piece = (block_info.offset / BLOCK_LEN) as usize;
                let expected_len = crate::blockinfo::block_len(plen, index_in_piece);
                block_info.len == expected_len
            }
        };
        if !valid {
            return Err(ReadError::InvalidBlockOffset);
        }
        let piece_index = block_info.piece_index;
        let plen = self.info.piece_len_at(piece_index);
        let piece_offset = self.info.piece_offset(piece_index);
        proof {
            self.info.lemma_piece_in_range(piece_index as int);
        }
        let range = self.info.byte_range_to_file_range(piece_offset, piece_offset + plen as u64);
        proof {
            self.info.lemma_range_facts(
                piece_offset as int,
                piece_offset + plen,
                range.0 as int,
                range.1 as int,
            );
        }
        Ok(read_plan(piece_offset, range.0, range.1, &self.info.files, plen))
    }

    /// Serves the requested block out of the piece bytes that came back
    /// from the planned reads: the piece is cut into cached blocks and
    /// the one the offset addresses is handed out. Fewer bytes than the
    /// whole piece mean the piece was never fully written, so the data
    /// is missing.
    pub fn read_block_complete(&self, block_info: BlockInfo, data: Vec<u8>) -> (r: Result<
        Block,
        ReadError,
    >)
        requires
            self.wf(),
            spec_valid_block(self.info, block_info, block_info.len as int),
        ensures
            data@.len() != self.info.spec_piece_len_at(block_info.piece_index as int) ==> r
                == Result::<Block, ReadError>::Err(ReadError::MissingData),
            data@.len() == self.info.spec_piece_len_at(block_info.piece_index as int) ==> (
            r is Ok && r->Ok_0.piece_index == block_info.piece_index && r->Ok_0.offset
                == block_info.offset && (r->Ok_0.data is Cached) && r->Ok_0.data.bytes()
                == data@.subrange(
                block_info.offset as int,
                block_info.offset as int + block_info.len as int,
            )),
    {
        let plen = self.info.piece_len_at(block_info.piece_index);
        if data.len() != plen as usize {
            return Err(ReadError::MissingData);
        }
        proof {
            lemma_aligned_offset_index(plen, block_info.offset);
        }
        let mut blocks = split_into_blocks(&data);
        let index_in_piece = (block_info.offset / BLOCK_LEN) as usize;
        let bytes = blocks.remove(index_in_piece);
        proof {
            assert(bytes@ == data@.subrange(
                block_info.offset as int,
                block_info.offset as int + block_info.len as int,
            )) by {
                assert(index_in_piece * (BLOCK_LEN as int) == block_info.offset as int)
                    by (nonlinear_arith)
                    requires
                        index_in_piece == block_info.offset as int / (BLOCK_LEN as int),
                        block_info.offset as int % (BLOCK_LEN as int) == 0,
                        BLOCK_LEN == 0x4000,
                ;
            }
        }
        Ok(
            Block {
                piece_index: block_info.piece_index,
                offset: block_info.offset,
                data: BlockData::Cached(Arc::new(bytes)),
            },
        )
    }
}

/// The commands the disk worker executes, in arrival order.
pub enum Command {
    /// Allocate a new torrent's disk state.
    NewTorrent { id: TorrentId, storage_info: StorageInfo, piece_hashes: Vec<u8> },
    /// A block arrived and is to be buffered and eventually written.
    WriteBlock { id: TorrentId, block_info: BlockInfo, data: Vec<u8> },
    /// A block is to be read back and returned to the requester.
    ReadBlock { id: TorrentId, block_info: BlockInfo },
    /// Stop the worker, dropping all torrent states.
    Shutdown,
}

/// The disk worker's state: every torrent's disk state, keyed by the
/// torrent's id.
pub struct Disk {
    /// The torrents under management; the id values are unique.
    pub torrents: Vec<(u32, Torrent)>,
}

/// Whether some entry carries the given id.
pub open spec fn spec_has_id(s: Seq<(u32, Torrent)>, id: u32) -> bool {
    exists|i: int| 0 <= i < s.len() && (#[trigger] s[i]).0 == id
}

impl Disk {
    /// The worker invariant: ids are unique and every torrent state is
    /// well formed.
    pub open spec fn wf(&self) -> bool {
        &&& forall|i: int, j: int|
            0 <= i < j < self.torrents@.len() ==> (#[trigger] self.torrents@[i]).0 != (
            #[trigger] self.torrents@[j]).0
        &&& forall|i: int|
            0 <= i < self.torrents@.len() ==> (#[trigger] self.torrents@[i]).1.wf()
    }

    /// Creates a worker with no torrents.
    pub fn new() -> (r: Disk)
        ensures
            r.wf(),
            r.torrents@.len() == 0,
    {
        Disk { torrents: Vec::new() }
    }

    /// Finds the position of the torrent with the given id.
    fn find(&self, id: u32) -> (r: Option<usize>)
        ensures
            r matches Some(i) ==> i < self.torrents@.len() && self.torrents@[i as int].0 == id,
            r is None ==> !spec_has_id(self.torrents@, id),
    {
        let n = self.torrents.len();
        let mut i: usize = 0;
        while i < n
            invariant
                n == self.torrents@.len(),
                i <= n,
                forall|j: int| 0 <= j < i ==> (#[trigger] self.torrents@[j]).0 != id,
            decreases n - i,
        {
            if self.torrents[i].0 == id {
                return Some(i);
            }
            i += 1;
        }
        None
    }

    /// Allocates the disk state for a new torrent. A torrent that
    /// already exists is reported, not replaced: the second allocation
    /// of one id fails with `AlreadyExists` and changes nothing, and the
    /// worker goes on serving commands.
    pub fn new_torrent(
        &mut self,
        id: TorrentId,
        storage_info: StorageInfo,
        piece_hashes: Vec<u8>,
    ) -> (r: Result<(), NewTorrentError>)
        requires
            old(self).wf(),
            storage_info.wf(),
            piece_hashes@.len() == 20 * storage_info.piece_count,
        ensures
            final(self).wf(),
            (r == Result::<(), NewTorrentError>::Err(NewTorrentError::AlreadyExists)) <==> spec_has_id(
                old(self).torrents@,
                id.0,
            ),
            r is Err ==> *final(self) == *old(self),
            r is Ok ==> {
                &&& final(self).torrents@.len() == old(self).torrents@.len() + 1
                &&& final(self).torrents@.last().0 == id.0
                &&& final(self).torrents@.last().1.info == storage_info
                &&& final(self).torrents@.last().1.piece_hashes@ == piece_hashes@
                &&& final(self).torrents@.take(old(self).torrents@.len() as int) == old(
                    self,
                ).torrents@
            },
            spec_has_id(final(self).torrents@, id.0),
    {
        match self.find(id.0) {
            Some(_) => Err(NewTorrentError::AlreadyExists),
            None => {
                let torrent = Torrent::new(storage_info, piece_hashes);
                let ghost pre = self.torrents@;
                self.torrents.push((id.0, torrent));
                proof {
                    assert(self.torrents@.take(pre.len() as int) =~= pre);
                    assert(self.torrents@[pre.len() as int].0 == id.0);
                }
                Ok(())
            },
        }
    }

    /// Routes a block write to its torrent. An unknown torrent id is a
    /// programming error on the caller's side and is fatal to the
    /// caller, not to the worker.
    pub fn write_block(&mut self, id: TorrentId, block_info: BlockInfo, data: Vec<u8>) -> (r:
        Result<BlockWriteOutcome, crate::error::Error>)
        requires
            old(self).wf(),
        ensures
            final(self).wf(),
            (r is Err) <==> !spec_has_id(old(self).torrents@, id.0),
            r matches Err(e) ==> e == crate::error::Error::InvalidTorrentId && *final(self) == *old(
                self,
            ),
            r matches Ok(outcome) ==> exists|i: int|
                {
                    &&& 0 <= i < old(self).torrents@.len()
                    &&& (#[trigger] old(self).torrents@[i]).0 == id.0
                    &&& final(self).torrents@.len() == old(self).torrents@.len()
                    &&& spec_write_block_post(
                        old(self).torrents@[i].1,
                        final(self).torrents@[i].1,
                        block_info,
                        data@,
                        outcome,
                    )
                    &&& forall|j: int|
                        0 <= j < old(self).torrents@.len() && j != i
                            ==> final(self).torrents@[j] == old(self).torrents@[j]
                    &&& final(self).torrents@[i].0 == id.0
                },
    {
        match self.find(id.0) {
            None => Err(crate::error::Error::InvalidTorrentId),
            Some(i) => {
                let entry = &mut self.torrents[i];
                let outcome = entry.1.write_block(block_info, data);
                Ok(outcome)
            },
        }
    }

    /// Routes a block read plan to its torrent. An unknown torrent id
    /// is fatal to the caller; a bad block announcement travels back to
    /// the requesting peer session as a read error.
    pub fn read_block_plan(&self, id: TorrentId, block_info: BlockInfo) -> (r: Result<
        Result<Vec<FileRead>, ReadError>,
        crate::error::Error,
    >)
        requires
            self.wf(),
        ensures
            (r is Err) <==> !spec_has_id(self.torrents@, id.0),
            r matches Err(e) ==> e == crate::error::Error::InvalidTorrentId,
            r matches Ok(inner) ==> exists|i: int|
                {
                    &&& 0 <= i < self.torrents@.len()
                    &&& (#[trigger] self.torrents@[i]).0 == id.0
                    &&& ((inner is Err) <==> !spec_valid_block(
                        self.torrents@[i].1.info,
                        block_info,
                        block_info.len as int,
                    ))
                    &&& (inner matches Err(e) ==> e == ReadError::InvalidBlockOffset)
                    &&& (inner matches Ok(reads) ==> reads_total(reads@)
                        == self.torrents@[i].1.info.spec_piece_len_at(
                        block_info.piece_index as int,
                    ))
                },
    {
        match self.find(id.0) {
            None => Err(crate::error::Error::InvalidTorrentId),
            Some(i) => Ok(self.torrents[i].1.read_block_plan(block_info)),
        }
    }

    /// Routes the bytes a read plan fetched back to the torrent, which
    /// serves the requested block out of them.
    pub fn read_block_complete(&self, id: TorrentId, block_info: BlockInfo, data: Vec<u8>) -> (r:
        Result<Result<Block, ReadError>, crate::error::Error>)
        requires
            self.wf(),
        ensures
            (r is Err) <==> !spec_has_id(self.torrents@, id.0) || exists|i: int|
                {
                    &&& 0 <= i < self.torrents@.len()
                    &&& (#[trigger] self.torrents@[i]).0 == id.0
                    &&& !spec_valid_block(
                        self.torrents@[i].1.info,
                        block_info,
                        block_info.len as int,
                    )
                },
            r matches Ok(inner) ==> exists|i: int|
                {
                    &&& 0 <= i < self.torrents@.len()
                    &&& (#[trigger] self.torrents@[i]).0 == id.0
                    &&& (data@.len() != self.torrents@[i].1.info.spec_piece_len_at(
                        block_info.piece_index as int,
                    ) ==> inner == Result::<Block, ReadError>::Err(ReadError::MissingData))
                    &&& (data@.len() == self.torrents@[i].1.info.spec_piece_len_at(
                        block_info.piece_index as int,
                    ) ==> (inner is Ok && inner->Ok_0.piece_index == block_info.piece_index
                        && inner->Ok_0.offset == block_info.offset && (inner->Ok_0.data is Cached)
                        && inner->Ok_0.data.bytes() == data@.subrange(
                        block_info.offset as int,
                        block_info.offset as int + block_info.len as int,
                    )))
                },
    {
        match self.find(id.0) {
            None => Err(crate::error::Error::InvalidTorrentId),
            Some(i) => {
                let torrent = &self.torrents[i].1;
                let valid = block_info.piece_index < torrent.info.piece_count && block_info.offset
                    % BLOCK_LEN == 0 && {
                    let plen = torrent.info.piece_len_at(block_info.piece_index);
                    block_info.offset < plen && {
                        proof {
                            lemma_aligned_offset_index(plen, block_info.offset);
                        }
                        let index_in_piece = (block_info.offset / BLOCK_LEN) as usize;
                        let expected_len = crate::blockinfo::block_len(plen, index_in_piece);
                        block_info.len == expected_len
                    }
                };
                if !valid {
                    return Err(crate::error::Error::InvalidTorrentId);
                }
                Ok(torrent.read_block_complete(block_info, data))
            },
        }
    }

    /// Drops every torrent state: the worker's answer to a shutdown
    /// command.
    pub fn shutdown(&mut self)
        ensures
            final(self).wf(),
            final(self).torrents@.len() == 0,
    {
        self.torrents.clear();
    }
}

} // verus!
