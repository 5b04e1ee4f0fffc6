//! The piece assembler: an in-memory accumulator for one piece's blocks.
//! Blocks arrive addressed by their offset within the piece; once every
//! slot is filled the piece is hashed, compared against the expected
//! digest, and written out across the files it overlaps.

use crate::blockinfo::{block_count, spec_block_count, spec_block_len, BLOCK_LEN};
use crate::byteseq::slice_u8_eq;
use crate::define::{FileIndex, Sha1Hash};
use crate::iovecs::{bytes_of, lemma_bytes_of_empty, lemma_bytes_of_push, min_int, IoVec, IoVecs};
use crate::storage_info::{files_contiguous, files_total_len, lemma_files_monotonic, FileInfo};
use sha1::Digest;
use vstd::prelude::*;
use vstd::seq_lib::lemma_flatten_concat;

verus! {

/// What `sha1::Sha1::digest` returns on the given bytes: a function of
/// the input alone, the same in every process.
pub uninterp spec fn sha1_of(data: Seq<u8>) -> Seq<u8>;

/// Relies on sha1::Sha1::digest: the 20-byte SHA-1 digest of the input
/// bytes, which depends on those bytes alone.
#[verifier::external_body]
pub fn sha1_digest(data: &Vec<u8>) -> (r: Sha1Hash)
    ensures
        r@ == sha1_of(data@),
{
    let digest = sha1::Sha1::digest(data.as_slice());
    let mut out = [0u8; 20];
    out.copy_from_slice(&digest);
    out
}

/// The bytes a block slot holds: none yet, or the block's bytes.
pub open spec fn slot_bytes(o: Option<Seq<u8>>) -> Seq<u8> {
    match o {
        Some(b) => b,
        None => Seq::empty(),
    }
}

/// The bytes of a slot list, in slot order; empty slots contribute
/// nothing.
pub open spec fn content_of(s: Seq<Option<Seq<u8>>>) -> Seq<u8> {
    s.map_values(|o: Option<Seq<u8>>| slot_bytes(o)).flatten()
}

/// A list of empty slots holds no bytes.
pub proof fn lemma_content_of_empty()
    ensures
        content_of(Seq::<Option<Seq<u8>>>::empty()) == Seq::<u8>::empty(),
{
    assert(Seq::<Option<Seq<u8>>>::empty().map_values(|o: Option<Seq<u8>>| slot_bytes(o))
        =~= Seq::<Seq<u8>>::empty());
}

/// Appending a slot appends its bytes.
pub proof fn lemma_content_of_push(s: Seq<Option<Seq<u8>>>, o: Option<Seq<u8>>)
    ensures
        content_of(s.push(o)) == content_of(s) + slot_bytes(o),
{
    let f = |x: Option<Seq<u8>>| slot_bytes(x);
    assert(s.push(o).map_values(f) =~= s.map_values(f).push(slot_bytes(o)));
    s.map_values(f).lemma_flatten_push(slot_bytes(o));
}

/// Concatenating slot lists concatenates their bytes.
pub proof fn lemma_content_of_concat(x: Seq<Option<Seq<u8>>>, y: Seq<Option<Seq<u8>>>)
    ensures
        content_of(x + y) == content_of(x) + content_of(y),
{
    let f = |o: Option<Seq<u8>>| slot_bytes(o);
    assert((x + y).map_values(f) =~= x.map_values(f) + y.map_values(f));
    lemma_flatten_concat(x.map_values(f), y.map_values(f));
}

/// The number of filled slots.
pub open spec fn count_filled(s: Seq<Option<Seq<u8>>>) -> int
    decreases s.len(),
{
    if s.len() == 0 {
        0
    } else {
        count_filled(s.drop_last()) + if s.last() is Some {
            1int
        } else {
            0int
        }
    }
}

/// The filled count never exceeds the slot count.
pub proof fn lemma_count_filled_bounds(s: Seq<Option<Seq<u8>>>)
    ensures
        0 <= count_filled(s) <= s.len(),
    decreases s.len(),
{
    if s.len() > 0 {
        lemma_count_filled_bounds(s.drop_last());
    }
}

/// Filling an empty slot raises the filled count by one; refilling a
/// filled slot is counted by no one.
pub proof fn lemma_count_filled_update(s: Seq<Option<Seq<u8>>>, i: int, b: Seq<u8>)
    requires
        0 <= i < s.len(),
        s[i] is None,
    ensures
        count_filled(s.update(i, Some(b))) == count_filled(s) + 1,
    decreases s.len(),
{
    let t = s.update(i, Some(b));
    if i == s.len() - 1 {
        assert(t.drop_last() =~= s.drop_last());
    } else {
        assert(t.drop_last() =~= s.drop_last().update(i, Some(b)));
        assert(t.last() == s.last());
        lemma_count_filled_update(s.drop_last(), i, b);
    }
}

/// The slot list after a block lands at slot `i`: filled when the slot
/// was empty, untouched when a block already sat there.
pub open spec fn spec_enqueue(s: Seq<Option<Seq<u8>>>, i: int, data: Seq<u8>) -> Seq<
    Option<Seq<u8>>,
> {
    if s[i] is Some {
        s
    } else {
        s.update(i, Some(data))
    }
}

/// Duplicate-enqueue idempotence: once a block sits at an offset, a
/// second block enqueued at the same offset changes nothing, whatever
/// bytes it carries — the slots, and with them the piece's content,
/// equal those after the first enqueue alone.
pub proof fn lemma_duplicate_enqueue(s: Seq<Option<Seq<u8>>>, i: int, d1: Seq<u8>, d2: Seq<u8>)
    requires
        0 <= i < s.len(),
    ensures
        spec_enqueue(spec_enqueue(s, i, d1), i, d2) == spec_enqueue(s, i, d1),
{
}

/// When every slot counts as filled, every slot is filled.
pub proof fn lemma_count_filled_full(s: Seq<Option<Seq<u8>>>)
    requires
        count_filled(s) == s.len(),
    ensures
        forall|i: int| 0 <= i < s.len() ==> s[i] is Some,
    decreases s.len(),
{
    if s.len() > 0 {
        lemma_count_filled_bounds(s.drop_last());
        assert(s.last() is Some);
        assert(count_filled(s.drop_last()) == s.drop_last().len());
        lemma_count_filled_full(s.drop_last());
        assert forall|i: int| 0 <= i < s.len() implies s[i] is Some by {
            if i < s.len() - 1 {
                assert(s[i] == s.drop_last()[i]);
            } else {
                assert(s[i] == s.last());
            }
        }
    }
}

/// An in-progress piece: the blocks downloaded so far, the piece's
/// expected digest and length, and the file range it overlaps.
pub struct Piece {
    /// The expected SHA-1 digest of the whole piece.
    pub expected_hash: Sha1Hash,
    /// The length of the piece, in bytes.
    pub len: u32,
    /// One slot per block of the piece, in offset order. A filled slot
    /// holds the block's bytes; blocks never overlap because each lands
    /// in the slot its offset addresses.
    pub blocks: Vec<Option<Vec<u8>>>,
    /// The first file index the piece's byte range intersects.
    pub file_range_start: FileIndex,
    /// One past the last file index the piece's byte range intersects.
    pub file_range_end: FileIndex,
    /// How many slots are filled.
    pub filled: usize,
}

impl Piece {
    /// The slots as mathematical values.
    pub open spec fn blocks_view(&self) -> Seq<Option<Seq<u8>>> {
        self.blocks@.map_values(
            |b: Option<Vec<u8>>|
                match b {
                    Some(v) => Some(v@),
                    None => None,
                },
        )
    }

    /// The piece's bytes so far: the filled blocks' bytes in offset
    /// order.
    pub open spec fn content(&self) -> Seq<u8> {
        content_of(self.blocks_view())
    }

    /// The assembler's invariant: one slot per block of the piece, each
    /// filled slot holding exactly its block's bytes, and the filled
    /// counter matching the slots.
    pub open spec fn wf(&self) -> bool {
        &&& self.len >= 1
        &&& self.blocks@.len() == spec_block_count(self.len)
        &&& self.filled == count_filled(self.blocks_view())
        &&& forall|i: int|
            0 <= i < self.blocks_view().len() ==> ((#[trigger] self.blocks_view()[i]) matches Some(
                b,
            ) ==> b.len() == spec_block_len(self.len, i))
    }

    /// Whether every block of the piece has arrived.
    pub open spec fn spec_is_complete(&self) -> bool {
        self.filled == self.blocks@.len()
    }

    /// Creates an empty assembler for a piece of `len` bytes overlapping
    /// the files `[file_range_start, file_range_end)`.
    pub fn new(expected_hash: Sha1Hash, len: u32, file_range_start: FileIndex,
        file_range_end: FileIndex) -> (r: Piece)
        requires
            len >= 1,
        ensures
            r.wf(),
            r.expected_hash == expected_hash,
            r.len == len,
            r.file_range_start == file_range_start,
            r.file_range_end == file_range_end,
            r.filled == 0,
            forall|i: int| 0 <= i < r.blocks_view().len() ==> r.blocks_view()[i] is None,
    {
        let count = block_count(len);
        let mut blocks: Vec<Option<Vec<u8>>> = Vec::new();
        let mut i: usize = 0;
        while i < count
            invariant
                i <= count,
                blocks@.len() == i,
                forall|j: int| 0 <= j < i ==> blocks@[j] is None,
            decreases count - i,
        {
            blocks.push(None);
            i += 1;
        }
        let r = Piece {
            expected_hash,
            len,
            blocks,
            file_range_start,
            file_range_end,
            filled: 0,
        };
        proof {
            lemma_count_all_none(r.blocks_view());
        }
        r
    }

    /// Places a block into its slot if the slot is empty; a duplicate
    /// arrival leaves the piece exactly as it was, so enqueueing the
    /// same offset twice equals enqueueing it once.
    pub fn enqueue_block(&mut self, offset: u32, data: Vec<u8>)
        requires
            old(self).wf(),
            offset % BLOCK_LEN == 0,
            offset as int / (BLOCK_LEN as int) < old(self).blocks@.len(),
            data@.len() == spec_block_len(old(self).len, offset as int / (BLOCK_LEN as int)),
        ensures
            final(self).wf(),
            final(self).blocks_view() == spec_enqueue(
                old(self).blocks_view(),
                offset as int / (BLOCK_LEN as int),
                data@,
            ),
            old(self).blocks_view()[offset as int / (BLOCK_LEN as int)] is Some ==> *final(self)
                == *old(self),
            old(self).blocks_view()[offset as int / (BLOCK_LEN as int)] is None ==> {
                &&& final(self).blocks_view() == old(self).blocks_view().update(
                    offset as int / (BLOCK_LEN as int),
                    Some(data@),
                )
                &&& final(self).filled == old(self).filled + 1
                &&& final(self).expected_hash == old(self).expected_hash
                &&& final(self).len == old(self).len
                &&& final(self).file_range_start == old(self).file_range_start
                &&& final(self).file_range_end == old(self).file_range_end
            },
    {
        let index = (offset / BLOCK_LEN) as usize;
        let occupied = self.blocks[index].is_some();
        if !occupied {
            proof {
                lemma_count_filled_update(self.blocks_view(), index as int, data@);
                lemma_count_filled_bounds(self.blocks_view());
            }
            self.blocks.set(index, Some(data));
            self.filled = self.filled + 1;
            proof {
                assert(self.blocks_view() =~= old(self).blocks_view().update(
                    index as int,
                    Some(data@),
                ));
            }
        }
    }

    /// Whether the piece has all its blocks in its write buffer.
    pub fn is_complete(&self) -> (r: bool)
        requires
            self.wf(),
        ensures
            r == self.spec_is_complete(),
            r ==> forall|i: int| 0 <= i < self.blocks_view().len() ==> self.blocks_view()[i]
                is Some,
    {
        proof {
            if self.filled == self.blocks@.len() {
                lemma_count_filled_full(self.blocks_view());
            }
        }
        self.filled == self.blocks.len()
    }

    /// Flattens the filled blocks into the piece's bytes, in offset
    /// order.
    pub fn assemble(&self) -> (r: Vec<u8>)
        requires
            self.wf(),
        ensures
            r@ == self.content(),
    {
        let n = self.blocks.len();
        let mut r: Vec<u8> = Vec::new();
        let mut i: usize = 0;
        proof {
            lemma_content_of_empty();
            assert(self.blocks_view().take(0) =~= Seq::<Option<Seq<u8>>>::empty());
        }
        while i < n
            invariant
                self.wf(),
                n == self.blocks@.len(),
                i <= n,
                r@ == content_of(self.blocks_view().take(i as int)),
            decreases n - i,
        {
            match &self.blocks[i] {
                Some(b) => {
                    crate::byteseq::extend_bytes(&mut r, b.as_slice());
                },
                None => {},
            }
            proof {
                assert(self.blocks_view().take(i + 1) =~= self.blocks_view().take(i as int).push(
                    self.blocks_view()[i as int],
                ));
                lemma_content_of_push(self.blocks_view().take(i as int), self.blocks_view()[i as int]);
            }
            i += 1;
        }
        proof {
            assert(self.blocks_view().take(n as int) =~= self.blocks_view());
        }
        r
    }

    /// Hashes the piece's blocks in ascending offset order and compares
    /// the digest against the expected one.
    pub fn match_hash(&self) -> (r: bool)
        requires
            self.wf(),
            self.spec_is_complete(),
        ensures
            r == (sha1_of(self.content()) == self.expected_hash@),
    {
        let data = self.assemble();
        let digest = sha1_digest(&data);
        slice_u8_eq(digest.as_slice(), self.expected_hash.as_slice())
    }
}

/// One positional write against one file: `bytes` is to be written at
/// byte `offset` of the file at `file_index`.
pub struct FileWrite {
    /// The index of the file to write to.
    pub file_index: FileIndex,
    /// The byte offset within that file.
    pub offset: u64,
    /// The bytes to write there.
    pub bytes: Vec<u8>,
}

/// All bytes of a write list, in order.
pub open spec fn writes_bytes(ws: Seq<FileWrite>) -> Seq<u8> {
    ws.map_values(|w: FileWrite| w.bytes@).flatten()
}

/// Appending one write appends its bytes.
pub proof fn lemma_writes_bytes_push(ws: Seq<FileWrite>, w: FileWrite)
    ensures
        writes_bytes(ws.push(w)) == writes_bytes(ws) + w.bytes@,
{
    let f = |x: FileWrite| x.bytes@;
    assert(ws.push(w).map_values(f) =~= ws.map_values(f).push(w.bytes@));
    ws.map_values(f).lemma_flatten_push(w.bytes@);
}

/// An empty write list holds no bytes.
pub proof fn lemma_writes_bytes_empty()
    ensures
        writes_bytes(Seq::<FileWrite>::empty()) == Seq::<u8>::empty(),
{
    assert(Seq::<FileWrite>::empty().map_values(|w: FileWrite| w.bytes@) =~= Seq::<
        Seq<u8>,
    >::empty());
}

impl Piece {
    /// The blocks of the complete piece as a list of I/O buffers.
    pub fn to_iovecs(&self) -> (r: Vec<IoVec>)
        requires
            self.wf(),
            self.spec_is_complete(),
        ensures
            bytes_of(r@) == self.content(),
    {
        proof {
            lemma_count_filled_full(self.blocks_view());
        }
        let n = self.blocks.len();
        let mut r: Vec<IoVec> = Vec::new();
        let mut i: usize = 0;
        proof {
            lemma_bytes_of_empty();
            lemma_content_of_empty();
            assert(self.blocks_view().take(0) =~= Seq::<Option<Seq<u8>>>::empty());
        }
        while i < n
            invariant
                self.wf(),
                self.spec_is_complete(),
                forall|j: int| 0 <= j < self.blocks_view().len() ==> self.blocks_view()[j] is Some,
                n == self.blocks@.len(),
                i <= n,
                bytes_of(r@) == content_of(self.blocks_view().take(i as int)),
            decreases n - i,
        {
            let ghost pre = r@;
            match &self.blocks[i] {
                Some(b) => {
                    r.push(IoVec::from_slice(b.as_slice()));
                },
                None => {
                    proof {
                        assert(false);
                    }
                },
            }
            proof {
                lemma_bytes_of_push(pre, r@[r@.len() - 1]);
                assert(self.blocks_view().take(i + 1) =~= self.blocks_view().take(i as int).push(
                    self.blocks_view()[i as int],
                ));
                lemma_content_of_push(self.blocks_view().take(i as int), self.blocks_view()[i as int]);
            }
            i += 1;
        }
        proof {
            assert(self.blocks_view().take(n as int) =~= self.blocks_view());
        }
        r
    }

    /// Plans the writes that place the complete piece's bytes into the
    /// files it overlaps: one positional write per file of the range,
    /// clipped against each file's byte range.
    ///
    /// The planned writes carry exactly the piece's bytes in order, each
    /// lands at the file position where the piece's cursor stands, and
    /// none reaches past its file's declared length, even when the
    /// buffers straddle file boundaries.
    #[verifier::rlimit(100)]
    #[verifier::spinoff_prover]
    pub fn write_plan(&self, torrent_piece_offset: u64, files: &Vec<FileInfo>) -> (r: Vec<
        FileWrite,
    >)
        requires
            self.wf(),
            self.spec_is_complete(),
            files_contiguous(files@),
            files_total_len(files@) < 0x1000_0000_0000_0000,
            self.file_range_start < self.file_range_end <= files@.len(),
            files@[self.file_range_start as int].torrent_offset <= torrent_piece_offset,
            torrent_piece_offset < files@[self.file_range_start as int].spec_end(),
            files@[self.file_range_end - 1].torrent_offset < torrent_piece_offset + self.len,
            torrent_piece_offset + self.len <= files@[self.file_range_end - 1].spec_end(),
        ensures
            writes_bytes(r@) == self.content(),
            r@.len() == self.file_range_end - self.file_range_start,
            forall|j: int|
                0 <= j < r@.len() ==> (#[trigger] r@[j]).file_index == self.file_range_start + j,
            forall|j: int|
                0 <= j < r@.len() ==> (#[trigger] r@[j]).offset + r@[j].bytes@.len()
                    <= files@[r@[j].file_index as int].len,
            forall|j: int|
                0 <= j < r@.len() ==> files@[(#[trigger] r@[j]).file_index as int].torrent_offset
                    + r@[j].offset == torrent_piece_offset + writes_bytes(r@.take(j)).len(),
            forall|j: int| 0 <= j < r@.len() ==> (#[trigger] r@[j]).bytes@.len() >= 1,
    {
        proof {
            self.lemma_content_len();
            assert forall|i: int|
                0 <= i < files@.len() implies #[trigger] files@[i].spec_end() <= files_total_len(
                files@,
            ) by {
                lemma_files_monotonic(files@, i, files@.len() - 1);
            }
        }
        let ghost piece_bytes = self.content();
        let mut bufs = self.to_iovecs();
        let mut writes: Vec<FileWrite> = Vec::new();
        let mut written: u64 = 0;
        let mut fi: usize = self.file_range_start;
        proof {
            lemma_writes_bytes_empty();
            assert(writes@ =~= Seq::<FileWrite>::empty());
            assert(piece_bytes.skip(0) =~= piece_bytes);
            assert(piece_bytes.take(0) =~= Seq::<u8>::empty());
        }
        while fi < self.file_range_end
            invariant
                self.wf(),
                piece_bytes == self.content(),
                piece_bytes.len() == self.len,
                files_contiguous(files@),
                files_total_len(files@) < 0x1000_0000_0000_0000,
                forall|i: int|
                    0 <= i < files@.len() ==> #[trigger] files@[i].spec_end() <= files_total_len(
                        files@,
                    ),
                self.file_range_start < self.file_range_end <= files@.len(),
                files@[self.file_range_start as int].torrent_offset <= torrent_piece_offset,
                torrent_piece_offset < files@[self.file_range_start as int].spec_end(),
                files@[self.file_range_end - 1].torrent_offset < torrent_piece_offset + self.len,
                torrent_piece_offset + self.len <= files@[self.file_range_end - 1].spec_end(),
                self.file_range_start <= fi <= self.file_range_end,
                written <= self.len,
                bytes_of(bufs@) == piece_bytes.skip(written as int),
                writes_bytes(writes@) == piece_bytes.take(written as int),
                writes@.len() == fi - self.file_range_start,
                fi < self.file_range_end ==> files@[fi as int].torrent_offset
                    <= torrent_piece_offset + written < files@[fi as int].spec_end(),
                fi < self.file_range_end ==> written < self.len,
                fi > self.file_range_start ==> torrent_piece_offset + written == files@[
                    fi as int - 1].spec_end() || fi == self.file_range_end,
                fi == self.file_range_end ==> written == self.len,
                forall|j: int|
                    0 <= j < writes@.len() ==> (#[trigger] writes@[j]).file_index
                        == self.file_range_start + j,
                forall|j: int|
                    0 <= j < writes@.len() ==> (#[trigger] writes@[j]).offset
                        + writes@[j].bytes@.len() <= files@[writes@[j].file_index as int].len,
                forall|j: int|
                    0 <= j < writes@.len() ==> files@[(#[trigger] writes@[j]).file_index as int].torrent_offset
                        + writes@[j].offset == torrent_piece_offset + writes_bytes(
                        writes@.take(j),
                    ).len(),
                forall|j: int| 0 <= j < writes@.len() ==> (#[trigger] writes@[j]).bytes@.len() >= 1,
            decreases self.file_range_end - fi,
        {
            let cursor = torrent_piece_offset + written;
            let remaining = self.len as u64 - written;
            proof {
                lemma_files_monotonic(files@, fi as int, self.file_range_end - 1);
            }
            let file = &files[fi];
            let slice = file.get_slice(cursor, remaining);
            let iovecs = IoVecs::bounded(bufs, slice.len as usize);
            let chunk = iovecs.as_u8_vec();
            bufs = iovecs.into_tail();
            let ghost pre_writes = writes@;
            let w = FileWrite { file_index: fi, offset: slice.offset, bytes: chunk };
            writes.push(w);
            proof {
                lemma_writes_bytes_push(pre_writes, w);
                assert(piece_bytes.skip(written as int).take(slice.len as int) =~= piece_bytes.skip(
                    written as int,
                ).take(min_int(piece_bytes.skip(written as int).len() as int, slice.len as int)));
                assert(piece_bytes.take(written as int) + piece_bytes.skip(written as int).take(
                    slice.len as int,
                ) =~= piece_bytes.take(written + slice.len));
                assert(piece_bytes.skip(written as int).skip(slice.len as int) =~= piece_bytes.skip(
                    written + slice.len,
                ));
                assert(writes@.take(writes@.len() - 1) =~= pre_writes);
                assert forall|j: int|
                    0 <= j < writes@.len() implies files@[(#[trigger] writes@[j]).file_index as int].torrent_offset
                    + writes@[j].offset == torrent_piece_offset + writes_bytes(
                    writes@.take(j),
                ).len() by {
                    assert(writes@.take(j) =~= pre_writes.take(j));
                    if j < pre_writes.len() {
                        assert(writes@[j] == pre_writes[j]);
                    } else {
                        assert(writes@.take(j) =~= pre_writes);
                        assert(writes@[j] == w);
                    }
                }
            }
            written = written + slice.len;
            fi = fi + 1;
            proof {
                if fi < self.file_range_end {
                    lemma_files_monotonic(files@, fi as int, self.file_range_end - 1);
                    assert(files@[fi as int].torrent_offset == files@[fi as int - 1].spec_end());
                    // the piece reaches into the next file, so this slice
                    // filled the previous file to its end
                    assert(torrent_piece_offset + written == files@[fi as int].torrent_offset);
                    assert(files@[fi as int].torrent_offset <= files@[self.file_range_end
                        - 1].torrent_offset);
                    assert(written < self.len);
                } else {
                    assert(written == self.len);
                }
            }
        }
        proof {
            assert(piece_bytes.take(written as int) =~= piece_bytes);
        }
        writes
    }

    /// A complete piece's bytes are exactly as long as the piece.
    pub proof fn lemma_content_len(&self)
        requires
            self.wf(),
            self.spec_is_complete(),
        ensures
            self.content().len() == self.len,
    {
        lemma_count_filled_full(self.blocks_view());
        lemma_content_take_len(self.blocks_view(), self.len, self.blocks_view().len() as int);
        assert(self.blocks_view().take(self.blocks_view().len() as int) =~= self.blocks_view());
    }
}

/// The bytes of the first `k` blocks of a complete piece reach from the
/// piece's start to byte `k * BLOCK_LEN`, clipped at the piece's length.
pub proof fn lemma_content_take_len(s: Seq<Option<Seq<u8>>>, piece_len: u32, k: int)
    requires
        piece_len >= 1,
        s.len() == spec_block_count(piece_len),
        forall|i: int|
            0 <= i < s.len() ==> ((#[trigger] s[i]) matches Some(b) ==> b.len() == spec_block_len(
                piece_len,
                i,
            )),
        forall|i: int| 0 <= i < s.len() ==> s[i] is Some,
        0 <= k <= s.len(),
    ensures
        content_of(s.take(k)).len() == if k * (BLOCK_LEN as int) <= piece_len {
            k * (BLOCK_LEN as int)
        } else {
            piece_len as int
        },
    decreases k,
{
    if k == 0 {
        lemma_content_of_empty();
        assert(s.take(0) =~= Seq::<Option<Seq<u8>>>::empty());
    } else {
        lemma_content_take_len(s, piece_len, k - 1);
        assert(s.take(k) =~= s.take(k - 1).push(s[k - 1]));
        lemma_content_of_push(s.take(k - 1), s[k - 1]);
        let bl = BLOCK_LEN as int;
        assert((k - 1) * bl == k * bl - bl) by (nonlinear_arith);
        assert(k * bl <= piece_len ==> (k - 1) * bl <= piece_len);
        assert(k < s.len() ==> k * bl < piece_len + bl) by {
            if k < s.len() {
                crate::blockinfo::lemma_block_start_in_piece(piece_len, k);
            }
        }
        assert(k == s.len() ==> (k - 1) * bl < piece_len) by {
            crate::blockinfo::lemma_block_start_in_piece(piece_len, k - 1);
        }
    }
}

/// Splits a whole piece's bytes into its blocks: chunks of the canonical
/// block length in offset order, the last one holding whatever remains.
pub fn split_into_blocks(data: &Vec<u8>) -> (r: Vec<Vec<u8>>)
    requires
        1 <= data@.len() <= u32::MAX,
    ensures
        r@.len() == spec_block_count(data@.len() as u32),
        forall|i: int|
            0 <= i < r@.len() ==> (#[trigger] r@[i])@ == data@.subrange(
                i * (BLOCK_LEN as int),
                i * (BLOCK_LEN as int) + spec_block_len(data@.len() as u32, i),
            ),
{
    let len_u32 = data.len() as u32;
    let count = block_count(len_u32);
    let mut r: Vec<Vec<u8>> = Vec::new();
    let mut i: usize = 0;
    while i < count
        invariant
            data@.len() == len_u32,
            1 <= len_u32 <= u32::MAX,
            count == spec_block_count(len_u32),
            i <= count,
            r@.len() == i,
            forall|j: int|
                0 <= j < i ==> (#[trigger] r@[j])@ == data@.subrange(
                    j * (BLOCK_LEN as int),
                    j * (BLOCK_LEN as int) + spec_block_len(len_u32, j),
                ),
        decreases count - i,
    {
        proof {
            crate::blockinfo::lemma_block_start_in_piece(len_u32, i as int);
        }
        let bl = crate::blockinfo::block_len(len_u32, i);
        let start = i * (BLOCK_LEN as usize);
        let chunk = crate::byteseq::copy_range(data, start, bl as usize);
        r.push(chunk);
        i += 1;
    }
    r
}

/// Hash reproducibility at the block level: cutting a complete piece's
/// content at the canonical block boundaries recovers exactly the blocks
/// that were enqueued, so the blocks read back after a write are
/// byte-identical to the blocks that were written, and the digest that
/// `match_hash` computed over them in offset order is the digest of that
/// same content.
pub proof fn lemma_piece_blocks_recoverable(p: &Piece)
    requires
        p.wf(),
        p.spec_is_complete(),
    ensures
        p.content().len() == p.len,
        forall|i: int|
            0 <= i < p.blocks_view().len() ==> p.content().subrange(
                i * (BLOCK_LEN as int),
                i * (BLOCK_LEN as int) + spec_block_len(p.len, i),
            ) == slot_bytes(#[trigger] p.blocks_view()[i]),
{
    p.lemma_content_len();
    lemma_count_filled_full(p.blocks_view());
    let s = p.blocks_view();
    assert forall|i: int|
        0 <= i < s.len() implies p.content().subrange(
        i * (BLOCK_LEN as int),
        i * (BLOCK_LEN as int) + spec_block_len(p.len, i),
    ) == slot_bytes(#[trigger] s[i]) by {
        let bl = BLOCK_LEN as int;
        assert(s =~= s.take(i) + (s.skip(i)));
        lemma_content_of_concat(s.take(i), s.skip(i));
        assert(s.skip(i) =~= seq![s[i]] + s.skip(i + 1));
        lemma_content_of_concat(seq![s[i]], s.skip(i + 1));
        lemma_content_of_empty();
        assert(seq![s[i]] =~= Seq::<Option<Seq<u8>>>::empty().push(s[i]));
        lemma_content_of_push(Seq::<Option<Seq<u8>>>::empty(), s[i]);
        lemma_content_take_len(s, p.len, i);
        crate::blockinfo::lemma_block_start_in_piece(p.len, i);
        assert(content_of(s.take(i)).len() == i * bl);
        assert(p.content() == content_of(s.take(i)) + (slot_bytes(s[i]) + content_of(
            s.skip(i + 1),
        )));
        assert(p.content().subrange(i * bl, i * bl + spec_block_len(p.len, i)) =~= slot_bytes(
            s[i],
        ));
    }
}

/// A list of empty slots counts no filled one.
pub proof fn lemma_count_all_none(s: Seq<Option<Seq<u8>>>)
    requires
        forall|i: int| 0 <= i < s.len() ==> s[i] is None,
    ensures
        count_filled(s) == 0,
    decreases s.len(),
{
    if s.len() > 0 {
        lemma_count_all_none(s.drop_last());
    }
}

} // verus!
