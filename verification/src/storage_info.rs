//! The on-disk shape of a torrent: an ordered list of files viewed as one
//! contiguous byte array, cut into uniform pieces. Pieces do not respect
//! file boundaries, so the disk path constantly clips piece byte ranges
//! against file byte ranges.

use vstd::prelude::*;

verus! {

/// A contiguous byte range within one file: an intra-file offset and a
/// length.
#[derive(Debug, Clone, Copy, PartialEq, Eq, Structural)]
pub struct FileSlice {
    /// The byte offset within the file.
    pub offset: u64,
    /// The number of bytes of the slice.
    pub len: u64,
}

/// Information about one file of the torrent.
#[derive(Debug, Clone)]
pub struct FileInfo {
    /// The file's path, relative to the download directory.
    pub path: String,
    /// The file's length in bytes.
    pub len: u64,
    /// The byte offset of the file within the torrent, when all files in
    /// the torrent are viewed as a single contiguous byte array. Always
    /// zero for a single-file torrent.
    pub torrent_offset: u64,
}

impl FileInfo {
    /// The first absolute byte offset past this file.
    pub open spec fn spec_end(&self) -> int {
        self.torrent_offset + self.len
    }

    /// Whether the file's byte range intersects `[start, end)`.
    pub open spec fn intersects(&self, start: int, end: int) -> bool {
        self.torrent_offset < end && start < self.spec_end()
    }

    /// Returns the slice of this file that a write or read starting at
    /// the absolute offset `torrent_offset` with `remaining` bytes left
    /// covers: the byte range `[torrent_offset, torrent_offset +
    /// remaining)` clipped against the file's own byte range, expressed
    /// as an intra-file offset and a length.
    pub fn get_slice(&self, torrent_offset: u64, remaining: u64) -> (r: FileSlice)
        requires
            self.torrent_offset <= torrent_offset < self.spec_end(),
            self.spec_end() <= u64::MAX,
        ensures
            r.offset == torrent_offset - self.torrent_offset,
            r.len == min_u(remaining as int, self.spec_end() - torrent_offset),
            r.offset + r.len <= self.len,
            remaining >= 1 ==> r.len >= 1,
    {
        let offset = torrent_offset - self.torrent_offset;
        let left_in_file = self.len - offset;
        let len = if remaining <= left_in_file {
            remaining
        } else {
            left_in_file
        };
        FileSlice { offset, len }
    }
}

/// The smaller of two mathematical integers.
pub open spec fn min_u(a: int, b: int) -> int {
    if a <= b {
        a
    } else {
        b
    }
}

/// Whether a file list forms one contiguous byte array: nonempty, every
/// file nonempty, the first file at offset zero, and each further file
/// starting where the previous one ends.
pub open spec fn files_contiguous(files: Seq<FileInfo>) -> bool {
    &&& files.len() >= 1
    &&& files[0].torrent_offset == 0
    &&& forall|i: int| 0 <= i < files.len() ==> #[trigger] files[i].len >= 1
    &&& forall|i: int|
        1 <= i < files.len() ==> #[trigger] files[i].torrent_offset == files[i - 1].spec_end()
}

/// The total byte length of a contiguous file list.
pub open spec fn files_total_len(files: Seq<FileInfo>) -> int {
    files.last().spec_end()
}

/// In a contiguous file list, every file up to `i` ends at or before
/// file `i` ends, and file `i` ends at or before the total length.
pub proof fn lemma_files_monotonic(files: Seq<FileInfo>, i: int, j: int)
    requires
        files_contiguous(files),
        0 <= i <= j < files.len(),
    ensures
        files[i].spec_end() <= files[j].spec_end(),
        files[i].torrent_offset <= files[j].torrent_offset,
        files[j].spec_end() <= files_total_len(files),
    decreases files.len() - i, files.len() - j,
{
    if j < files.len() - 1 {
        lemma_files_monotonic(files, j, j + 1);
    }
    if i < j {
        lemma_files_monotonic(files, i + 1, j);
    }
}

/// Information about a torrent's storage: how many pieces it has, how
/// long they are, and which files its bytes live in.
#[derive(Debug, Clone)]
pub struct StorageInfo {
    /// The number of pieces in the torrent.
    pub piece_count: usize,
    /// The uniform length of a piece, except possibly the last.
    pub piece_len: u32,
    /// The length of the last piece, at most `piece_len`.
    pub last_piece_len: u32,
    /// The sum of all file lengths.
    pub download_len: u64,
    /// The directory under which the files are placed.
    pub download_dir: String,
    /// The files of the torrent, in declaration order.
    pub files: Vec<FileInfo>,
}

impl StorageInfo {
    /// The storage invariant: the files form one contiguous byte array
    /// of `download_len` bytes, and the piece counts and lengths cut
    /// that array exactly.
    pub open spec fn wf(&self) -> bool {
        &&& self.piece_len >= 1
        &&& files_contiguous(self.files@)
        &&& self.download_len == files_total_len(self.files@)
        &&& self.download_len < 0x1000_0000_0000_0000
        &&& self.piece_count == (self.download_len as int + self.piece_len - 1) / (
        self.piece_len as int)
        &&& self.piece_count >= 1
        &&& self.last_piece_len == self.download_len - (self.piece_count - 1) * (
        self.piece_len as int)
        &&& 1 <= self.last_piece_len <= self.piece_len
    }

    /// The length of the piece at `index`: uniform for all pieces but
    /// the last.
    pub open spec fn spec_piece_len_at(&self, index: int) -> int {
        if index == self.piece_count - 1 {
            self.last_piece_len as int
        } else {
            self.piece_len as int
        }
    }

    /// The absolute byte offset at which the piece at `index` starts.
    pub open spec fn spec_piece_offset(&self, index: int) -> int {
        index * (self.piece_len as int)
    }

    /// Builds the storage description from the piece length and the
    /// validated file list: counts the pieces, rounding up, and measures
    /// the last, possibly shorter piece.
    pub fn new(piece_len: u32, files: Vec<FileInfo>, download_dir: String) -> (r: StorageInfo)
        requires
            piece_len >= 1,
            files_contiguous(files@),
            files_total_len(files@) < 0x1000_0000_0000_0000,
            (files_total_len(files@) + piece_len - 1) / (piece_len as int) <= usize::MAX,
        ensures
            r.wf(),
            r.piece_len == piece_len,
            r.files == files,
            r.download_dir == download_dir,
            r.download_len == files_total_len(files@),
    {
        let last = files.len() - 1;
        proof {
            lemma_files_monotonic(files@, last as int, last as int);
        }
        let download_len = files[last].torrent_offset + files[last].len;
        let piece_count_u64 = (download_len + (piece_len as u64 - 1)) / (piece_len as u64);
        let piece_count = piece_count_u64 as usize;
        proof {
            assert(piece_count >= 1 && (piece_count - 1) * (piece_len as int) < download_len
                && download_len - (piece_count - 1) * (piece_len as int) <= piece_len)
                by (nonlinear_arith)
                requires
                    piece_count == (download_len as int + piece_len - 1) / (piece_len as int),
                    piece_len >= 1,
                    download_len >= 1,
            ;
        }
        let last_piece_len = (download_len - (piece_count as u64 - 1) * (piece_len as u64)) as u32;
        StorageInfo {
            piece_count,
            piece_len,
            last_piece_len,
            download_len,
            download_dir,
            files,
        }
    }

    /// The length of the piece at `index`.
    pub fn piece_len_at(&self, index: usize) -> (r: u32)
        requires
            self.wf(),
            index < self.piece_count,
        ensures
            r == self.spec_piece_len_at(index as int),
            1 <= r <= self.piece_len,
    {
        if index == self.piece_count - 1 {
            self.last_piece_len
        } else {
            self.piece_len
        }
    }

    /// The absolute byte offset at which the piece at `index` starts.
    pub fn piece_offset(&self, index: usize) -> (r: u64)
        requires
            self.wf(),
            index < self.piece_count,
        ensures
            r == self.spec_piece_offset(index as int),
            r + self.spec_piece_len_at(index as int) <= self.download_len,
    {
        proof {
            self.lemma_piece_in_range(index as int);
        }
        (index as u64) * (self.piece_len as u64)
    }

    /// Every piece's byte range lies within the download: the piece
    /// starts inside it and ends at or before its end.
    pub proof fn lemma_piece_in_range(&self, index: int)
        requires
            self.wf(),
            0 <= index < self.piece_count,
        ensures
            0 <= self.spec_piece_offset(index),
            self.spec_piece_offset(index) + self.spec_piece_len_at(index) <= self.download_len,
            self.spec_piece_offset(index) < self.download_len,
    {
        let pl = self.piece_len as int;
        let pc = self.piece_count as int;
        let dl = self.download_len as int;
        assert(index * pl >= 0 && (index + 1) * pl <= pc * pl && index * pl <= (pc - 1) * pl)
            by (nonlinear_arith)
            requires
                0 <= index < pc,
                pl >= 1,
        ;
        assert((pc - 1) * pl + self.last_piece_len == dl);
        if index < pc - 1 {
            assert(index * pl + pl <= (pc - 1) * pl) by (nonlinear_arith)
                requires
                    index <= pc - 2,
                    pl >= 1,
            ;
        }
    }

    /// When `[lo, hi)` is exactly the set of files whose byte ranges
    /// intersect `[start, end)`, the range's endpoints land inside the
    /// boundary files: the range starts within the first file and ends
    /// within the last.
    pub proof fn lemma_range_facts(&self, start: int, end: int, lo: int, hi: int)
        requires
            self.wf(),
            0 <= start < end,
            end <= self.download_len,
            0 <= lo < hi <= self.files@.len(),
            forall|i: int|
                0 <= i < self.files@.len() ==> ((lo <= i < hi) <==> (
                #[trigger] self.files@[i]).intersects(start, end)),
        ensures
            self.files@[lo].torrent_offset <= start,
            start < self.files@[lo].spec_end(),
            self.files@[hi - 1].torrent_offset < end,
            end <= self.files@[hi - 1].spec_end(),
    {
        let fs = self.files@;
        assert(fs[lo].intersects(start, end));
        assert(fs[hi - 1].intersects(start, end));
        if lo > 0 {
            assert(!fs[lo - 1].intersects(start, end));
            lemma_files_monotonic(fs, lo - 1, hi - 1);
            assert(fs[lo - 1].torrent_offset <= fs[hi - 1].torrent_offset);
            assert(fs[lo - 1].spec_end() <= start);
            assert(fs[lo].torrent_offset == fs[lo - 1].spec_end());
        }
        if hi < fs.len() {
            assert(!fs[hi].intersects(start, end));
            lemma_files_monotonic(fs, lo, hi);
            assert(start < fs[lo].spec_end() <= fs[hi].spec_end());
            assert(fs[hi].torrent_offset >= end);
            assert(fs[hi].torrent_offset == fs[hi - 1].spec_end());
        } else {
            lemma_files_monotonic(fs, hi - 1, fs.len() - 1);
            assert(fs[hi - 1].spec_end() <= files_total_len(fs));
            lemma_files_monotonic(fs, fs.len() - 1, fs.len() - 1);
            assert(fs[hi - 1] == fs[fs.len() - 1]);
        }
    }

    /// Returns the contiguous range of file indices whose byte ranges
    /// intersect the absolute byte range `[start, end)`: every file
    /// inside the returned index range intersects it, and no file
    /// outside it does.
    #[verifier::rlimit(50)]
    pub fn byte_range_to_file_range(&self, start: u64, end: u64) -> (r: (usize, usize))
        requires
            self.wf(),
            start < end,
            end <= self.download_len,
        ensures
            r.0 < r.1 <= self.files@.len(),
            forall|i: int|
                0 <= i < self.files@.len() ==> ((r.0 <= i < r.1) <==> self.files@[i].intersects(
                    start as int,
                    end as int,
                )),
    {
        let nfiles = self.files.len();
        let ghost fs = self.files@;
        proof {
            assert forall|i: int|
                0 <= i < fs.len() implies #[trigger] fs[i].torrent_offset + fs[i].len
                <= self.download_len by {
                lemma_files_monotonic(fs, i, i);
            }
        }
        let mut lo: usize = 0;
        while lo < nfiles && self.files[lo].torrent_offset + self.files[lo].len <= start
            invariant
                self.wf(),
                fs == self.files@,
                nfiles == fs.len(),
                lo <= nfiles,
                forall|i: int|
                    0 <= i < fs.len() ==> #[trigger] fs[i].torrent_offset + fs[i].len
                        <= self.download_len,
                forall|i: int| 0 <= i < lo ==> #[trigger] fs[i].spec_end() <= start,
            decreases nfiles - lo,
        {
            proof {
                lemma_files_monotonic(fs, lo as int, lo as int);
            }
            lo = lo + 1;
        }
        proof {
            // the download holds a byte at `start`, so some file does
            lemma_files_monotonic(fs, fs.len() - 1, fs.len() - 1);
            if lo == nfiles {
                assert(fs[fs.len() - 1].spec_end() <= start);
                assert(false);
            }
        }
        let mut hi: usize = lo;
        while hi < nfiles && self.files[hi].torrent_offset < end
            invariant
                self.wf(),
                fs == self.files@,
                nfiles == fs.len(),
                lo <= hi <= nfiles,
                lo < nfiles,
                fs[lo as int].spec_end() > start,
                forall|i: int| 0 <= i < lo ==> #[trigger] fs[i].spec_end() <= start,
                forall|i: int| lo <= i < hi ==> #[trigger] fs[i].torrent_offset < end,
            decreases nfiles - hi,
        {
            proof {
                lemma_files_monotonic(fs, lo as int, hi as int);
            }
            hi = hi + 1;
        }
        proof {
            assert(fs[lo as int].torrent_offset <= start) by {
                if lo > 0 {
                    assert(fs[lo as int].torrent_offset == fs[lo as int - 1].spec_end());
                }
            }
            assert(lo < hi) by {
                assert(fs[lo as int].torrent_offset < end);
            }
            assert forall|i: int| 0 <= i < fs.len() implies ((lo <= i < hi) <==> fs[i].intersects(
                start as int,
                end as int,
            )) by {
                lemma_files_monotonic(fs, 0, i);
                if i < lo {
                    lemma_files_monotonic(fs, i, lo as int);
                } else {
                    lemma_files_monotonic(fs, lo as int, i);
                }
                if i >= hi {
                    assert(hi < fs.len() ==> fs[hi as int].torrent_offset >= end);
                    if hi < fs.len() {
                        lemma_files_monotonic(fs, hi as int, i);
                    }
                }
                if lo <= i < hi {
                    assert(fs[i].spec_end() >= fs[lo as int].spec_end());
                }
            }
        }
        (lo, hi)
    }
}

} // verus!
