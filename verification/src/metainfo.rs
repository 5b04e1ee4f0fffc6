//! The validated metainfo of a torrent: the decoded fields of a torrent
//! file, held as plain values after the structural rules have been
//! checked — the pieces string is a whole number of 20-byte digests, the
//! download declares either a single length or a nonempty list of
//! nonzero-length files but not both, and the files line up as one
//! contiguous byte array.

use crate::define::Sha1Hash;
use crate::error::MetainfoError;
use crate::storage_info::{files_contiguous, files_total_len, FileInfo};
use vstd::prelude::*;

verus! {

/// One file entry as the torrent file declares it: its path below the
/// download directory and its length in bytes.
pub struct RawFileEntry {
    /// The file's relative path.
    pub path: String,
    /// The file's length in bytes.
    pub len: u64,
}

/// The scheme of a tracker URL, as URL parsing determined it.
#[derive(Debug, Clone, Copy, PartialEq, Eq, Structural)]
pub enum UrlScheme {
    Http,
    Https,
    Other,
}

/// The trackers kept from an announce list: those whose URL scheme the
/// engine can speak, in their original order.
pub open spec fn spec_kept_trackers(trackers: Seq<(String, UrlScheme)>) -> Seq<String>
    decreases trackers.len(),
{
    if trackers.len() == 0 {
        Seq::empty()
    } else {
        let rest = spec_kept_trackers(trackers.drop_last());
        if trackers.last().1 is Http || trackers.last().1 is Https {
            rest.push(trackers.last().0)
        } else {
            rest
        }
    }
}

/// The total length the declared download: the single file's length, or
/// the sum of the file entries' lengths.
pub open spec fn spec_files_total(files: Seq<RawFileEntry>) -> int
    decreases files.len(),
{
    if files.len() == 0 {
        0
    } else {
        spec_files_total(files.drop_last()) + files.last().len
    }
}

/// Every prefix of the file list sums to at most the whole list.
pub proof fn lemma_files_total_prefix(files: Seq<RawFileEntry>, i: int)
    requires
        0 <= i <= files.len(),
    ensures
        spec_files_total(files.take(i)) <= spec_files_total(files),
    decreases files.len() - i,
{
    if i == files.len() {
        assert(files.take(i) =~= files);
    } else {
        lemma_files_total_prefix(files, i + 1);
        assert(files.take(i + 1).drop_last() =~= files.take(i));
        assert(files.take(i + 1).last() == files[i]);
    }
}

/// Whether the declared fields obey the metainfo's structural rules.
pub open spec fn spec_valid_metainfo(
    pieces: Seq<u8>,
    piece_len: u32,
    len: Option<u64>,
    files: Option<Seq<RawFileEntry>>,
) -> bool {
    &&& pieces.len() % 20 == 0
    &&& piece_len >= 1
    &&& (len is Some <==> files is None)
    &&& (len matches Some(l) ==> 1 <= l < 0x1000_0000_0000_0000)
    &&& (files matches Some(fs) ==> {
        &&& fs.len() >= 1
        &&& forall|i: int| 0 <= i < fs.len() ==> (#[trigger] fs[i]).len >= 1
        &&& spec_files_total(fs) < 0x1000_0000_0000_0000
    })
    &&& {
        let total = match len {
            Some(l) => l as int,
            None => spec_files_total(files->Some_0),
        };
        &&& (total + piece_len - 1) / (piece_len as int) <= usize::MAX
        &&& pieces.len() == 20 * ((total + piece_len - 1) / (piece_len as int))
    }
}


/// Collects the declared file entries into the contiguous file list:
/// each entry keeps its path and length, and the offsets are the prefix
/// sums of the lengths. An empty list, a zero-length file, or a total
/// too large for the disk path to address is invalid metainfo.
#[verifier::rlimit(100)]
#[verifier::spinoff_prover]
fn collect_files(fs: Vec<RawFileEntry>) -> (r: Result<Vec<FileInfo>, MetainfoError>)
    ensures
        (r is Ok) <==> (fs@.len() >= 1 && (forall|i: int|
            0 <= i < fs@.len() ==> (#[trigger] fs@[i]).len >= 1) && spec_files_total(fs@)
            < 0x1000_0000_0000_0000),
        r matches Err(e) ==> e == MetainfoError::InvalidMetainfo,
        r matches Ok(out) ==> {
            &&& files_contiguous(out@)
            &&& files_total_len(out@) == spec_files_total(fs@)
            &&& out@.len() == fs@.len()
            &&& forall|i: int|
                0 <= i < fs@.len() ==> (#[trigger] out@[i]).len == fs@[i].len && out@[i].path
                    == fs@[i].path
        },
{
    if fs.len() == 0 {
        return Err(MetainfoError::InvalidMetainfo);
    }
    let mut out_files: Vec<FileInfo> = Vec::new();
    let mut torrent_offset: u64 = 0;
    let count = fs.len();
    let mut i: usize = 0;
    while i < count
        invariant
            count == fs@.len(),
            i <= count,
            torrent_offset == spec_files_total(fs@.take(i as int)),
            torrent_offset < 0x1000_0000_0000_0000,
            out_files@.len() == i,
            forall|j: int|
                0 <= j < i ==> (#[trigger] out_files@[j]).len == fs@[j].len && out_files@[j].path
                    == fs@[j].path,
            i >= 1 ==> out_files@[0].torrent_offset == 0,
            forall|j: int| 0 <= j < i ==> (#[trigger] out_files@[j]).len >= 1,
            forall|j: int|
                1 <= j < i ==> (#[trigger] out_files@[j]).torrent_offset == out_files@[
                    j - 1].spec_end(),
            i >= 1 ==> torrent_offset == out_files@[i - 1].spec_end(),
        decreases count - i,
    {
        proof {
            assert(fs@.take(i + 1).drop_last() =~= fs@.take(i as int));
            assert(fs@.take(i + 1).last() == fs@[i as int]);
        }
        let entry_len = fs[i].len;
        if entry_len == 0 {
            return Err(MetainfoError::InvalidMetainfo);
        }
        if entry_len >= 0x1000_0000_0000_0000 || torrent_offset >= 0x1000_0000_0000_0000
            - entry_len {
            proof {
                lemma_files_total_prefix(fs@, i + 1);
            }
            return Err(MetainfoError::InvalidMetainfo);
        }
        let path = fs[i].path.clone();
        out_files.push(FileInfo { path, len: entry_len, torrent_offset });
        torrent_offset = torrent_offset + entry_len;
        i += 1;
    }
    proof {
        assert(fs@.take(count as int) =~= fs@);
        assert forall|k: int| 0 <= k < fs@.len() implies (#[trigger] fs@[k]).len >= 1 by {
            assert(out_files@[k].len == fs@[k].len);
        }
    }
    Ok(out_files)
}

/// Keeps the trackers whose URL scheme the engine speaks, in order.
fn keep_trackers(trackers: Vec<(String, UrlScheme)>) -> (r: Vec<String>)
    ensures
        r@ == spec_kept_trackers(trackers@),
{
    let mut kept: Vec<String> = Vec::new();
    let n = trackers.len();
    let mut i: usize = 0;
    while i < n
        invariant
            n == trackers@.len(),
            i <= n,
            kept@ == spec_kept_trackers(trackers@.take(i as int)),
        decreases n - i,
    {
        proof {
            assert(trackers@.take(i + 1).drop_last() =~= trackers@.take(i as int));
            assert(trackers@.take(i + 1).last() == trackers@[i as int]);
        }
        match trackers[i].1 {
            UrlScheme::Http => kept.push(trackers[i].0.clone()),
            UrlScheme::Https => kept.push(trackers[i].0.clone()),
            UrlScheme::Other => {},
        }
        i += 1;
    }
    proof {
        assert(trackers@.take(n as int) =~= trackers@);
    }
    kept
}

/// The validated metainfo of one torrent.
pub struct Metainfo {
    /// The torrent's name; a single-file download is saved under it.
    pub name: String,
    /// The 20-byte SHA-1 digest of the info dictionary, identifying the
    /// torrent toward trackers and peers.
    pub info_hash: Sha1Hash,
    /// The concatenation of each piece's 20-byte SHA-1 digest.
    pub pieces: Vec<u8>,
    /// The number of bytes per piece, except possibly the last.
    pub piece_len: u32,
    /// The download's files in declaration order, offsets prefix-summed.
    pub files: Vec<FileInfo>,
    /// The HTTP and HTTPS trackers the torrent can announce to.
    pub trackers: Vec<String>,
}

impl Metainfo {
    /// The metainfo invariant: the files form one contiguous byte array
    /// and the pieces string carries one digest per piece of it.
    pub open spec fn wf(&self) -> bool {
        &&& self.piece_len >= 1
        &&& files_contiguous(self.files@)
        &&& files_total_len(self.files@) < 0x1000_0000_0000_0000
        &&& self.pieces@.len() == 20 * ((files_total_len(self.files@) + self.piece_len - 1) / (
        self.piece_len as int))
        &&& self.pieces@.len() % 20 == 0
    }

    /// Validates the fields decoded from a torrent file and builds the
    /// metainfo.
    ///
    /// The rules: the pieces string is a whole number of 20-byte
    /// digests and one digest per piece; the piece length is positive;
    /// the download declares either a single length or a list of files,
    /// not both and not neither; the list is nonempty and every file's
    /// length nonzero. A violation of the digest-per-piece rule is an
    /// invalid pieces string; any other violation is invalid metainfo.
    pub fn build(
        name: String,
        info_hash: Sha1Hash,
        pieces: Vec<u8>,
        piece_len: u32,
        len: Option<u64>,
        files: Option<Vec<RawFileEntry>>,
        trackers: Vec<(String, UrlScheme)>,
    ) -> (r: Result<Metainfo, MetainfoError>)
        ensures
            (r is Ok) <==> spec_valid_metainfo(
                pieces@,
                piece_len,
                len,
                match files {
                    Some(fs) => Some(fs@),
                    None => None,
                },
            ),
            r matches Ok(m) ==> {
                &&& m.wf()
                &&& m.name == name
                &&& m.info_hash == info_hash
                &&& m.pieces == pieces
                &&& m.piece_len == piece_len
                &&& m.trackers@ == spec_kept_trackers(trackers@)
                &&& (len matches Some(l) ==> m.files@.len() == 1 && m.files@[0].len == l
                    && m.files@[0].path == name)
                &&& (files matches Some(fs) ==> {
                    &&& m.files@.len() == fs@.len()
                    &&& forall|i: int|
                        0 <= i < fs@.len() ==> (#[trigger] m.files@[i]).len == fs@[i].len
                            && m.files@[i].path == fs@[i].path
                })
            },
    {
        // the pieces string is a concatenation of 20-byte digests
        if pieces.len() % 20 != 0 {
            return Err(MetainfoError::InvalidMetainfo);
        }
        if piece_len == 0 {
            return Err(MetainfoError::InvalidMetainfo);
        }

        // the download declares a single length or a file list, never both
        let out_files: Vec<FileInfo> = match (len, files) {
            (Some(_), Some(_)) => {
                return Err(MetainfoError::InvalidMetainfo);
            },
            (None, None) => {
                return Err(MetainfoError::InvalidMetainfo);
            },
            (Some(l), None) => {
                if l == 0 || l >= 0x1000_0000_0000_0000 {
                    return Err(MetainfoError::InvalidMetainfo);
                }
                let mut single: Vec<FileInfo> = Vec::new();
                single.push(FileInfo { path: name.clone(), len: l, torrent_offset: 0 });
                single
            },
            (None, Some(fs)) => {
                match collect_files(fs) {
                    Ok(out) => out,
                    Err(e) => {
                        return Err(e);
                    },
                }
            },
        };

        // one 20-byte digest per piece
        let last = out_files.len() - 1;
        proof {
            crate::storage_info::lemma_files_monotonic(out_files@, last as int, last as int);
        }
        let total = out_files[last].torrent_offset + out_files[last].len;
        let piece_count = (total + (piece_len as u64 - 1)) / (piece_len as u64);
        if piece_count > u64::MAX / 20 {
            return Err(MetainfoError::InvalidPieces);
        }
        if pieces.len() as u64 != 20 * piece_count {
            return Err(MetainfoError::InvalidPieces);
        }

        // keep the trackers whose scheme the engine speaks
        let kept = keep_trackers(trackers);

        Ok(Metainfo { name, info_hash, pieces, piece_len, files: out_files, trackers: kept })
    }

    /// Whether the download consists of more than one file.
    pub fn is_archive(&self) -> (r: bool)
        ensures
            r == (self.files@.len() > 1),
    {
        self.files.len() > 1
    }
}

} // verus!
