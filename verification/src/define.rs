//! Process-wide identifiers and aliases: SHA-1 digests, peer ids, piece
//! and file indices, and torrent ids minted by an explicit allocator.

use vstd::prelude::*;

verus! {

/// A SHA-1 hash digest, 20 bytes long.
pub type Sha1Hash = [u8; 20];

/// The peer ID, an arbitrary 20-byte string.
pub type PeerId = [u8; 20];

/// The type of a piece's index within the torrent.
pub type PieceIndex = usize;

/// The type of a file's index within the torrent.
pub type FileIndex = usize;

/// The identifier of one torrent within the engine, unique for the
/// engine's lifetime and never reused.
#[derive(Debug, Copy, Clone, PartialEq, Eq, Structural, PartialOrd, Ord, Hash)]
pub struct TorrentId(pub u32);

impl TorrentId {
    /// Wraps a raw identifier value. Fresh, unique values come from a
    /// [`TorrentIdAllocator`].
    pub fn new(id: u32) -> (r: TorrentId)
        ensures
            r.0 == id,
    {
        TorrentId(id)
    }
}

/// Mints torrent ids: a counter owned by the engine supervisor, handing
/// out strictly increasing values so no id is ever reused.
#[derive(Debug)]
pub struct TorrentIdAllocator {
    /// The value the next minted id will carry.
    pub next: u32,
}

impl TorrentIdAllocator {
    /// Creates an allocator whose first minted id is zero.
    pub fn new() -> (r: TorrentIdAllocator)
        ensures
            r.next == 0,
    {
        TorrentIdAllocator { next: 0 }
    }

    /// Mints the next torrent id. The counter grows strictly, so two
    /// mints never return the same id.
    pub fn mint(&mut self) -> (r: TorrentId)
        requires
            old(self).next < u32::MAX,
        ensures
            r.0 == old(self).next,
            final(self).next == old(self).next + 1,
    {
        let id = TorrentId(self.next);
        self.next = self.next + 1;
        id
    }
}

} // verus!
