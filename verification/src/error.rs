//! The error surface of the engine, split by recovery policy: allocation
//! and write errors keep the disk worker alive, read errors fail only the
//! requesting peer session, peer errors are fatal to that session alone,
//! and engine errors end the engine task.

use crate::define::TorrentId;
use vstd::prelude::*;

verus! {

/// The address of a peer, as the tracker reports it.
#[derive(Debug, Clone, Copy, PartialEq, Eq, Structural)]
pub enum PeerAddr {
    /// The IPv4 address as the big-endian value of its four bytes, and
    /// the port.
    V4 { addr: u32, port: u16 },
    /// The IPv6 address as the big-endian value of its sixteen bytes,
    /// and the port.
    V6 { addr: u128, port: u16 },
}

/// Error returned on a failed torrent allocation. Non-fatal: the disk
/// worker keeps running and reports it upward.
#[derive(Debug, Clone, Copy, PartialEq, Eq, Structural)]
pub enum NewTorrentError {
    /// The torrent entry already exists in the disk worker's state.
    AlreadyExists,
    /// An I/O error occurred while allocating the torrent's files.
    Io,
}

/// Error returned on a failed block write. Non-fatal: the piece is
/// reported failed and requeued, the disk worker keeps running.
#[derive(Debug, Clone, Copy, PartialEq, Eq, Structural)]
pub enum WriteError {
    /// An I/O error occurred.
    Io,
}

/// Error returned on a failed block read. Fails the requesting peer
/// session only.
#[derive(Debug, Clone, Copy, PartialEq, Eq, Structural)]
pub enum ReadError {
    /// The block's offset within its piece is invalid.
    InvalidBlockOffset,
    /// The block is valid within the torrent but its data has not been
    /// downloaded yet or has been deleted.
    MissingData,
    /// An I/O error occurred.
    Io,
}

/// Error that fails one peer session and leaves the torrent running.
#[derive(Debug, Clone, Copy, PartialEq, Eq, Structural)]
pub enum PeerError {
    /// The bitfield message was not the first message after the
    /// handshake. The protocol accepts it in no other position, so the
    /// connection is severed.
    BitfieldNotAfterHandshake,
    /// The channel some component was listening or sending on died.
    Channel,
    /// The peer requested a block while it was choked; the connection is
    /// severed.
    RequestWhileChoked,
    /// Neither side of the connection became interested within the
    /// configured threshold.
    InactivityTimeout,
    /// The block information the peer sent is invalid.
    InvalidBlockInfo,
    /// The block's piece index is invalid.
    InvalidPieceIndex,
    /// The peer's torrent info hash did not match ours.
    InvalidInfoHash,
    /// An I/O error occurred.
    Io,
}

/// Error that fails one torrent task.
#[derive(Debug, Clone, Copy, PartialEq, Eq, Structural)]
pub enum TorrentError {
    /// The channel some component was listening or sending on died.
    Channel,
    /// An I/O error occurred.
    Io,
}

/// Error raised while parsing or validating a torrent's metainfo.
#[derive(Debug, Clone, Copy, PartialEq, Eq, Structural)]
pub enum MetainfoError {
    /// The bencoded input could not be decoded.
    BencodeDe,
    /// The info dictionary could not be re-encoded for hashing.
    BencodeSer,
    /// A structural rule of the metainfo was violated.
    InvalidMetainfo,
    /// The pieces field is not a whole number of 20-byte digests.
    InvalidPieces,
    /// A tracker URL could not be parsed.
    InvalidTrackerUrl,
}

/// Error raised while announcing to a tracker.
#[derive(Debug, Clone, Copy, PartialEq, Eq, Structural)]
pub enum TrackerError {
    /// The tracker's response could not be decoded.
    BencodeDe,
    /// The announce request could not be encoded.
    BencodeSer,
    /// The HTTP exchange failed.
    Http,
}

/// The engine's top-level error: whatever reaches the user ends the
/// torrent or the engine it names.
#[derive(Debug, Clone, Copy, PartialEq, Eq, Structural)]
pub enum Error {
    /// The channel some component was listening or sending on died.
    Channel,
    /// The torrent download location is not valid.
    InvalidDownloadPath,
    /// A command named a torrent that does not exist.
    InvalidTorrentId,
    /// An I/O error occurred.
    Io,
    /// An error specific to one torrent.
    Torrent { id: TorrentId, error: TorrentError },
    /// An error while a torrent announced to a tracker.
    Tracker { id: TorrentId, error: TrackerError },
    /// An error in a torrent's session with one peer.
    Peer { id: TorrentId, addr: PeerAddr, error: PeerError },
}

} // verus!
