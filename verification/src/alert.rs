//! The alerts the engine posts to the library's user.

use crate::define::TorrentId;
use crate::error::Error;
use crate::torrent::TorrentStats;
use vstd::prelude::*;

verus! {

/// An event the engine reports upward to the user.
#[derive(Debug, Clone, Copy, PartialEq, Eq, Structural)]
pub enum Alert {
    /// The torrent finished downloading.
    TorrentComplete(TorrentId),
    /// A running torrent's periodic statistics update.
    TorrentStats { id: TorrentId, stats: TorrentStats },
    /// An error from somewhere inside the engine.
    Error(Error),
}

} // verus!
