//! Configuration of the engine and its torrents.

use crate::define::PeerId;
use vstd::prelude::*;

verus! {

/// The global configuration for the torrent engine and all its parts.
#[derive(Debug, Clone)]
pub struct Conf {
    pub engine: EngineConf,
    pub torrent: TorrentConf,
}

impl Conf {
    /// Returns the configuration with reasonable defaults and the given
    /// download directory, which cannot sensibly be guessed for the
    /// user. The client id is the default client id.
    pub fn new(download_dir: String) -> (r: Conf)
        ensures
            r.engine.download_dir == download_dir,
            r.engine.client_id@ == default_client_id(),
            r.torrent == TorrentConf::default_conf(),
    {
        Conf {
            engine: EngineConf { client_id: client_id_bytes(), download_dir },
            torrent: TorrentConf::new_default(),
        }
    }
}

/// The default client id announced to trackers and peers.
pub open spec fn default_client_id() -> Seq<u8> {
    seq![
        99u8,
        98u8,
        116u8,
        45u8,
        48u8,
        48u8,
        48u8,
        48u8,
        48u8,
        48u8,
        48u8,
        48u8,
        48u8,
        48u8,
        48u8,
        48u8,
        48u8,
        48u8,
        48u8,
        48u8,
    ]
}

/// The default client id as bytes: `"cbt-"` followed by sixteen zero
/// digits.
pub fn client_id_bytes() -> (r: PeerId)
    ensures
        r@ == default_client_id(),
{
    let mut r: PeerId = [48u8; 20];
    r[0] = 99;
    r[1] = 98;
    r[2] = 116;
    r[3] = 45;
    proof {
        assert(r@ =~= default_client_id());
    }
    r
}

/// Configuration of the engine itself.
#[derive(Debug, Clone)]
pub struct EngineConf {
    /// The id of this client, announced to trackers and other peers.
    pub client_id: PeerId,
    /// The directory in which a torrent's files are placed upon download
    /// and from which they are seeded.
    pub download_dir: String,
}

/// Configuration of one torrent. The engine applies a default instance
/// to every torrent, but an individual torrent may override it.
#[derive(Debug, Clone, Copy, PartialEq, Eq, Structural)]
pub struct TorrentConf {
    /// The minimum number of peers the torrent wants at all times.
    pub min_requested_peer_count: usize,
    /// The most peers the torrent should be connected to.
    pub max_connected_peer_count: usize,
    /// How often to announce to the tracker, in seconds, when the
    /// tracker names no interval of its own.
    pub announce_interval_secs: u64,
    /// After this many failed announces the torrent stops announcing to
    /// a tracker.
    pub tracker_error_threshold: usize,
    /// Which optional alerts to send, besides the periodic stats update.
    pub alerts: TorrentAlertConf,
}

impl TorrentConf {
    /// The default per-torrent configuration.
    pub open spec fn default_conf() -> TorrentConf {
        TorrentConf {
            min_requested_peer_count: 10,
            max_connected_peer_count: 50,
            announce_interval_secs: 3600,
            tracker_error_threshold: 15,
            alerts: TorrentAlertConf { completed_pieces: false, peers: false },
        }
    }

    /// Creates the default per-torrent configuration: at least ten peers
    /// requested, at most fifty connected, an hourly announce, and all
    /// optional alerts off.
    pub fn new_default() -> (r: TorrentConf)
        ensures
            r == TorrentConf::default_conf(),
    {
        TorrentConf {
            min_requested_peer_count: 10,
            max_connected_peer_count: 50,
            announce_interval_secs: 3600,
            tracker_error_threshold: 15,
            alerts: TorrentAlertConf { completed_pieces: false, peers: false },
        }
    }
}

impl Default for TorrentConf {
    /// The default per-torrent configuration.
    fn default() -> (r: TorrentConf)
        ensures
            r == TorrentConf::default_conf(),
    {
        TorrentConf::new_default()
    }
}

/// Which optional alerts a torrent sends. All off by default, as some
/// carry overhead that should not be paid unused.
#[derive(Debug, Clone, Copy, PartialEq, Eq, Structural)]
pub struct TorrentAlertConf {
    /// Send the pieces completed in each stats round.
    pub completed_pieces: bool,
    /// Send aggregate statistics about the torrent's peers.
    pub peers: bool,
}

impl Default for TorrentAlertConf {
    /// All optional alerts off.
    fn default() -> (r: TorrentAlertConf)
        ensures
            r.completed_pieces == false,
            r.peers == false,
    {
        TorrentAlertConf { completed_pieces: false, peers: false }
    }
}

} // verus!
