//! The per-torrent coordinator: it owns the torrent's piece bookkeeping
//! and routes completions, read errors and peer reports between the disk
//! worker, the peer sessions and the user. It performs no disk I/O
//! itself: every command maps to a bookkeeping update and a list of
//! actions for the surrounding tasks to carry out.

use crate::blockinfo::BlockInfo;
use crate::define::{PeerId, PieceIndex};
use crate::error::{PeerAddr, ReadError, WriteError};
use vstd::prelude::*;

verus! {

/// What a peer session last reported about itself: its piece count and
/// the payload bytes it moved since the previous tick.
#[derive(Debug, Clone, Copy, PartialEq, Eq, Structural)]
pub struct SessionTick {
    /// The number of pieces the peer has available.
    pub piece_count: usize,
    /// Payload bytes downloaded from the peer since the last tick.
    pub downloaded_payload: u64,
    /// Payload bytes uploaded to the peer since the last tick.
    pub uploaded_payload: u64,
}

/// The outcome of completing one piece: its index and whether its digest
/// matched the expected one. An invalid piece is not written to disk.
#[derive(Debug, Clone, Copy, PartialEq, Eq, Structural)]
pub struct PieceCompletion {
    /// The index of the piece.
    pub index: PieceIndex,
    /// Whether the piece was valid.
    pub is_valid: bool,
}

/// The commands a torrent coordinator consumes.
pub enum Command {
    /// Blocks of a piece were written to disk, or writing them failed.
    PieceCompletion(Result<PieceCompletion, WriteError>),
    /// A block read failed.
    ReadError { block_info: BlockInfo, error: ReadError },
    /// Sent once, after a peer connected.
    PeerConnected { addr: PeerAddr, id: PeerId },
    /// Sent periodically by each peer session on a state change.
    PeerState { addr: PeerAddr, info: SessionTick },
    /// Shut the torrent down gracefully.
    Shutdown,
}

/// What the coordinator asks its surroundings to do in response to a
/// command.
#[derive(Debug, Clone, Copy, PartialEq, Eq, Structural)]
pub enum Action {
    /// Announce to every peer session that the piece is now owned.
    BroadcastHave { index: PieceIndex },
    /// The whole torrent is downloaded: tell the user.
    AnnounceComplete,
    /// Put the piece back into the download queue.
    RequeuePiece { index: PieceIndex },
    /// Surface a disk write failure to the user.
    AlertWriteError,
    /// Tell the session that requested the block that its read failed.
    NotifyReadError { block_info: BlockInfo, error: ReadError },
    /// Tell every peer session to shut down, await them, and exit.
    ShutdownSessions,
}

/// Aggregate per-torrent statistics, reported periodically upward.
#[derive(Debug, Clone, Copy, PartialEq, Eq, Structural)]
pub struct TorrentStats {
    /// Total payload bytes downloaded.
    pub downloaded: u64,
    /// Total payload bytes uploaded.
    pub uploaded: u64,
    /// The number of peers that have connected.
    pub peer_count: usize,
}

/// The statistics after one more peer connected: the peer count grows
/// until it saturates.
pub open spec fn spec_stats_after_connect(stats: TorrentStats) -> TorrentStats {
    TorrentStats {
        peer_count: if stats.peer_count < usize::MAX {
            (stats.peer_count + 1) as usize
        } else {
            stats.peer_count
        },
        ..stats
    }
}

/// The statistics after one peer tick: the transferred payload counters
/// grow until they saturate.
pub open spec fn spec_stats_after_tick(stats: TorrentStats, info: SessionTick) -> TorrentStats {
    TorrentStats {
        downloaded: if stats.downloaded + info.downloaded_payload <= u64::MAX {
            (stats.downloaded + info.downloaded_payload) as u64
        } else {
            stats.downloaded
        },
        uploaded: if stats.uploaded + info.uploaded_payload <= u64::MAX {
            (stats.uploaded + info.uploaded_payload) as u64
        } else {
            stats.uploaded
        },
        ..stats
    }
}

/// The number of owned pieces in the bookkeeping.
pub open spec fn count_owned(s: Seq<bool>) -> int
    decreases s.len(),
{
    if s.len() == 0 {
        0
    } else {
        count_owned(s.drop_last()) + if s.last() {
            1int
        } else {
            0int
        }
    }
}

/// The owned count never exceeds the piece count.
pub proof fn lemma_count_owned_bounds(s: Seq<bool>)
    ensures
        0 <= count_owned(s) <= s.len(),
    decreases s.len(),
{
    if s.len() > 0 {
        lemma_count_owned_bounds(s.drop_last());
    }
}

/// Marking an unowned piece raises the owned count by one.
pub proof fn lemma_count_owned_update(s: Seq<bool>, i: int)
    requires
        0 <= i < s.len(),
        !s[i],
    ensures
        count_owned(s.update(i, true)) == count_owned(s) + 1,
    decreases s.len(),
{
    let t = s.update(i, true);
    if i == s.len() - 1 {
        assert(t.drop_last() =~= s.drop_last());
    } else {
        assert(t.drop_last() =~= s.drop_last().update(i, true));
        assert(t.last() == s.last());
        lemma_count_owned_update(s.drop_last(), i);
    }
}

/// The per-torrent coordinator state: which pieces the torrent owns,
/// its aggregate statistics, and whether a shutdown is under way.
pub struct Torrent {
    /// One flag per piece: whether the piece is downloaded, verified and
    /// written out.
    pub own_pieces: Vec<bool>,
    /// How many of the flags are set.
    pub owned_count: usize,
    /// The aggregate statistics reported upward.
    pub stats: TorrentStats,
    /// Whether a shutdown command has been seen.
    pub shutting_down: bool,
}

impl Torrent {
    /// The coordinator invariant: the owned counter matches the flags.
    pub open spec fn wf(&self) -> bool {
        self.owned_count == count_owned(self.own_pieces@)
    }

    /// Creates a coordinator for a torrent of `piece_count` pieces, with
    /// `own_pieces` naming the pieces already owned: none when
    /// downloading from scratch, all when seeding.
    pub fn new(own_pieces: Vec<bool>, owned_count: usize) -> (r: Torrent)
        requires
            owned_count == count_owned(own_pieces@),
        ensures
            r.wf(),
            r.own_pieces == own_pieces,
            r.owned_count == owned_count,
            r.stats == (TorrentStats { downloaded: 0, uploaded: 0, peer_count: 0 }),
            !r.shutting_down,
    {
        Torrent {
            own_pieces,
            owned_count,
            stats: TorrentStats { downloaded: 0, uploaded: 0, peer_count: 0 },
            shutting_down: false,
        }
    }

    /// Whether every piece of the torrent is owned.
    pub fn is_seed(&self) -> (r: bool)
        ensures
            r == (self.owned_count == self.own_pieces@.len()),
    {
        self.owned_count == self.own_pieces.len()
    }

    /// Consumes one command and answers with the actions to perform.
    ///
    /// A valid completion marks its piece as owned and broadcasts it,
    /// announcing the whole download once the last piece lands; an
    /// invalid completion requeues the piece; a write failure is
    /// surfaced and the torrent keeps running; a read error travels back
    /// to the session that asked; peer reports update the statistics;
    /// and a shutdown is broadcast to the sessions.
    pub fn handle(&mut self, cmd: Command) -> (r: Vec<Action>)
        requires
            old(self).wf(),
        ensures
            final(self).wf(),
            final(self).own_pieces@.len() == old(self).own_pieces@.len(),
            cmd matches Command::PieceCompletion(Ok(c)) ==> {
                &&& (c.is_valid && (c.index as int) < old(self).own_pieces@.len() ==> {
                    &&& final(self).own_pieces@ == old(self).own_pieces@.update(
                        c.index as int,
                        true,
                    )
                    &&& r@.contains(Action::BroadcastHave { index: c.index })
                    &&& (final(self).owned_count == final(self).own_pieces@.len() ==> r@.contains(
                        Action::AnnounceComplete,
                    ))
                })
                &&& (!c.is_valid ==> r@ == seq![Action::RequeuePiece { index: c.index }]
                    && *final(self) == *old(self))
            },
            cmd matches Command::PieceCompletion(Err(e)) ==> r@ == seq![Action::AlertWriteError]
                && *final(self) == *old(self),
            cmd matches Command::ReadError { block_info, error } ==> r@ == seq![
                Action::NotifyReadError { block_info, error },
            ] && *final(self) == *old(self),
            cmd matches Command::PeerConnected { addr, id } ==> (r@ == Seq::<Action>::empty()
                && final(self).own_pieces == old(self).own_pieces
                && final(self).shutting_down == old(self).shutting_down
                && final(self).stats == spec_stats_after_connect(old(self).stats)),
            cmd matches Command::PeerState { addr, info } ==> (r@ == Seq::<Action>::empty()
                && final(self).own_pieces == old(self).own_pieces
                && final(self).shutting_down == old(self).shutting_down
                && final(self).stats == spec_stats_after_tick(old(self).stats, info)),
            cmd matches Command::Shutdown ==> r@ == seq![Action::ShutdownSessions]
                && final(self).shutting_down,
    {
        let mut actions: Vec<Action> = Vec::new();
        match cmd {
            Command::PieceCompletion(Ok(completion)) => {
                if completion.is_valid {
                    let index = completion.index;
                    if index < self.own_pieces.len() {
                        if !self.own_pieces[index] {
                            proof {
                                lemma_count_owned_update(self.own_pieces@, index as int);
                                lemma_count_owned_bounds(self.own_pieces@.update(index as int, true));
                            }
                            self.own_pieces.set(index, true);
                            self.owned_count = self.owned_count + 1;
                        } else {
                            proof {
                                assert(self.own_pieces@.update(index as int, true)
                                    =~= self.own_pieces@);
                            }
                        }
                        actions.push(Action::BroadcastHave { index });
                        proof {
                            assert(actions@[0] == Action::BroadcastHave { index });
                            assert(actions@.contains(Action::BroadcastHave { index }));
                        }
                        if self.owned_count == self.own_pieces.len() {
                            actions.push(Action::AnnounceComplete);
                            proof {
                                assert(actions@[0] == Action::BroadcastHave { index });
                                assert(actions@[1] == Action::AnnounceComplete);
                                assert(actions@.contains(Action::BroadcastHave { index }));
                                assert(actions@.contains(Action::AnnounceComplete));
                            }
                        }
                    }
                } else {
                    actions.push(Action::RequeuePiece { index: completion.index });
                }
            },
            Command::PieceCompletion(Err(_)) => {
                actions.push(Action::AlertWriteError);
            },
            Command::ReadError { block_info, error } => {
                actions.push(Action::NotifyReadError { block_info, error });
            },
            Command::PeerConnected { addr: _, id: _ } => {
                if self.stats.peer_count < usize::MAX {
                    self.stats.peer_count = self.stats.peer_count + 1;
                }
            },
            Command::PeerState { addr: _, info } => {
                if self.stats.downloaded <= u64::MAX - info.downloaded_payload {
                    self.stats.downloaded = self.stats.downloaded + info.downloaded_payload;
                }
                if self.stats.uploaded <= u64::MAX - info.uploaded_payload {
                    self.stats.uploaded = self.stats.uploaded + info.uploaded_payload;
                }
            },
            Command::Shutdown => {
                self.shutting_down = true;
                actions.push(Action::ShutdownSessions);
            },
        }
        actions
    }
}

} // verus!
