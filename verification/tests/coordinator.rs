use cbt::blockinfo::BlockInfo;
use cbt::define::{TorrentId, TorrentIdAllocator};
use cbt::error::ReadError;
use cbt::storage_info::{FileInfo, FileSlice};
use cbt::torrent::{Action, Command, PieceCompletion, Torrent};

/// A valid completion marks the piece owned and broadcasts it; the last
/// one announces the finished download.
#[test]
fn completion_marks_and_broadcasts() {
    let mut t = Torrent::new(vec![false, false], 0);
    let actions = t.handle(Command::PieceCompletion(Ok(PieceCompletion {
        index: 0,
        is_valid: true,
    })));
    assert_eq!(actions, vec![Action::BroadcastHave { index: 0 }]);
    assert!(!t.is_seed());

    let actions = t.handle(Command::PieceCompletion(Ok(PieceCompletion {
        index: 1,
        is_valid: true,
    })));
    assert_eq!(
        actions,
        vec![Action::BroadcastHave { index: 1 }, Action::AnnounceComplete]
    );
    assert!(t.is_seed());
}

/// An invalid completion requeues its piece and owns nothing.
#[test]
fn invalid_completion_requeues() {
    let mut t = Torrent::new(vec![false, false], 0);
    let actions = t.handle(Command::PieceCompletion(Ok(PieceCompletion {
        index: 1,
        is_valid: false,
    })));
    assert_eq!(actions, vec![Action::RequeuePiece { index: 1 }]);
    assert!(!t.own_pieces[1]);
}

/// A read error travels back toward the session that asked.
#[test]
fn read_error_notifies_requester() {
    let mut t = Torrent::new(vec![false], 0);
    let block_info = BlockInfo { piece_index: 0, offset: 0, len: 4 };
    let actions = t.handle(Command::ReadError { block_info, error: ReadError::MissingData });
    assert_eq!(
        actions,
        vec![Action::NotifyReadError { block_info, error: ReadError::MissingData }]
    );
}

/// A shutdown is broadcast to the sessions.
#[test]
fn shutdown_broadcasts() {
    let mut t = Torrent::new(vec![false], 0);
    let actions = t.handle(Command::Shutdown);
    assert_eq!(actions, vec![Action::ShutdownSessions]);
    assert!(t.shutting_down);
}

/// The id allocator mints strictly increasing, never-reused ids.
#[test]
fn id_allocator_is_monotonic() {
    let mut alloc = TorrentIdAllocator::new();
    let a = alloc.mint();
    let b = alloc.mint();
    let c = alloc.mint();
    assert_eq!(a, TorrentId::new(0));
    assert_eq!(b, TorrentId::new(1));
    assert_eq!(c, TorrentId::new(2));
}

/// A file slice clips the requested byte range against the file's range.
#[test]
fn file_slice_clips_against_file() {
    let file = FileInfo { path: "a".to_string(), len: 100, torrent_offset: 50 };
    // the whole remainder fits in the file
    assert_eq!(file.get_slice(60, 30), FileSlice { offset: 10, len: 30 });
    // the remainder reaches past the file's end and is clipped
    assert_eq!(file.get_slice(60, 1000), FileSlice { offset: 10, len: 90 });
    // a cursor at the file's start
    assert_eq!(file.get_slice(50, 5), FileSlice { offset: 0, len: 5 });
}
