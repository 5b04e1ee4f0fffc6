use cbt::error::MetainfoError;
use cbt::metainfo::{Metainfo, RawFileEntry, UrlScheme};
use cbt::storage_info::StorageInfo;

fn hashes(count: usize) -> Vec<u8> {
    vec![0xabu8; 20 * count]
}

/// A valid single-file torrent builds, and its storage description cuts
/// it into the declared pieces.
#[test]
fn builds_single_file_metainfo() {
    let m = Metainfo::build(
        "file.bin".to_string(),
        [1u8; 20],
        hashes(3),
        16384,
        Some(40000),
        None,
        vec![
            ("http://tracker.example/announce".to_string(), UrlScheme::Http),
            ("udp://tracker.example:6969".to_string(), UrlScheme::Other),
            ("https://backup.example/announce".to_string(), UrlScheme::Https),
        ],
    )
    .unwrap();
    assert!(!m.is_archive());
    assert_eq!(m.files.len(), 1);
    assert_eq!(m.files[0].len, 40000);
    assert_eq!(m.files[0].torrent_offset, 0);
    // only the trackers the engine can speak to are retained
    assert_eq!(m.trackers.len(), 2);
    assert_eq!(m.trackers[0], "http://tracker.example/announce");
    assert_eq!(m.trackers[1], "https://backup.example/announce");

    let storage = StorageInfo::new(m.piece_len, m.files, "downloads".to_string());
    assert_eq!(storage.piece_count, 3);
    assert_eq!(storage.piece_len, 16384);
    assert_eq!(storage.last_piece_len, 40000 - 2 * 16384);
    assert_eq!(storage.download_len, 40000);
}

/// A multi-file torrent's offsets are the prefix sums of the lengths.
#[test]
fn builds_multi_file_metainfo() {
    let m = Metainfo::build(
        "dir".to_string(),
        [2u8; 20],
        hashes(1),
        16384,
        None,
        Some(vec![
            RawFileEntry { path: "a".to_string(), len: 1000 },
            RawFileEntry { path: "b".to_string(), len: 2000 },
            RawFileEntry { path: "c".to_string(), len: 3000 },
        ]),
        vec![],
    )
    .unwrap();
    assert!(m.is_archive());
    assert_eq!(m.files.len(), 3);
    assert_eq!(m.files[0].torrent_offset, 0);
    assert_eq!(m.files[1].torrent_offset, 1000);
    assert_eq!(m.files[2].torrent_offset, 3000);
}

/// The structural rules each reject their violation.
#[test]
fn rejects_invalid_metainfo() {
    // the pieces string must be a whole number of 20-byte digests
    let r = Metainfo::build(
        "x".to_string(),
        [0u8; 20],
        vec![0u8; 19],
        16384,
        Some(100),
        None,
        vec![],
    );
    assert_eq!(r.err().unwrap(), MetainfoError::InvalidMetainfo);

    // both a single length and a file list
    let r = Metainfo::build(
        "x".to_string(),
        [0u8; 20],
        hashes(1),
        16384,
        Some(100),
        Some(vec![RawFileEntry { path: "a".to_string(), len: 100 }]),
        vec![],
    );
    assert_eq!(r.err().unwrap(), MetainfoError::InvalidMetainfo);

    // neither a single length nor a file list
    let r = Metainfo::build("x".to_string(), [0u8; 20], hashes(1), 16384, None, None, vec![]);
    assert_eq!(r.err().unwrap(), MetainfoError::InvalidMetainfo);

    // an empty file list
    let r = Metainfo::build(
        "x".to_string(),
        [0u8; 20],
        hashes(1),
        16384,
        None,
        Some(vec![]),
        vec![],
    );
    assert_eq!(r.err().unwrap(), MetainfoError::InvalidMetainfo);

    // a zero-length file
    let r = Metainfo::build(
        "x".to_string(),
        [0u8; 20],
        hashes(1),
        16384,
        None,
        Some(vec![RawFileEntry { path: "a".to_string(), len: 0 }]),
        vec![],
    );
    assert_eq!(r.err().unwrap(), MetainfoError::InvalidMetainfo);

    // one digest missing for the last piece
    let r = Metainfo::build(
        "x".to_string(),
        [0u8; 20],
        hashes(2),
        16384,
        Some(40000),
        None,
        vec![],
    );
    assert_eq!(r.err().unwrap(), MetainfoError::InvalidPieces);
}
