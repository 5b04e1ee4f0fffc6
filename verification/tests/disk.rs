//! End-to-end exercises of the disk path: pieces written block by block
//! through the worker, verified against their digests, and read back out
//! of in-memory files byte for byte.

use cbt::blockinfo::{BlockInfo, BLOCK_LEN};
use cbt::define::TorrentId;
use cbt::disk::{BlockWriteOutcome, Disk};
use cbt::piece::FileWrite;
use cbt::error::NewTorrentError;
use cbt::piece::sha1_digest;
use cbt::storage_info::{FileInfo, StorageInfo};

/// A deterministic test piece of four canonical blocks.
fn make_blocks() -> Vec<Vec<u8>> {
    (0..4u8)
        .map(|i| {
            (0..BLOCK_LEN as usize)
                .map(|j| (i as usize * 31 + j * 7) as u8)
                .collect::<Vec<u8>>()
        })
        .collect()
}

/// Two files adding up to one 65536-byte piece, with the boundary inside
/// the piece.
fn make_storage() -> StorageInfo {
    let files = vec![
        FileInfo { path: "a.bin".to_string(), len: 40000, torrent_offset: 0 },
        FileInfo { path: "b.bin".to_string(), len: 25536, torrent_offset: 40000 },
    ];
    StorageInfo::new(4 * BLOCK_LEN, files, "downloads".to_string())
}

fn apply_writes(file_data: &mut [Vec<u8>], writes: &[FileWrite]) {
    for w in writes {
        let start = w.offset as usize;
        file_data[w.file_index][start..start + w.bytes.len()].copy_from_slice(&w.bytes);
    }
}

fn gather_reads(file_data: &[Vec<u8>], reads: &[cbt::disk::FileRead]) -> Vec<u8> {
    let mut out = Vec::new();
    for r in reads {
        let start = r.offset as usize;
        out.extend_from_slice(&file_data[r.file_index][start..start + r.len as usize]);
    }
    out
}

/// A piece written block by block is verified against its digest, its
/// bytes land inside the declared file lengths, and each block read back
/// is byte-identical to the one that was written.
#[test]
fn piece_round_trip_through_disk_worker() {
    let storage = make_storage();
    let blocks = make_blocks();
    let content: Vec<u8> = blocks.iter().flatten().copied().collect();
    let hash = sha1_digest(&content);

    let mut disk = Disk::new();
    let id = TorrentId::new(0);
    assert!(disk.new_torrent(id, storage.clone(), hash.to_vec()).is_ok());

    // in-memory stand-ins for the two files
    let mut file_data = vec![vec![0u8; 40000], vec![0u8; 25536]];

    // the first three blocks only fill the buffer
    for (i, block) in blocks.iter().enumerate().take(3) {
        let info = BlockInfo {
            piece_index: 0,
            offset: i as u32 * BLOCK_LEN,
            len: BLOCK_LEN,
        };
        let outcome = disk.write_block(id, info, block.clone()).unwrap();
        assert!(matches!(outcome, BlockWriteOutcome::Buffered));
    }

    // the last block completes the piece: the digest matches and the
    // writes come back
    let info = BlockInfo { piece_index: 0, offset: 3 * BLOCK_LEN, len: BLOCK_LEN };
    let outcome = disk.write_block(id, info, blocks[3].clone()).unwrap();
    match outcome {
        BlockWriteOutcome::PieceComplete { index, writes } => {
            assert_eq!(index, 0);
            // one write per overlapped file, none past its file's length
            assert_eq!(writes.len(), 2);
            for w in &writes {
                assert!(w.offset as usize + w.bytes.len() <= file_data[w.file_index].len());
            }
            // the writes carry exactly the piece's bytes, in order
            let written: Vec<u8> = writes.iter().flat_map(|w| w.bytes.clone()).collect();
            assert_eq!(written, content);
            apply_writes(&mut file_data, &writes);
        },
        _ => panic!("expected the piece to complete"),
    }

    // read each of the four blocks back: byte-identical to what went in
    for (i, block) in blocks.iter().enumerate() {
        let info = BlockInfo {
            piece_index: 0,
            offset: i as u32 * BLOCK_LEN,
            len: BLOCK_LEN,
        };
        let reads = disk.read_block_plan(id, info).unwrap().unwrap();
        let piece_bytes = gather_reads(&file_data, &reads);
        let served = disk.read_block_complete(id, info, piece_bytes).unwrap().unwrap();
        assert_eq!(served.piece_index, 0);
        assert_eq!(served.offset, i as u32 * BLOCK_LEN);
        assert_eq!(served.data.as_vec(), block);
    }
}

/// A piece whose bytes do not match the expected digest is reported
/// invalid and nothing is written to disk.
#[test]
fn invalid_piece_is_discarded_without_write() {
    let storage = make_storage();
    let blocks = make_blocks();
    let content: Vec<u8> = blocks.iter().flatten().copied().collect();
    let hash = sha1_digest(&content);

    let mut disk = Disk::new();
    let id = TorrentId::new(1);
    assert!(disk.new_torrent(id, storage, hash.to_vec()).is_ok());

    // every byte incremented by five, saturating: the digest cannot match
    let corrupted: Vec<Vec<u8>> = blocks
        .iter()
        .map(|b| b.iter().map(|x| x.saturating_add(5)).collect())
        .collect();

    for (i, block) in corrupted.iter().enumerate().take(3) {
        let info = BlockInfo {
            piece_index: 0,
            offset: i as u32 * BLOCK_LEN,
            len: BLOCK_LEN,
        };
        let outcome = disk.write_block(id, info, block.clone()).unwrap();
        assert!(matches!(outcome, BlockWriteOutcome::Buffered));
    }
    let info = BlockInfo { piece_index: 0, offset: 3 * BLOCK_LEN, len: BLOCK_LEN };
    let outcome = disk.write_block(id, info, corrupted[3].clone()).unwrap();
    // no write occurs: the outcome carries no write at all
    assert!(matches!(outcome, BlockWriteOutcome::PieceHashMismatch { index: 0 }));
}

/// Allocating the same torrent twice: the first allocation succeeds, the
/// second reports that it already exists, and the worker stays alive and
/// serves further commands.
#[test]
fn reallocate_existing_torrent() {
    let storage = make_storage();
    let blocks = make_blocks();
    let content: Vec<u8> = blocks.iter().flatten().copied().collect();
    let hash = sha1_digest(&content);

    let mut disk = Disk::new();
    let id = TorrentId::new(7);
    assert!(disk.new_torrent(id, storage.clone(), hash.to_vec()).is_ok());
    assert_eq!(
        disk.new_torrent(id, storage, hash.to_vec()),
        Err(NewTorrentError::AlreadyExists)
    );

    // the worker remains live and processes subsequent commands
    let info = BlockInfo { piece_index: 0, offset: 0, len: BLOCK_LEN };
    let outcome = disk.write_block(id, info, blocks[0].clone()).unwrap();
    assert!(matches!(outcome, BlockWriteOutcome::Buffered));
}

/// Enqueueing two blocks at the same offset leaves the piece as after the
/// first enqueue alone: the second arrival is discarded, and the piece
/// still completes with the first block's bytes.
#[test]
fn duplicate_enqueue_is_idempotent() {
    let storage = make_storage();
    let blocks = make_blocks();
    let content: Vec<u8> = blocks.iter().flatten().copied().collect();
    let hash = sha1_digest(&content);

    let mut disk = Disk::new();
    let id = TorrentId::new(2);
    assert!(disk.new_torrent(id, storage, hash.to_vec()).is_ok());

    let first = BlockInfo { piece_index: 0, offset: 0, len: BLOCK_LEN };
    let outcome = disk.write_block(id, first, blocks[0].clone()).unwrap();
    assert!(matches!(outcome, BlockWriteOutcome::Buffered));

    // a different payload at the same offset is discarded
    let outcome = disk.write_block(id, first, vec![0xffu8; BLOCK_LEN as usize]).unwrap();
    assert!(matches!(outcome, BlockWriteOutcome::Buffered));

    for (i, block) in blocks.iter().enumerate().skip(1) {
        let info = BlockInfo {
            piece_index: 0,
            offset: i as u32 * BLOCK_LEN,
            len: BLOCK_LEN,
        };
        let outcome = disk.write_block(id, info, block.clone()).unwrap();
        if i < 3 {
            assert!(matches!(outcome, BlockWriteOutcome::Buffered));
        } else {
            // the piece completes with the first block's bytes: the digest
            // over the original content matches
            match outcome {
                BlockWriteOutcome::PieceComplete { index, writes } => {
                    assert_eq!(index, 0);
                    let written: Vec<u8> = writes.iter().flat_map(|w| w.bytes.clone()).collect();
                    assert_eq!(written, content);
                },
                _ => panic!("expected the piece to complete with the first block's bytes"),
            }
        }
    }
}

/// A block that violates the storage's bounds is rejected and nothing
/// changes.
#[test]
fn invalid_block_is_rejected() {
    let storage = make_storage();
    let hash = [0u8; 20];
    let mut disk = Disk::new();
    let id = TorrentId::new(3);
    assert!(disk.new_torrent(id, storage, hash.to_vec()).is_ok());

    // piece index out of range
    let info = BlockInfo { piece_index: 9, offset: 0, len: BLOCK_LEN };
    let outcome = disk.write_block(id, info, vec![0u8; BLOCK_LEN as usize]).unwrap();
    assert!(matches!(outcome, BlockWriteOutcome::InvalidBlock));

    // misaligned offset
    let info = BlockInfo { piece_index: 0, offset: 3, len: BLOCK_LEN };
    let outcome = disk.write_block(id, info, vec![0u8; BLOCK_LEN as usize]).unwrap();
    assert!(matches!(outcome, BlockWriteOutcome::InvalidBlock));

    // payload length does not match the block
    let info = BlockInfo { piece_index: 0, offset: 0, len: BLOCK_LEN };
    let outcome = disk.write_block(id, info, vec![0u8; 5]).unwrap();
    assert!(matches!(outcome, BlockWriteOutcome::InvalidBlock));

    // unknown torrent id is fatal to the caller
    let other = TorrentId::new(99);
    assert!(disk.write_block(other, info, vec![0u8; BLOCK_LEN as usize]).is_err());
}

/// A read of a piece whose bytes were never written reports missing data.
#[test]
fn read_of_missing_piece_reports_missing_data() {
    let storage = make_storage();
    let hash = [0u8; 20];
    let mut disk = Disk::new();
    let id = TorrentId::new(4);
    assert!(disk.new_torrent(id, storage, hash.to_vec()).is_ok());

    let info = BlockInfo { piece_index: 0, offset: 0, len: BLOCK_LEN };
    // a short read: fewer bytes than the piece wants
    let short = vec![0u8; 100];
    let served = disk.read_block_complete(id, info, short).unwrap();
    assert_eq!(served.unwrap_err(), cbt::error::ReadError::MissingData);
}
