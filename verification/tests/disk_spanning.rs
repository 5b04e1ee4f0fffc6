//! A piece straddling three files: the middle file is covered whole, the
//! boundary files partially, and no write reaches past any file's length.

use cbt::blockinfo::{BlockInfo, BLOCK_LEN};
use cbt::byteseq::vec_u8_eq;
use cbt::define::TorrentId;
use cbt::disk::{BlockWriteOutcome, Disk};
use cbt::piece::sha1_digest;
use cbt::storage_info::{FileInfo, StorageInfo};

#[test]
fn piece_spanning_three_files() {
    // one 32768-byte piece over files of 10000 + 9000 + 13768 bytes
    let files = vec![
        FileInfo { path: "a".to_string(), len: 10000, torrent_offset: 0 },
        FileInfo { path: "b".to_string(), len: 9000, torrent_offset: 10000 },
        FileInfo { path: "c".to_string(), len: 13768, torrent_offset: 19000 },
    ];
    let storage = StorageInfo::new(2 * BLOCK_LEN, files, "dl".to_string());
    assert_eq!(storage.piece_count, 1);

    let blocks: Vec<Vec<u8>> = (0..2u8)
        .map(|i| (0..BLOCK_LEN as usize).map(|j| (j * 3 + i as usize).max(1) as u8).collect())
        .collect();
    let content: Vec<u8> = blocks.iter().flatten().copied().collect();
    let hash = sha1_digest(&content);

    let mut disk = Disk::new();
    let id = TorrentId::new(0);
    assert!(disk.new_torrent(id, storage, hash.to_vec()).is_ok());

    let first = BlockInfo { piece_index: 0, offset: 0, len: BLOCK_LEN };
    assert!(matches!(
        disk.write_block(id, first, blocks[0].clone()).unwrap(),
        BlockWriteOutcome::Buffered
    ));
    let second = BlockInfo { piece_index: 0, offset: BLOCK_LEN, len: BLOCK_LEN };
    match disk.write_block(id, second, blocks[1].clone()).unwrap() {
        BlockWriteOutcome::PieceComplete { index, writes } => {
            assert_eq!(index, 0);
            // one write per file: the first file's tail, all of the middle
            // file, and the last file's head
            assert_eq!(writes.len(), 3);
            assert_eq!(writes[0].file_index, 0);
            assert_eq!(writes[0].offset, 0);
            assert_eq!(writes[0].bytes.len(), 10000);
            assert_eq!(writes[1].file_index, 1);
            assert_eq!(writes[1].offset, 0);
            assert_eq!(writes[1].bytes.len(), 9000);
            assert_eq!(writes[2].file_index, 2);
            assert_eq!(writes[2].offset, 0);
            assert_eq!(writes[2].bytes.len(), 32768 - 10000 - 9000);
            let written: Vec<u8> = writes.iter().flat_map(|w| w.bytes.clone()).collect();
            assert!(vec_u8_eq(&written, &content));
        },
        _ => panic!("expected the piece to complete"),
    }
}

/// A piece whose range starts inside a file writes at an interior offset.
#[test]
fn second_piece_starts_inside_a_file() {
    // two pieces of 16384 over one 32768-byte file
    let files = vec![FileInfo { path: "a".to_string(), len: 32768, torrent_offset: 0 }];
    let storage = StorageInfo::new(BLOCK_LEN, files, "dl".to_string());
    assert_eq!(storage.piece_count, 2);

    let block: Vec<u8> = (0..BLOCK_LEN as usize).map(|j| (j % 251) as u8).collect();
    let hash = sha1_digest(&block);
    let mut hashes = hash.to_vec();
    hashes.extend_from_slice(&hash);

    let mut disk = Disk::new();
    let id = TorrentId::new(0);
    assert!(disk.new_torrent(id, storage, hashes).is_ok());

    let info = BlockInfo { piece_index: 1, offset: 0, len: BLOCK_LEN };
    match disk.write_block(id, info, block.clone()).unwrap() {
        BlockWriteOutcome::PieceComplete { index, writes } => {
            assert_eq!(index, 1);
            assert_eq!(writes.len(), 1);
            assert_eq!(writes[0].file_index, 0);
            // the second piece lands at its absolute offset within the file
            assert_eq!(writes[0].offset, BLOCK_LEN as u64);
            assert!(vec_u8_eq(&writes[0].bytes, &block));
        },
        _ => panic!("expected the piece to complete"),
    }
}

/// The wire form of a block's metadata: three big-endian four-byte
/// fields.
#[test]
fn block_info_encodes_big_endian() {
    let info = BlockInfo { piece_index: 1, offset: 0x4000, len: 0x4000 };
    let mut buf: Vec<u8> = Vec::new();
    assert!(info.encode(&mut buf).is_ok());
    assert_eq!(buf, vec![0, 0, 0, 1, 0, 0, 0x40, 0, 0, 0, 0x40, 0]);
}
