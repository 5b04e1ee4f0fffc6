//! Core of a BitTorrent download/seed engine: block and piece bookkeeping,
//! bounded vectored I/O planning, piece assembly and validation, the disk
//! worker's command handling, and the peer wire codec.

pub mod alert;
pub mod avg;
pub mod blockinfo;
pub mod define;
pub mod disk;
pub mod error;
pub mod metainfo;
pub mod byteseq;
pub mod codec;
pub mod conf;
pub mod iovecs;
pub mod piece;
pub mod storage_info;
pub mod torrent;
pub mod tracker;
