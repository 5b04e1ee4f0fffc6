use cbt::error::PeerAddr;
use cbt::tracker::{parse_compact_peers, percent_encode_reserved};

/// The compact peer list: each six bytes are an IPv4 address and a port,
/// both in network order.
#[test]
fn parses_compact_peer_list() {
    // 192.168.0.1:8989
    let encoded = vec![192u8, 168, 0, 1, 0x23, 0x1d];
    let peers = parse_compact_peers(&encoded).unwrap();
    assert_eq!(peers.len(), 1);
    assert_eq!(peers[0], PeerAddr::V4 { addr: 0xc0a80001, port: 8989 });

    // two peers back to back
    let encoded = vec![10u8, 0, 0, 1, 0x1f, 0x90, 127, 0, 0, 1, 0x00, 0x50];
    let peers = parse_compact_peers(&encoded).unwrap();
    assert_eq!(peers.len(), 2);
    assert_eq!(peers[0], PeerAddr::V4 { addr: 0x0a000001, port: 8080 });
    assert_eq!(peers[1], PeerAddr::V4 { addr: 0x7f000001, port: 80 });
}

/// A compact string that is not a whole number of six-byte entries cannot
/// be decoded.
#[test]
fn rejects_misaligned_compact_peer_list() {
    let encoded = vec![192u8, 168, 0, 1, 0x23];
    assert!(parse_compact_peers(&encoded).is_err());
}

/// Unreserved bytes pass through; everything else becomes uppercase
/// percent escapes.
#[test]
fn percent_encodes_reserved_bytes() {
    assert_eq!(percent_encode_reserved(b"foo bar?"), b"foo%20bar%3F".to_vec());
    assert_eq!(percent_encode_reserved(b"AZaz09-_~."), b"AZaz09-_~.".to_vec());
    assert_eq!(percent_encode_reserved(&[0x00, 0xff, 0x7f]), b"%00%FF%7F".to_vec());
}
