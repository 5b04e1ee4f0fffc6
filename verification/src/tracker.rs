//! The tracker interface: the announce request's fields, the response's
//! fields as plain values, the percent-encoding of the binary identity
//! fields into a query string, and the parsing of the compact peer list
//! a tracker answers with.

use crate::byteseq::spec_be_u32;
use crate::define::{PeerId, Sha1Hash};
use crate::error::{PeerAddr, TrackerError};
use vstd::prelude::*;

verus! {

/// The optional announce event. Absent on the regular periodic
/// announces.
#[derive(Debug, Clone, Copy, PartialEq, Eq, Structural)]
pub enum Event {
    /// The first request to a tracker carries this.
    Started,
    /// Sent when the client becomes a seeder, unless it started as one.
    Completed,
    /// Sent when the client shuts down gracefully.
    Stopped,
}

/// The parameters of one announce to a tracker.
pub struct Announce {
    /// The torrent's info hash.
    pub info_hash: Sha1Hash,
    /// This client's id.
    pub peer_id: PeerId,
    /// The port this client listens on.
    pub port: u16,
    /// The client's true address, needed only when the request does not
    /// originate from it.
    pub ip: Option<PeerAddr>,
    /// The number of bytes downloaded so far.
    pub downloaded: u64,
    /// The number of bytes uploaded so far.
    pub uploaded: u64,
    /// The number of bytes left to download.
    pub left: u64,
    /// How many peers the client wants, when it asks for a number.
    pub peer_count: Option<usize>,
    /// The tracker id from an earlier response, sent back verbatim.
    pub tracker_id: Option<String>,
    /// The event, on the announces that carry one.
    pub event: Option<Event>,
}

/// A tracker's answer to an announce, as plain values: intervals in
/// whole seconds and peers as addresses.
pub struct Response {
    /// The tracker id to send with every later announce.
    pub tracker_id: Option<String>,
    /// Set when the request was invalid; no other field matters then.
    pub failure_reason: Option<String>,
    /// Like the failure reason, but the response still counts.
    pub warning_message: Option<String>,
    /// Seconds to wait before the next announce.
    pub interval_secs: Option<u64>,
    /// Seconds before which the client must not re-announce.
    pub min_interval_secs: Option<u64>,
    /// The number of seeders the tracker knows of.
    pub seeder_count: Option<usize>,
    /// The number of leechers the tracker knows of.
    pub leecher_count: Option<usize>,
    /// The peers to download from.
    pub peers: Vec<PeerAddr>,
}

/// Whether a byte passes into a URL unchanged: the ASCII alphanumerics
/// and `-`, `_`, `~`, `.`. Every other byte is percent-encoded.
pub open spec fn is_url_unreserved(b: u8) -> bool {
    ||| 0x30 <= b <= 0x39
    ||| 0x41 <= b <= 0x5a
    ||| 0x61 <= b <= 0x7a
    ||| b == 0x2d
    ||| b == 0x5f
    ||| b == 0x7e
    ||| b == 0x2e
}

/// The uppercase hexadecimal digit of a value below sixteen, as an
/// ASCII byte.
pub open spec fn spec_hex_upper(n: int) -> u8 {
    if n < 10 {
        (0x30 + n) as u8
    } else {
        (0x41 + n - 10) as u8
    }
}

/// The percent-encoding of bytes into URL-safe ASCII: an unreserved
/// byte stands for itself, every other becomes a percent sign and two
/// uppercase hexadecimal digits.
pub open spec fn spec_percent_encode(b: Seq<u8>) -> Seq<u8>
    decreases b.len(),
{
    if b.len() == 0 {
        Seq::empty()
    } else {
        let rest = spec_percent_encode(b.drop_first());
        let x = b.first();
        if is_url_unreserved(x) {
            seq![x] + rest
        } else {
            seq![0x25u8, spec_hex_upper(x as int / 16), spec_hex_upper(x as int % 16)] + rest
        }
    }
}

/// Percent-encodes bytes for an announce URL: ASCII alphanumerics and
/// `-`, `_`, `~`, `.` stay as they are, every other byte becomes `%`
/// followed by two uppercase hexadecimal digits. This is how a torrent's
/// binary info hash and peer id travel inside an HTTP query.
pub fn percent_encode_reserved(bytes: &[u8]) -> (r: Vec<u8>)
    ensures
        r@ == spec_percent_encode(bytes@),
{
    let n = bytes.len();
    let mut out: Vec<u8> = Vec::new();
    let mut j: usize = 0;
    while j < n
        invariant
            n == bytes@.len(),
            j <= n,
            out@ == spec_percent_encode(bytes@.take(j as int)),
        decreases n - j,
    {
        let x = bytes[j];
        proof {
            lemma_percent_encode_push(bytes@.take(j as int), bytes@[j as int]);
            assert(bytes@.take(j + 1) =~= bytes@.take(j as int).push(bytes@[j as int]));
            assert(seq![x].drop_first() =~= Seq::<u8>::empty());
            assert(spec_percent_encode(Seq::<u8>::empty()) =~= Seq::<u8>::empty());
            assert(seq![x].first() == x);
            if is_url_unreserved(x) {
                assert(spec_percent_encode(seq![x]) =~= seq![x]);
            } else {
                assert(spec_percent_encode(seq![x]) =~= seq![
                    0x25u8,
                    spec_hex_upper(x as int / 16),
                    spec_hex_upper(x as int % 16),
                ]);
            }
        }
        if (0x30 <= x && x <= 0x39) || (0x41 <= x && x <= 0x5a) || (0x61 <= x && x <= 0x7a) || x
            == 0x2d || x == 0x5f || x == 0x7e || x == 0x2e {
            out.push(x);
        } else {
            out.push(0x25);
            let hi = x / 16;
            let lo = x % 16;
            out.push(if hi < 10 {
                0x30 + hi
            } else {
                0x41 + (hi - 10)
            });
            out.push(if lo < 10 {
                0x30 + lo
            } else {
                0x41 + (lo - 10)
            });
        }
        proof {
            assert(out@ =~= spec_percent_encode(bytes@.take(j + 1)));
        }
        j += 1;
    }
    proof {
        assert(bytes@.take(n as int) =~= bytes@);
    }
    out
}

/// Percent-encoding one more byte appends its encoding.
pub proof fn lemma_percent_encode_push(b: Seq<u8>, x: u8)
    ensures
        spec_percent_encode(b.push(x)) == spec_percent_encode(b) + spec_percent_encode(seq![x]),
    decreases b.len(),
{
    if b.len() == 0 {
        assert(b.push(x) =~= seq![x]);
        assert(spec_percent_encode(b) =~= Seq::<u8>::empty());
        assert(spec_percent_encode(b.push(x)) =~= spec_percent_encode(b) + spec_percent_encode(
            seq![x],
        ));
    } else {
        assert(b.push(x).drop_first() =~= b.drop_first().push(x));
        assert(b.push(x).first() == b.first());
        lemma_percent_encode_push(b.drop_first(), x);
        assert(spec_percent_encode(b.push(x)) =~= spec_percent_encode(b) + spec_percent_encode(
            seq![x],
        ));
    }
}

/// The peer a compact peer list names at position `i`: four address
/// bytes and a two-byte port, both big-endian.
pub open spec fn spec_compact_peer(b: Seq<u8>, i: int) -> PeerAddr {
    PeerAddr::V4 {
        addr: spec_be_u32(b.subrange(6 * i, 6 * i + 4)) as u32,
        port: (b[6 * i + 4] * 0x100 + b[6 * i + 5]) as u16,
    }
}

/// Parses a compact peer list: each six bytes are one peer, the first
/// four its address and the last two its port, both in network order. A
/// byte count that is not a multiple of six cannot be decoded.
pub fn parse_compact_peers(b: &Vec<u8>) -> (r: Result<Vec<PeerAddr>, TrackerError>)
    ensures
        (r is Err) <==> b@.len() % 6 != 0,
        r matches Err(e) ==> e == TrackerError::BencodeDe,
        r matches Ok(peers) ==> peers@.len() == b@.len() / 6 && forall|i: int|
            0 <= i < peers@.len() ==> peers@[i] == spec_compact_peer(b@, i),
{
    let blen = b.len();
    if blen % 6 != 0 {
        return Err(TrackerError::BencodeDe);
    }
    let count = blen / 6;
    let mut peers: Vec<PeerAddr> = Vec::new();
    let mut i: usize = 0;
    while i < count
        invariant
            blen == b@.len(),
            blen % 6 == 0,
            count == blen / 6,
            i <= count,
            peers@.len() == i,
            forall|j: int| 0 <= j < i ==> peers@[j] == spec_compact_peer(b@, j),
        decreases count - i,
    {
        proof {
            assert(6 * (i as int) + 6 <= blen) by (nonlinear_arith)
                requires
                    0 <= i < count,
                    count == blen / 6,
                    blen % 6 == 0,
            ;
        }
        let base = 6 * i;
        let addr = crate::byteseq::read_u32_be(b, base);
        let port = (b[base + 4] as u16) * 0x100 + (b[base + 5] as u16);
        peers.push(PeerAddr::V4 { addr, port });
        proof {
            assert(b@.subrange(6 * (i as int), 6 * (i as int) + 4) =~= b@.subrange(
                base as int,
                base as int + 4,
            ));
        }
        i += 1;
    }
    Ok(peers)
}

} // verus!
