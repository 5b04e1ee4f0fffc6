//! The peer wire codec: the fixed 68-byte handshake that opens a session,
//! and the length-prefixed message frames exchanged after it. Every frame
//! is big-endian and length-prefixed; decoding peeks at the prefix without
//! consuming it and consumes a frame only when all its bytes are present.

use crate::blockinfo::{BlockData, BlockInfo};
use crate::byteseq::{consume_front, copy_range, push_u32_be, read_u32_be, spec_be_u32, spec_u32_be};
use crate::define::{PeerId, Sha1Hash};
use vstd::prelude::*;

verus! {

/// An error of the wire codec: the bytes cannot be a frame.
#[derive(Debug, Clone, Copy, PartialEq, Eq, Structural)]
pub enum CodecError {
    /// The input bytes violate the wire format.
    InvalidInput,
}

/// The 19 bytes of the version-one protocol string on the wire.
pub open spec fn spec_protocol_bytes() -> Seq<u8> {
    seq![
        66u8,
        105u8,
        116u8,
        84u8,
        111u8,
        114u8,
        114u8,
        101u8,
        110u8,
        116u8,
        32u8,
        112u8,
        114u8,
        111u8,
        116u8,
        111u8,
        99u8,
        111u8,
        108u8,
    ]
}

/// The protocol string as bytes, `"BitTorrent protocol"`.
pub fn protocol_bytes() -> (r: Vec<u8>)
    ensures
        r@ == spec_protocol_bytes(),
{
    let mut r: Vec<u8> = Vec::new();
    r.push(66);
    r.push(105);
    r.push(116);
    r.push(84);
    r.push(111);
    r.push(114);
    r.push(114);
    r.push(101);
    r.push(110);
    r.push(116);
    r.push(32);
    r.push(112);
    r.push(114);
    r.push(111);
    r.push(116);
    r.push(111);
    r.push(99);
    r.push(111);
    r.push(108);
    proof {
        assert(r@ =~= spec_protocol_bytes());
    }
    r
}

/// Copies `N` bytes out of `buf` starting at `pos`.
fn read_chunk<const N: usize>(buf: &Vec<u8>, pos: usize) -> (r: [u8; N])
    requires
        pos + N <= buf@.len(),
    ensures
        r@ == buf@.subrange(pos as int, pos as int + N as int),
{
    let blen = buf.len();
    let mut r: [u8; N] = [0u8; N];
    let mut i: usize = 0;
    while i < N
        invariant
            pos + N <= blen == buf@.len(),
            r@.len() == N,
            i <= N,
            forall|j: int| 0 <= j < i ==> r@[j] == buf@[pos + j],
        decreases N - i,
    {
        r[i] = buf[pos + i];
        i += 1;
    }
    proof {
        assert(r@ =~= buf@.subrange(pos as int, pos as int + N as int));
    }
    r
}

/// The message sent once at the beginning of a peer session by both
/// sides of the connection: a one-byte protocol-string length, the
/// protocol string, eight reserved bytes, the torrent's info hash, and
/// the peer's id — 68 bytes in all.
#[derive(Clone, Copy, Debug)]
pub struct Handshake {
    /// The protocol string, `"BitTorrent protocol"` for every conforming
    /// session.
    pub prot: [u8; 19],
    /// The reserved extension bits, all zero for now.
    pub reserved: [u8; 8],
    /// The torrent's SHA-1 info hash, identifying the torrent and
    /// verifying the peer.
    pub info_hash: Sha1Hash,
    /// The arbitrary peer id, usually identifying the client software.
    pub peer_id: PeerId,
}

/// The 68 bytes of a handshake on the wire.
pub open spec fn spec_handshake_bytes(h: Handshake) -> Seq<u8> {
    seq![19u8] + h.prot@ + h.reserved@ + h.info_hash@ + h.peer_id@
}

impl Handshake {
    /// Creates a version-one handshake carrying the given info hash and
    /// peer id.
    pub fn new(info_hash: Sha1Hash, peer_id: PeerId) -> (r: Handshake)
        ensures
            r.prot@ == spec_protocol_bytes(),
            forall|i: int| 0 <= i < 8 ==> r.reserved@[i] == 0,
            r.info_hash == info_hash,
            r.peer_id == peer_id,
    {
        let pb = protocol_bytes();
        let mut prot: [u8; 19] = [0u8; 19];
        let mut i: usize = 0;
        while i < 19
            invariant
                pb@.len() == 19,
                prot@.len() == 19,
                i <= 19,
                forall|j: int| 0 <= j < i ==> prot@[j] == pb@[j],
            decreases 19 - i,
        {
            prot[i] = pb[i];
            i += 1;
        }
        proof {
            assert(prot@ =~= pb@);
        }
        Handshake { prot, reserved: [0u8; 8], info_hash, peer_id }
    }

    /// The length of the handshake's payload in bytes: everything after
    /// the one-byte length prefix.
    pub fn len(&self) -> (r: u64)
        ensures
            r == 67,
    {
        19 + 8 + 20 + 20
    }
}

impl PartialEq for Handshake {
    /// Two handshakes are equal when all their wire fields are.
    fn eq(&self, other: &Self) -> (r: bool) {
        crate::byteseq::slice_u8_eq(self.prot.as_slice(), other.prot.as_slice())
            && crate::byteseq::slice_u8_eq(self.reserved.as_slice(), other.reserved.as_slice())
            && crate::byteseq::slice_u8_eq(self.info_hash.as_slice(), other.info_hash.as_slice())
            && crate::byteseq::slice_u8_eq(self.peer_id.as_slice(), other.peer_id.as_slice())
    }
}

impl vstd::std_specs::cmp::PartialEqSpecImpl for Handshake {
    open spec fn obeys_eq_spec() -> bool {
        true
    }

    open spec fn eq_spec(&self, other: &Self) -> bool {
        self.prot@ == other.prot@ && self.reserved@ == other.reserved@ && self.info_hash@
            == other.info_hash@ && self.peer_id@ == other.peer_id@
    }
}

/// The handshake codec: encodes a handshake onto a byte stream and
/// decodes one off it.
pub struct HandshakeCodec;

impl HandshakeCodec {
    /// Appends the 68 wire bytes of the handshake to the buffer.
    pub fn encode(&self, handshake: &Handshake, buf: &mut Vec<u8>)
        ensures
            final(buf)@ == old(buf)@ + spec_handshake_bytes(*handshake),
    {
        buf.push(19);
        crate::byteseq::extend_bytes(buf, handshake.prot.as_slice());
        crate::byteseq::extend_bytes(buf, handshake.reserved.as_slice());
        crate::byteseq::extend_bytes(buf, handshake.info_hash.as_slice());
        crate::byteseq::extend_bytes(buf, handshake.peer_id.as_slice());
        proof {
            assert(buf@ =~= old(buf)@ + spec_handshake_bytes(*handshake));
        }
    }

    /// Decodes a handshake off the front of the buffer.
    ///
    /// An empty buffer and a buffer shorter than the whole 68-byte
    /// handshake both ask for more data, consuming nothing. A first byte
    /// other than the canonical protocol-string length is invalid input.
    /// With all 68 bytes present the handshake is consumed and returned.
    pub fn decode(&self, buf: &mut Vec<u8>) -> (r: Result<Option<Handshake>, CodecError>)
        ensures
            old(buf)@.len() == 0 ==> r == Result::<Option<Handshake>, CodecError>::Ok(None)
                && final(buf)@ == old(buf)@,
            old(buf)@.len() > 0 && old(buf)@[0] != 19 ==> r == Result::<
                Option<Handshake>,
                CodecError,
            >::Err(CodecError::InvalidInput) && final(buf)@ == old(buf)@,
            old(buf)@.len() > 0 && old(buf)@[0] == 19 && old(buf)@.len() < 68 ==> r == Result::<
                Option<Handshake>,
                CodecError,
            >::Ok(None) && final(buf)@ == old(buf)@,
            old(buf)@.len() >= 68 && old(buf)@[0] == 19 ==> {
                &&& r is Ok
                &&& r->Ok_0 is Some
                &&& spec_handshake_bytes(r->Ok_0->Some_0) == old(buf)@.take(68)
                &&& final(buf)@ == old(buf)@.skip(68)
            },
    {
        if buf.len() == 0 {
            return Ok(None);
        }
        // peek at the protocol-string length without consuming it
        let prot_len = buf[0];
        if prot_len != 19 {
            return Err(CodecError::InvalidInput);
        }
        if buf.len() < 68 {
            return Ok(None);
        }
        let prot: [u8; 19] = read_chunk(buf, 1);
        let reserved: [u8; 8] = read_chunk(buf, 20);
        let info_hash: [u8; 20] = read_chunk(buf, 28);
        let peer_id: [u8; 20] = read_chunk(buf, 48);
        let h = Handshake { prot, reserved, info_hash, peer_id };
        proof {
            assert(spec_handshake_bytes(h) =~= old(buf)@.take(68));
        }
        consume_front(buf, 68);
        Ok(Some(h))
    }
}

/// Encoding then decoding a handshake yields the handshake back: the
/// wire bytes are 68 bytes starting with the canonical length byte, so
/// the decoder accepts them whole, and no two distinct handshakes share
/// the same wire bytes, so the decoded handshake is the encoded one.
pub proof fn lemma_handshake_round_trip(h: Handshake, h2: Handshake)
    requires
        spec_handshake_bytes(h) == spec_handshake_bytes(h2),
    ensures
        spec_handshake_bytes(h).len() == 68,
        spec_handshake_bytes(h)[0] == 19,
        h == h2,
{
    let a = spec_handshake_bytes(h);
    let b = spec_handshake_bytes(h2);
    assert forall|i: int| 0 <= i < 19 implies h.prot@[i] == h2.prot@[i] by {
        assert(a[1 + i] == h.prot@[i]);
        assert(b[1 + i] == h2.prot@[i]);
    }
    assert forall|i: int| 0 <= i < 8 implies h.reserved@[i] == h2.reserved@[i] by {
        assert(a[20 + i] == h.reserved@[i]);
        assert(b[20 + i] == h2.reserved@[i]);
    }
    assert forall|i: int| 0 <= i < 20 implies h.info_hash@[i] == h2.info_hash@[i] by {
        assert(a[28 + i] == h.info_hash@[i]);
        assert(b[28 + i] == h2.info_hash@[i]);
    }
    assert forall|i: int| 0 <= i < 20 implies h.peer_id@[i] == h2.peer_id@[i] by {
        assert(a[48 + i] == h.peer_id@[i]);
        assert(b[48 + i] == h2.peer_id@[i]);
    }
    assert(h.prot =~= h2.prot);
    assert(h.reserved =~= h2.reserved);
    assert(h.info_hash =~= h2.info_hash);
    assert(h.peer_id =~= h2.peer_id);
}

/// The ID of a message, included as a prefix in every message except the
/// handshake and keep-alive.
#[derive(Copy, Clone, Debug, PartialEq, Eq, Structural)]
pub enum MessageId {
    Choke,
    Unchoke,
    Interested,
    NotInterested,
    Have,
    Bitfield,
    Request,
    Block,
    Cancel,
}

impl MessageId {
    /// The byte carrying this id on the wire.
    pub open spec fn spec_byte(self) -> u8 {
        match self {
            MessageId::Choke => 0,
            MessageId::Unchoke => 1,
            MessageId::Interested => 2,
            MessageId::NotInterested => 3,
            MessageId::Have => 4,
            MessageId::Bitfield => 5,
            MessageId::Request => 6,
            MessageId::Block => 7,
            MessageId::Cancel => 8,
        }
    }

    /// The byte carrying this id on the wire.
    pub fn as_byte(&self) -> (r: u8)
        ensures
            r == self.spec_byte(),
    {
        match self {
            MessageId::Choke => 0,
            MessageId::Unchoke => 1,
            MessageId::Interested => 2,
            MessageId::NotInterested => 3,
            MessageId::Have => 4,
            MessageId::Bitfield => 5,
            MessageId::Request => 6,
            MessageId::Block => 7,
            MessageId::Cancel => 8,
        }
    }

    /// Reads a message id off its wire byte; an unknown byte is invalid
    /// input.
    pub fn from_byte(k: u8) -> (r: Result<MessageId, CodecError>)
        ensures
            r matches Ok(id) ==> id.spec_byte() == k,
            (r is Err) <==> k > 8,
            r matches Err(e) ==> e == CodecError::InvalidInput,
    {
        match k {
            0 => Ok(MessageId::Choke),
            1 => Ok(MessageId::Unchoke),
            2 => Ok(MessageId::Interested),
            3 => Ok(MessageId::NotInterested),
            4 => Ok(MessageId::Have),
            5 => Ok(MessageId::Bitfield),
            6 => Ok(MessageId::Request),
            7 => Ok(MessageId::Block),
            8 => Ok(MessageId::Cancel),
            _ => Err(CodecError::InvalidInput),
        }
    }

    /// Returns the length of the fixed message header for this message
    /// kind: the length prefix, the id byte, and the fixed fields that
    /// follow.
    pub fn header_len(&self) -> (r: u64)
        ensures
            r == match *self {
                MessageId::Choke => 5int,
                MessageId::Unchoke => 5int,
                MessageId::Interested => 5int,
                MessageId::NotInterested => 5int,
                MessageId::Have => 9int,
                MessageId::Bitfield => 5int,
                MessageId::Request => 17int,
                MessageId::Block => 13int,
                MessageId::Cancel => 17int,
            },
    {
        match self {
            MessageId::Choke => 4 + 1,
            MessageId::Unchoke => 4 + 1,
            MessageId::Interested => 4 + 1,
            MessageId::NotInterested => 4 + 1,
            MessageId::Have => 4 + 1 + 4,
            MessageId::Bitfield => 4 + 1,
            MessageId::Request => 4 + 1 + 3 * 4,
            MessageId::Block => 4 + 1 + 2 * 4,
            MessageId::Cancel => 4 + 1 + 3 * 4,
        }
    }
}

/// A message exchanged by peers after the handshake.
#[derive(Debug, Clone)]
pub enum Message {
    KeepAlive,
    Bitfield(Vec<u8>),
    Choke,
    Unchoke,
    Interested,
    NotInterested,
    Have { piece_index: usize },
    Request(BlockInfo),
    Block { piece_index: usize, offset: u32, data: BlockData },
    Cancel(BlockInfo),
}

impl PartialEq for Message {
    /// Two messages are equal when they are the same kind carrying the
    /// same values.
    fn eq(&self, other: &Self) -> (r: bool) {
        match (self, other) {
            (Message::KeepAlive, Message::KeepAlive) => true,
            (Message::Bitfield(a), Message::Bitfield(b)) => crate::byteseq::vec_u8_eq(a, b),
            (Message::Choke, Message::Choke) => true,
            (Message::Unchoke, Message::Unchoke) => true,
            (Message::Interested, Message::Interested) => true,
            (Message::NotInterested, Message::NotInterested) => true,
            (Message::Have { piece_index: a }, Message::Have { piece_index: b }) => a == b,
            (Message::Request(a), Message::Request(b)) => a == b,
            (
                Message::Block { piece_index: pa, offset: oa, data: da },
                Message::Block { piece_index: pb, offset: ob, data: db },
            ) => pa == pb && oa == ob && da == db,
            (Message::Cancel(a), Message::Cancel(b)) => a == b,
            _ => false,
        }
    }
}

impl vstd::std_specs::cmp::PartialEqSpecImpl for Message {
    open spec fn obeys_eq_spec() -> bool {
        true
    }

    open spec fn eq_spec(&self, other: &Self) -> bool {
        match (self, other) {
            (Message::KeepAlive, Message::KeepAlive) => true,
            (Message::Bitfield(a), Message::Bitfield(b)) => a@ == b@,
            (Message::Choke, Message::Choke) => true,
            (Message::Unchoke, Message::Unchoke) => true,
            (Message::Interested, Message::Interested) => true,
            (Message::NotInterested, Message::NotInterested) => true,
            (Message::Have { piece_index: a }, Message::Have { piece_index: b }) => a == b,
            (Message::Request(a), Message::Request(b)) => a == b,
            (
                Message::Block { piece_index: pa, offset: oa, data: da },
                Message::Block { piece_index: pb, offset: ob, data: db },
            ) => pa == pb && oa == ob && crate::blockinfo::spec_block_data_eq(da, db),
            (Message::Cancel(a), Message::Cancel(b)) => a == b,
            _ => false,
        }
    }
}

/// The mathematical value of a message: variable-length payloads appear
/// as byte sequences.
pub enum MessageView {
    KeepAlive,
    Bitfield(Seq<u8>),
    Choke,
    Unchoke,
    Interested,
    NotInterested,
    Have { piece_index: usize },
    Request(BlockInfo),
    Block { piece_index: usize, offset: u32, data: Seq<u8> },
    Cancel(BlockInfo),
}

impl View for Message {
    type V = MessageView;

    open spec fn view(&self) -> MessageView {
        match self {
            Message::KeepAlive => MessageView::KeepAlive,
            Message::Bitfield(b) => MessageView::Bitfield(b@),
            Message::Choke => MessageView::Choke,
            Message::Unchoke => MessageView::Unchoke,
            Message::Interested => MessageView::Interested,
            Message::NotInterested => MessageView::NotInterested,
            Message::Have { piece_index } => MessageView::Have { piece_index: *piece_index },
            Message::Request(b) => MessageView::Request(*b),
            Message::Block { piece_index, offset, data } => MessageView::Block {
                piece_index: *piece_index,
                offset: *offset,
                data: data.bytes(),
            },
            Message::Cancel(b) => MessageView::Cancel(*b),
        }
    }
}

/// Whether a message fits the wire format: indices fit the four-byte
/// fields and payloads leave their length prefixes representable.
pub open spec fn spec_message_wf(m: MessageView) -> bool {
    match m {
        MessageView::KeepAlive => true,
        MessageView::Bitfield(b) => 1 + b.len() <= u32::MAX,
        MessageView::Choke => true,
        MessageView::Unchoke => true,
        MessageView::Interested => true,
        MessageView::NotInterested => true,
        MessageView::Have { piece_index } => piece_index <= u32::MAX,
        MessageView::Request(b) => b.piece_index <= u32::MAX,
        MessageView::Block { piece_index, offset, data } => piece_index <= u32::MAX && 9
            + data.len() <= u32::MAX,
        MessageView::Cancel(b) => b.piece_index <= u32::MAX,
    }
}

/// The wire bytes of a message: a four-byte big-endian length prefix,
/// the id byte, and the payload.
pub open spec fn spec_message_bytes(m: MessageView) -> Seq<u8> {
    match m {
        MessageView::KeepAlive => spec_u32_be(0),
        MessageView::Choke => spec_u32_be(1) + seq![0u8],
        MessageView::Unchoke => spec_u32_be(1) + seq![1u8],
        MessageView::Interested => spec_u32_be(1) + seq![2u8],
        MessageView::NotInterested => spec_u32_be(1) + seq![3u8],
        MessageView::Have { piece_index } => spec_u32_be(5) + seq![4u8] + spec_u32_be(
            piece_index as u32,
        ),
        MessageView::Bitfield(b) => spec_u32_be((1 + b.len()) as u32) + seq![5u8] + b,
        MessageView::Request(b) => spec_u32_be(13) + seq![6u8] + spec_u32_be(b.piece_index as u32)
            + spec_u32_be(b.offset) + spec_u32_be(b.len),
        MessageView::Block { piece_index, offset, data } => spec_u32_be((9 + data.len()) as u32)
            + seq![7u8] + spec_u32_be(piece_index as u32) + spec_u32_be(offset) + data,
        MessageView::Cancel(b) => spec_u32_be(13) + seq![8u8] + spec_u32_be(b.piece_index as u32)
            + spec_u32_be(b.offset) + spec_u32_be(b.len),
    }
}

/// Decodes one whole frame (length prefix included): the message it
/// carries, or nothing when the frame violates the format.
pub open spec fn spec_decode_frame(frame: Seq<u8>) -> Option<MessageView> {
    if frame.len() < 4 {
        None
    } else {
        let plen = spec_be_u32(frame.take(4));
        if frame.len() != 4 + plen {
            None
        } else if plen == 0 {
            Some(MessageView::KeepAlive)
        } else {
            let id = frame[4];
            if id == 0 {
                if plen == 1 {
                    Some(MessageView::Choke)
                } else {
                    None
                }
            } else if id == 1 {
                if plen == 1 {
                    Some(MessageView::Unchoke)
                } else {
                    None
                }
            } else if id == 2 {
                if plen == 1 {
                    Some(MessageView::Interested)
                } else {
                    None
                }
            } else if id == 3 {
                if plen == 1 {
                    Some(MessageView::NotInterested)
                } else {
                    None
                }
            } else if id == 4 {
                if plen == 5 {
                    Some(
                        MessageView::Have {
                            piece_index: spec_be_u32(frame.subrange(5, 9)) as usize,
                        },
                    )
                } else {
                    None
                }
            } else if id == 5 {
                Some(MessageView::Bitfield(frame.skip(5)))
            } else if id == 6 {
                if plen == 13 {
                    Some(
                        MessageView::Request(
                            BlockInfo {
                                piece_index: spec_be_u32(frame.subrange(5, 9)) as usize,
                                offset: spec_be_u32(frame.subrange(9, 13)) as u32,
                                len: spec_be_u32(frame.subrange(13, 17)) as u32,
                            },
                        ),
                    )
                } else {
                    None
                }
            } else if id == 7 {
                if plen >= 9 {
                    Some(
                        MessageView::Block {
                            piece_index: spec_be_u32(frame.subrange(5, 9)) as usize,
                            offset: spec_be_u32(frame.subrange(9, 13)) as u32,
                            data: frame.skip(13),
                        },
                    )
                } else {
                    None
                }
            } else if id == 8 {
                if plen == 13 {
                    Some(
                        MessageView::Cancel(
                            BlockInfo {
                                piece_index: spec_be_u32(frame.subrange(5, 9)) as usize,
                                offset: spec_be_u32(frame.subrange(9, 13)) as u32,
                                len: spec_be_u32(frame.subrange(13, 17)) as u32,
                            },
                        ),
                    )
                } else {
                    None
                }
            } else {
                None
            }
        }
    }
}

impl Message {
    /// Returns the ID of the message, if it has one; the keep-alive has
    /// none.
    pub fn id(&self) -> (r: Option<MessageId>)
        ensures
            r == match self@ {
                MessageView::KeepAlive => Option::<MessageId>::None,
                MessageView::Bitfield(_) => Some(MessageId::Bitfield),
                MessageView::Choke => Some(MessageId::Choke),
                MessageView::Unchoke => Some(MessageId::Unchoke),
                MessageView::Interested => Some(MessageId::Interested),
                MessageView::NotInterested => Some(MessageId::NotInterested),
                MessageView::Have { .. } => Some(MessageId::Have),
                MessageView::Request(_) => Some(MessageId::Request),
                MessageView::Block { .. } => Some(MessageId::Block),
                MessageView::Cancel(_) => Some(MessageId::Cancel),
            },
    {
        match self {
            Message::KeepAlive => None,
            Message::Bitfield(_) => Some(MessageId::Bitfield),
            Message::Choke => Some(MessageId::Choke),
            Message::Unchoke => Some(MessageId::Unchoke),
            Message::Interested => Some(MessageId::Interested),
            Message::NotInterested => Some(MessageId::NotInterested),
            Message::Have { .. } => Some(MessageId::Have),
            Message::Request(_) => Some(MessageId::Request),
            Message::Block { .. } => Some(MessageId::Block),
            Message::Cancel(_) => Some(MessageId::Cancel),
        }
    }

    /// Returns the length of the message's protocol header: the whole
    /// message for the fixed-size kinds, the fixed header for the block
    /// message, and a single byte for a keep-alive.
    pub fn protocol_len(&self) -> (r: u64)
        ensures
            r == match self@ {
                MessageView::KeepAlive => 1int,
                MessageView::Choke => 5int,
                MessageView::Unchoke => 5int,
                MessageView::Interested => 5int,
                MessageView::NotInterested => 5int,
                MessageView::Have { .. } => 9int,
                MessageView::Bitfield(_) => 5int,
                MessageView::Request(_) => 17int,
                MessageView::Block { .. } => 13int,
                MessageView::Cancel(_) => 17int,
            },
    {
        match self.id() {
            Some(id) => id.header_len(),
            None => 1,
        }
    }
}

impl BlockInfo {
    /// Appends the block info's wire form — piece index, offset and
    /// length, each four bytes big-endian — to the buffer. A piece index
    /// too large for its four-byte field is invalid input.
    pub fn encode(&self, buf: &mut Vec<u8>) -> (r: Result<(), CodecError>)
        ensures
            (r is Err) <==> self.piece_index > u32::MAX,
            r is Err ==> final(buf)@ == old(buf)@,
            r is Ok ==> final(buf)@ == old(buf)@ + spec_u32_be(self.piece_index as u32)
                + spec_u32_be(self.offset) + spec_u32_be(self.len),
    {
        if self.piece_index > u32::MAX as usize {
            return Err(CodecError::InvalidInput);
        }
        push_u32_be(buf, self.piece_index as u32);
        push_u32_be(buf, self.offset);
        push_u32_be(buf, self.len);
        Ok(())
    }
}

/// The peer message codec: encodes messages onto a byte stream and
/// decodes them off it, one length-prefixed frame at a time.
pub struct PeerCodec;

impl PeerCodec {
    /// Appends the wire bytes of the message to the buffer.
    pub fn encode(&self, msg: &Message, buf: &mut Vec<u8>)
        requires
            spec_message_wf(msg@),
        ensures
            final(buf)@ == old(buf)@ + spec_message_bytes(msg@),
    {
        match msg {
            Message::KeepAlive => {
                push_u32_be(buf, 0);
            },
            Message::Choke => {
                push_u32_be(buf, 1);
                buf.push(0);
            },
            Message::Unchoke => {
                push_u32_be(buf, 1);
                buf.push(1);
            },
            Message::Interested => {
                push_u32_be(buf, 1);
                buf.push(2);
            },
            Message::NotInterested => {
                push_u32_be(buf, 1);
                buf.push(3);
            },
            Message::Have { piece_index } => {
                push_u32_be(buf, 5);
                buf.push(4);
                push_u32_be(buf, *piece_index as u32);
            },
            Message::Bitfield(bits) => {
                push_u32_be(buf, 1 + bits.len() as u32);
                buf.push(5);
                crate::byteseq::extend_bytes(buf, bits.as_slice());
            },
            Message::Request(b) => {
                push_u32_be(buf, 13);
                buf.push(6);
                push_u32_be(buf, b.piece_index as u32);
                push_u32_be(buf, b.offset);
                push_u32_be(buf, b.len);
            },
            Message::Block { piece_index, offset, data } => {
                let payload = data.as_vec();
                push_u32_be(buf, 9 + payload.len() as u32);
                buf.push(7);
                push_u32_be(buf, *piece_index as u32);
                push_u32_be(buf, *offset);
                crate::byteseq::extend_bytes(buf, payload.as_slice());
            },
            Message::Cancel(b) => {
                push_u32_be(buf, 13);
                buf.push(8);
                push_u32_be(buf, b.piece_index as u32);
                push_u32_be(buf, b.offset);
                push_u32_be(buf, b.len);
            },
        }
        proof {
            assert(buf@ =~= old(buf)@ + spec_message_bytes(msg@));
        }
    }

    /// Decodes one message off the front of the buffer.
    ///
    /// The four-byte length prefix is peeked at without being consumed:
    /// while the buffer holds less than the prefix and the frame it
    /// announces, nothing is consumed and more data is asked for. A
    /// complete frame is consumed whole; one whose bytes violate the
    /// format — an unknown id, or a payload length that contradicts its
    /// kind — is invalid input.
    pub fn decode(&self, buf: &mut Vec<u8>) -> (r: Result<Option<Message>, CodecError>)
        ensures
            old(buf)@.len() < 4 ==> r == Result::<Option<Message>, CodecError>::Ok(None)
                && final(buf)@ == old(buf)@,
            old(buf)@.len() >= 4 && old(buf)@.len() < 4 + spec_be_u32(old(buf)@.take(4)) ==> r
                == Result::<Option<Message>, CodecError>::Ok(None) && final(buf)@ == old(buf)@,
            old(buf)@.len() >= 4 + spec_be_u32(old(buf)@.take(4)) ==> {
                let frame_len = 4 + spec_be_u32(old(buf)@.take(4));
                let decoded = spec_decode_frame(old(buf)@.take(frame_len));
                match r {
                    Ok(Some(m)) => decoded == Some(m@) && final(buf)@ == old(buf)@.skip(frame_len),
                    Ok(None) => false,
                    Err(e) => decoded is None && e == CodecError::InvalidInput && final(buf)@
                        == old(buf)@,
                }
            },
    {
        let buf_len = buf.len();
        if buf_len < 4 {
            return Ok(None);
        }
        // peek at the length prefix without consuming it
        let plen_u32 = read_u32_be(buf, 0);
        if (buf_len as u64) < 4 + (plen_u32 as u64) {
            proof {
                assert(old(buf)@.len() < 4 + spec_be_u32(old(buf)@.take(4)));
            }
            return Ok(None);
        }
        let plen = plen_u32 as usize;
        let ghost frame_len = 4 + spec_be_u32(old(buf)@.take(4));
        let ghost frame = old(buf)@.take(frame_len);
        proof {
            assert(frame.len() == frame_len);
            assert(frame.take(4) =~= old(buf)@.take(4));
        }
        if plen == 0 {
            consume_front(buf, 4);
            proof {
                assert(final(buf)@ == old(buf)@.skip(frame_len));
            }
            return Ok(Some(Message::KeepAlive));
        }
        let id = buf[4];
        proof {
            assert(frame[4] == old(buf)@[4]);
        }
        if id == 0 || id == 1 || id == 2 || id == 3 {
            if plen != 1 {
                return Err(CodecError::InvalidInput);
            }
            consume_front(buf, 5);
            let m = if id == 0 {
                Message::Choke
            } else if id == 1 {
                Message::Unchoke
            } else if id == 2 {
                Message::Interested
            } else {
                Message::NotInterested
            };
            return Ok(Some(m));
        }
        if id == 4 {
            if plen != 5 {
                return Err(CodecError::InvalidInput);
            }
            let piece_index = read_u32_be(buf, 5);
            proof {
                assert(frame.subrange(5, 9) =~= old(buf)@.subrange(5, 9));
            }
            consume_front(buf, 9);
            return Ok(Some(Message::Have { piece_index: piece_index as usize }));
        }
        if id == 5 {
            let bits = copy_range(buf, 5, plen - 1);
            proof {
                assert(frame.skip(5) =~= old(buf)@.subrange(5, 4 + plen as int));
            }
            consume_front(buf, 4 + plen);
            return Ok(Some(Message::Bitfield(bits)));
        }
        if id == 6 || id == 8 {
            if plen != 13 {
                return Err(CodecError::InvalidInput);
            }
            let piece_index = read_u32_be(buf, 5);
            let offset = read_u32_be(buf, 9);
            let len = read_u32_be(buf, 13);
            proof {
                assert(frame.subrange(5, 9) =~= old(buf)@.subrange(5, 9));
                assert(frame.subrange(9, 13) =~= old(buf)@.subrange(9, 13));
                assert(frame.subrange(13, 17) =~= old(buf)@.subrange(13, 17));
            }
            consume_front(buf, 17);
            let b = BlockInfo { piece_index: piece_index as usize, offset, len };
            let m = if id == 6 {
                Message::Request(b)
            } else {
                Message::Cancel(b)
            };
            return Ok(Some(m));
        }
        if id == 7 {
            if plen < 9 {
                return Err(CodecError::InvalidInput);
            }
            let piece_index = read_u32_be(buf, 5);
            let offset = read_u32_be(buf, 9);
            let data = copy_range(buf, 13, plen - 9);
            proof {
                assert(frame.subrange(5, 9) =~= old(buf)@.subrange(5, 9));
                assert(frame.subrange(9, 13) =~= old(buf)@.subrange(9, 13));
                assert(frame.skip(13) =~= old(buf)@.subrange(13, 4 + plen as int));
            }
            consume_front(buf, 4 + plen);
            return Ok(
                Some(
                    Message::Block {
                        piece_index: piece_index as usize,
                        offset,
                        data: BlockData::Owned(data),
                    },
                ),
            );
        }
        Err(CodecError::InvalidInput)
    }
}

/// Encoding then decoding a message yields the message back: the frame
/// that `spec_message_bytes` lays out decodes to the same message value,
/// whatever else follows it in the stream.
pub proof fn lemma_message_round_trip(m: MessageView)
    requires
        spec_message_wf(m),
    ensures
        spec_message_bytes(m).len() == 4 + spec_be_u32(spec_message_bytes(m).take(4)),
        spec_decode_frame(spec_message_bytes(m)) == Some(m),
{
    let bytes = spec_message_bytes(m);
    crate::byteseq::lemma_u32_be_round_trip(spec_payload_len(m));
    assert(bytes.take(4) =~= spec_u32_be(spec_payload_len(m)));
    let plen = spec_be_u32(bytes.take(4));
    assert(plen == spec_payload_len(m));
    match m {
        MessageView::KeepAlive => {
            assert(bytes.len() == 4);
        },
        MessageView::Choke => {
            assert(bytes[4] == 0);
        },
        MessageView::Unchoke => {
            assert(bytes[4] == 1);
        },
        MessageView::Interested => {
            assert(bytes[4] == 2);
        },
        MessageView::NotInterested => {
            assert(bytes[4] == 3);
        },
        MessageView::Have { piece_index } => {
            assert(bytes[4] == 4);
            crate::byteseq::lemma_u32_be_round_trip(piece_index as u32);
            assert(bytes.subrange(5, 9) =~= spec_u32_be(piece_index as u32));
        },
        MessageView::Bitfield(b) => {
            assert(bytes[4] == 5);
            assert(bytes.skip(5) =~= b);
        },
        MessageView::Request(b) => {
            assert(bytes[4] == 6);
            crate::byteseq::lemma_u32_be_round_trip(b.piece_index as u32);
            crate::byteseq::lemma_u32_be_round_trip(b.offset);
            crate::byteseq::lemma_u32_be_round_trip(b.len);
            assert(bytes.subrange(5, 9) =~= spec_u32_be(b.piece_index as u32));
            assert(bytes.subrange(9, 13) =~= spec_u32_be(b.offset));
            assert(bytes.subrange(13, 17) =~= spec_u32_be(b.len));
        },
        MessageView::Block { piece_index, offset, data } => {
            assert(bytes[4] == 7);
            crate::byteseq::lemma_u32_be_round_trip(piece_index as u32);
            crate::byteseq::lemma_u32_be_round_trip(offset);
            assert(bytes.subrange(5, 9) =~= spec_u32_be(piece_index as u32));
            assert(bytes.subrange(9, 13) =~= spec_u32_be(offset));
            assert(bytes.skip(13) =~= data);
        },
        MessageView::Cancel(b) => {
            assert(bytes[4] == 8);
            crate::byteseq::lemma_u32_be_round_trip(b.piece_index as u32);
            crate::byteseq::lemma_u32_be_round_trip(b.offset);
            crate::byteseq::lemma_u32_be_round_trip(b.len);
            assert(bytes.subrange(5, 9) =~= spec_u32_be(b.piece_index as u32));
            assert(bytes.subrange(9, 13) =~= spec_u32_be(b.offset));
            assert(bytes.subrange(13, 17) =~= spec_u32_be(b.len));
        },
    }
}

/// The value of a message's four-byte length prefix: the byte count of
/// the id and payload that follow it.
pub open spec fn spec_payload_len(m: MessageView) -> u32 {
    match m {
        MessageView::KeepAlive => 0,
        MessageView::Choke => 1,
        MessageView::Unchoke => 1,
        MessageView::Interested => 1,
        MessageView::NotInterested => 1,
        MessageView::Have { .. } => 5,
        MessageView::Bitfield(b) => (1 + b.len()) as u32,
        MessageView::Request(_) => 13,
        MessageView::Block { piece_index, offset, data } => (9 + data.len()) as u32,
        MessageView::Cancel(_) => 13,
    }
}

} // verus!
