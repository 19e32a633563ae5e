//! The peer-wire codec: the 68-byte handshake and the length-prefixed,
//! type-tagged messages exchanged afterwards.
//!
//! Everything here is pure translation between typed values and bytes.  The
//! socket reads and writes around it live outside the library; they hand the
//! received bytes in and carry the produced bytes out.
use vstd::prelude::*;

use crate::extended::{spec_ext_decode, spec_ext_payload, Extended, ExtendedView};
use crate::message::{
    spec_bitfield_decode, spec_cancel_decode, spec_have_decode, spec_piece_decode,
    spec_port_decode, spec_request_decode, spec_triple_bytes, Bitfield, Cancel, Have, Port,
    Request,
};
use crate::message;
use crate::wire::{be_of_u16, be_of_u32, push_slice, to_array, u32_of_be, u32_to_be};

verus! {

/// The 19-byte protocol name that opens every handshake.
pub open spec fn spec_proto_name() -> Seq<u8> {
    seq![
        0x42u8,
        0x69,
        0x74,
        0x54,
        0x6f,
        0x72,
        0x72,
        0x65,
        0x6e,
        0x74,
        0x20,
        0x70,
        0x72,
        0x6f,
        0x74,
        0x6f,
        0x63,
        0x6f,
        0x6c,
    ]
}

/// The reserved bytes this client sends: bit 0x10 of byte 5 advertises the
/// extension protocol.
pub open spec fn spec_local_extensions() -> Seq<u8> {
    seq![0u8, 0, 0, 0, 0, 0x10, 0, 0]
}

fn proto_name() -> (r: Vec<u8>)
    ensures
        r@ == spec_proto_name(),
{
    let mut r: Vec<u8> = Vec::new();
    r.push(0x42);
    r.push(0x69);
    r.push(0x74);
    r.push(0x54);
    r.push(0x6f);
    r.push(0x72);
    r.push(0x72);
    r.push(0x65);
    r.push(0x6e);
    r.push(0x74);
    r.push(0x20);
    r.push(0x70);
    r.push(0x72);
    r.push(0x6f);
    r.push(0x74);
    r.push(0x6f);
    r.push(0x63);
    r.push(0x6f);
    r.push(0x6c);
    proof {
        assert(r@ =~= spec_proto_name());
    }
    r
}

/// The fixed 68-byte opening exchanged by both sides.
#[derive(Debug, Clone, Copy)]
pub struct Handshake {
    pub extensions: [u8; 8],
    pub info_hash: [u8; 20],
    pub peer_id: [u8; 20],
}

/// Mathematical shape of a [`Handshake`].
pub struct HandshakeView {
    pub extensions: Seq<u8>,
    pub info_hash: Seq<u8>,
    pub peer_id: Seq<u8>,
}

impl View for Handshake {
    type V = HandshakeView;

    open spec fn view(&self) -> HandshakeView {
        HandshakeView {
            extensions: self.extensions@,
            info_hash: self.info_hash@,
            peer_id: self.peer_id@,
        }
    }
}

#[derive(Debug, Clone, Copy, PartialEq, Eq, Structural)]
pub enum HandshakeError {
    InfoHashMismatchLen,
    PeerIdMismatchLen,
    PacketMismatchLen,
    FirstByteMismatchNineteen,
    ProtoNameMismatch,
}

/// The 68 bytes a handshake writes: length-19 marker, protocol name,
/// reserved bytes, info-hash, peer id.
pub open spec fn spec_hs_bytes(h: HandshakeView) -> Seq<u8> {
    seq![19u8] + spec_proto_name() + h.extensions + h.info_hash + h.peer_id
}

/// How 68 received bytes are read back, and which malformed openings are
/// rejected.
pub open spec fn spec_hs_decode(raw: Seq<u8>) -> Result<HandshakeView, HandshakeError> {
    if raw.len() != 68 {
        Err(HandshakeError::PacketMismatchLen)
    } else if raw[0] != 19u8 {
        Err(HandshakeError::FirstByteMismatchNineteen)
    } else if raw.subrange(1, 20) != spec_proto_name() {
        Err(HandshakeError::ProtoNameMismatch)
    } else {
        Ok(
            HandshakeView {
                extensions: raw.subrange(20, 28),
                info_hash: raw.subrange(28, 48),
                peer_id: raw.subrange(48, 68),
            },
        )
    }
}

impl Handshake {
    /// The handshake this client sends for the given content and identity.
    pub fn build(info_hash: &[u8], peer_id: &[u8]) -> (r: Result<Handshake, HandshakeError>)
        ensures
            match r {
                Ok(h) => info_hash@.len() == 20 && peer_id@.len() == 20 && h@.extensions
                    == spec_local_extensions() && h@.info_hash == info_hash@ && h@.peer_id
                    == peer_id@,
                Err(e) => if info_hash@.len() != 20 {
                    e == HandshakeError::InfoHashMismatchLen
                } else {
                    peer_id@.len() != 20 && e == HandshakeError::PeerIdMismatchLen
                },
            },
    {
        if info_hash.len() != 20 {
            return Err(HandshakeError::InfoHashMismatchLen);
        }
        if peer_id.len() != 20 {
            return Err(HandshakeError::PeerIdMismatchLen);
        }
        let mut ext: [u8; 8] = vstd::array::array_fill_for_copy_types(0u8);
        ext[5] = 0x10;
        proof {
            assert(ext@ =~= spec_local_extensions());
        }
        Ok(
            Handshake {
                extensions: ext,
                info_hash: to_array::<20>(info_hash),
                peer_id: to_array::<20>(peer_id),
            },
        )
    }

    /// The 68 bytes of this handshake.
    pub fn bytes(&self) -> (r: [u8; 68])
        ensures
            r@ == spec_hs_bytes(self@),
    {
        let mut b: Vec<u8> = Vec::new();
        b.push(19);
        let mut name = proto_name();
        b.append(&mut name);
        push_slice(&mut b, self.extensions.as_slice());
        push_slice(&mut b, self.info_hash.as_slice());
        push_slice(&mut b, self.peer_id.as_slice());
        to_array::<68>(b.as_slice())
    }

    /// Read a received handshake, rejecting malformed openings.
    pub fn from_bytes(bytes: &[u8]) -> (r: Result<Handshake, HandshakeError>)
        ensures
            match r {
                Ok(h) => spec_hs_decode(bytes@) == Ok::<HandshakeView, HandshakeError>(h@),
                Err(e) => spec_hs_decode(bytes@) == Err::<HandshakeView, HandshakeError>(e),
            },
    {
        if bytes.len() != 68 {
            return Err(HandshakeError::PacketMismatchLen);
        }
        if bytes[0] != 19 {
            return Err(HandshakeError::FirstByteMismatchNineteen);
        }
        let name = proto_name();
        let mut i: usize = 0;
        while i < 19
            invariant
                i <= 19,
                bytes@.len() == 68,
                bytes@[0] == 19u8,
                name@ == spec_proto_name(),
                forall|j: int| 0 <= j < i ==> bytes@[1 + j] == spec_proto_name()[j],
            decreases 19 - i,
        {
            if bytes[1 + i] != name[i] {
                proof {
                    assert(bytes@.subrange(1, 20)[i as int] != spec_proto_name()[i as int]);
                }
                return Err(HandshakeError::ProtoNameMismatch);
            }
            i = i + 1;
        }
        proof {
            assert(bytes@.subrange(1, 20) =~= spec_proto_name());
        }
        let r = Handshake {
            extensions: to_array::<8>(vstd::slice::slice_subrange(bytes, 20, 28)),
            info_hash: to_array::<20>(vstd::slice::slice_subrange(bytes, 28, 48)),
            peer_id: to_array::<20>(vstd::slice::slice_subrange(bytes, 48, 68)),
        };
        Ok(r)
    }

    /// Whether the peer's reserved bytes advertise the extension protocol.
    pub fn ut_pex_support(&self) -> (r: bool)
        ensures
            r == ((self@.extensions[5] & 0x10u8) > 0),
    {
        (self.extensions[5] & 0x10) > 0
    }
}

/// Writing a handshake and reading it back yields the same handshake.
pub proof fn lemma_handshake_round_trip(h: HandshakeView)
    requires
        h.extensions.len() == 8,
        h.info_hash.len() == 20,
        h.peer_id.len() == 20,
    ensures
        spec_hs_decode(spec_hs_bytes(h)) == Ok::<HandshakeView, HandshakeError>(h),
{
    let raw = spec_hs_bytes(h);
    assert(raw.subrange(1, 20) =~= spec_proto_name());
    assert(raw.subrange(20, 28) =~= h.extensions);
    assert(raw.subrange(28, 48) =~= h.info_hash);
    assert(raw.subrange(48, 68) =~= h.peer_id);
}

/// Errors of the handshake step.
#[derive(Debug, Clone, Copy, PartialEq, Eq, Structural)]
pub enum Error {
    /// The peer's opening was malformed.
    Handshake(HandshakeError),
    /// Both sides opened well-formed but name different content.
    PeerInfoHashNotEq,
    /// The peer closed the connection before answering.
    ConnectionClosed,
}

/// Errors of reading one message.
#[derive(Debug, Clone, Copy, PartialEq, Eq, Structural)]
pub enum RecvMsgError {
    Msg(MessageError),
    /// The peer closed the connection at a frame boundary.
    ConnectionClosed,
}

#[derive(Debug, Clone, Copy, PartialEq, Eq, Structural)]
pub enum MessageError {
    MsgError(message::Error),
}

/// Judge a peer's 68 reply bytes against the handshake this side sent: the
/// reply must be well formed and must name the same content.
pub fn check_peer_handshake(local_info_hash: &[u8; 20], reply: &[u8]) -> (r: Result<
    Handshake,
    Error,
>)
    ensures
        match r {
            Ok(h) => spec_hs_decode(reply@) == Ok::<HandshakeView, HandshakeError>(h@) && h@
                .info_hash == local_info_hash@,
            Err(e) => match e {
                Error::Handshake(he) => spec_hs_decode(reply@) == Err::<
                    HandshakeView,
                    HandshakeError,
                >(he),
                Error::PeerInfoHashNotEq => spec_hs_decode(reply@) is Ok && spec_hs_decode(
                    reply@,
                )->Ok_0.info_hash != local_info_hash@,
                Error::ConnectionClosed => false,
            },
        },
{
    let peer = match Handshake::from_bytes(reply) {
        Ok(h) => h,
        Err(e) => {
            return Err(Error::Handshake(e));
        },
    };
    let mut i: usize = 0;
    while i < 20
        invariant
            i <= 20,
            peer@.info_hash.len() == 20,
            spec_hs_decode(reply@) == Ok::<HandshakeView, HandshakeError>(peer@),
            forall|j: int| 0 <= j < i ==> peer@.info_hash[j] == local_info_hash@[j],
        decreases 20 - i,
    {
        if peer.info_hash[i] != local_info_hash[i] {
            return Err(Error::PeerInfoHashNotEq);
        }
        i = i + 1;
    }
    proof {
        assert(peer@.info_hash =~= local_info_hash@);
    }
    Ok(peer)
}

/// One peer-wire message, as read from a frame's payload.
#[derive(Debug)]
pub enum Message {
    Choke,
    Unchoke,
    Interested,
    NotInterested,
    Have(Have),
    Bitfield(Bitfield),
    Request(Request),
    Piece(message::Piece),
    Cancel(Cancel),
    Port(Port),
    Extended(Extended),
    /// A tag this client does not know; the whole payload is kept.
    Unknown(Vec<u8>),
    /// The empty frame.
    KeepAlive,
}

/// Mathematical shape of a [`Message`].
pub enum MessageView {
    Choke,
    Unchoke,
    Interested,
    NotInterested,
    Have(u32),
    Bitfield(Seq<u8>),
    Request(u32, u32, u32),
    Piece(u32, u32, Seq<u8>),
    Cancel(u32, u32, u32),
    Port(u16),
    Extended(ExtendedView),
    Unknown(Seq<u8>),
    KeepAlive,
}

impl View for Message {
    type V = MessageView;

    open spec fn view(&self) -> MessageView {
        match self {
            Message::Choke => MessageView::Choke,
            Message::Unchoke => MessageView::Unchoke,
            Message::Interested => MessageView::Interested,
            Message::NotInterested => MessageView::NotInterested,
            Message::Have(h) => MessageView::Have(h.piece_index),
            Message::Bitfield(b) => MessageView::Bitfield(b@),
            Message::Request(q) => MessageView::Request(q.index, q.begin, q.len),
            Message::Piece(p) => MessageView::Piece(p.index, p.begin, p.block@),
            Message::Cancel(c) => MessageView::Cancel(c.index, c.begin, c.len),
            Message::Port(p) => MessageView::Port(p.listen_port),
            Message::Extended(e) => MessageView::Extended(e@),
            Message::Unknown(raw) => MessageView::Unknown(raw@),
            Message::KeepAlive => MessageView::KeepAlive,
        }
    }
}

/// The payload a message writes: tag byte then type-specific bytes.  The
/// empty frame writes nothing and an unknown message writes itself back.
pub open spec fn spec_payload(m: MessageView) -> Seq<u8> {
    match m {
        MessageView::Choke => seq![0u8],
        MessageView::Unchoke => seq![1u8],
        MessageView::Interested => seq![2u8],
        MessageView::NotInterested => seq![3u8],
        MessageView::Have(i) => seq![4u8] + be_of_u32(i),
        MessageView::Bitfield(bits) => seq![5u8] + bits,
        MessageView::Request(i, b, l) => seq![6u8] + spec_triple_bytes(i, b, l),
        MessageView::Piece(i, b, d) => seq![7u8] + be_of_u32(i) + be_of_u32(b) + d,
        MessageView::Cancel(i, b, l) => seq![8u8] + spec_triple_bytes(i, b, l),
        MessageView::Port(p) => seq![9u8] + be_of_u16(p),
        MessageView::Extended(e) => seq![20u8] + spec_ext_payload(e),
        MessageView::Unknown(raw) => raw,
        MessageView::KeepAlive => Seq::empty(),
    }
}

/// How a frame's payload is read: the empty payload is the keep-alive, the
/// first byte picks the type, unknown tags are kept whole, and each typed
/// payload must have its type's length.
pub open spec fn spec_decode(raw: Seq<u8>) -> Result<MessageView, message::Error> {
    if raw.len() == 0 {
        Ok(MessageView::KeepAlive)
    } else {
        let tag = raw[0];
        let rest = raw.skip(1);
        if tag == 0u8 {
            Ok(MessageView::Choke)
        } else if tag == 1u8 {
            Ok(MessageView::Unchoke)
        } else if tag == 2u8 {
            Ok(MessageView::Interested)
        } else if tag == 3u8 {
            Ok(MessageView::NotInterested)
        } else if tag == 4u8 {
            match spec_have_decode(rest) {
                Ok(h) => Ok(MessageView::Have(h.piece_index)),
                Err(e) => Err(e),
            }
        } else if tag == 5u8 {
            match spec_bitfield_decode(rest) {
                Ok(bits) => Ok(MessageView::Bitfield(bits)),
                Err(e) => Err(e),
            }
        } else if tag == 6u8 {
            match spec_request_decode(rest) {
                Ok(q) => Ok(MessageView::Request(q.index, q.begin, q.len)),
                Err(e) => Err(e),
            }
        } else if tag == 7u8 {
            match spec_piece_decode(rest) {
                Ok((i, b, d)) => Ok(MessageView::Piece(i, b, d)),
                Err(e) => Err(e),
            }
        } else if tag == 8u8 {
            match spec_cancel_decode(rest) {
                Ok(c) => Ok(MessageView::Cancel(c.index, c.begin, c.len)),
                Err(e) => Err(e),
            }
        } else if tag == 9u8 {
            match spec_port_decode(rest) {
                Ok(p) => Ok(MessageView::Port(p.listen_port)),
                Err(e) => Err(e),
            }
        } else if tag == 20u8 {
            match spec_ext_decode(rest) {
                Ok(e) => Ok(MessageView::Extended(e)),
                Err(e) => Err(e),
            }
        } else {
            Ok(MessageView::Unknown(raw))
        }
    }
}

impl Message {
    /// Whether this message has a wire form.  Only a received peer-exchange
    /// message has none: it carries its addresses already parsed.
    pub open spec fn encodable(self) -> bool {
        match self {
            Message::Extended(e) => !(e@ is UtPex),
            _ => true,
        }
    }

    /// Read one frame's payload.
    pub fn try_from_bytes(raw: Vec<u8>) -> (r: Result<Message, MessageError>)
        ensures
            match r {
                Ok(m) => spec_decode(raw@) == Ok::<MessageView, message::Error>(m@),
                Err(e) => spec_decode(raw@) is Err && e == MessageError::MsgError(
                    spec_decode(raw@)->Err_0,
                ),
            },
    {
        if raw.len() == 0 {
            return Ok(Message::KeepAlive);
        }
        let tag: u8 = raw[0];
        let rest = vstd::slice::slice_subrange(raw.as_slice(), 1, raw.len());
        if tag == 0 {
            Ok(Message::Choke)
        } else if tag == 1 {
            Ok(Message::Unchoke)
        } else if tag == 2 {
            Ok(Message::Interested)
        } else if tag == 3 {
            Ok(Message::NotInterested)
        } else if tag == 4 {
            match Have::try_from_bytes(rest) {
                Ok(h) => Ok(Message::Have(h)),
                Err(e) => Err(MessageError::MsgError(e)),
            }
        } else if tag == 5 {
            match Bitfield::try_from_bytes(rest) {
                Ok(b) => Ok(Message::Bitfield(b)),
                Err(e) => Err(MessageError::MsgError(e)),
            }
        } else if tag == 6 {
            match Request::try_from_bytes(rest) {
                Ok(q) => Ok(Message::Request(q)),
                Err(e) => Err(MessageError::MsgError(e)),
            }
        } else if tag == 7 {
            match message::Piece::try_from_bytes(rest) {
                Ok(p) => Ok(Message::Piece(p)),
                Err(e) => Err(MessageError::MsgError(e)),
            }
        } else if tag == 8 {
            match Cancel::try_from_bytes(rest) {
                Ok(c) => Ok(Message::Cancel(c)),
                Err(e) => Err(MessageError::MsgError(e)),
            }
        } else if tag == 9 {
            match Port::try_from_bytes(rest) {
                Ok(p) => Ok(Message::Port(p)),
                Err(e) => Err(MessageError::MsgError(e)),
            }
        } else if tag == 20 {
            match Extended::try_from_bytes(rest) {
                Ok(e) => Ok(Message::Extended(e)),
                Err(e) => Err(MessageError::MsgError(e)),
            }
        } else {
            Ok(Message::Unknown(raw))
        }
    }

    /// Write this message's payload: tag byte then type-specific bytes.
    pub fn bytes(self) -> (r: Vec<u8>)
        requires
            self.encodable(),
        ensures
            r@ == spec_payload(self@),
    {
        let mut r: Vec<u8> = Vec::new();
        match self {
            Message::Choke => {
                r.push(0);
            },
            Message::Unchoke => {
                r.push(1);
            },
            Message::Interested => {
                r.push(2);
            },
            Message::NotInterested => {
                r.push(3);
            },
            Message::Have(h) => {
                r.push(4);
                let b = h.bytes();
                push_slice(&mut r, b.as_slice());
            },
            Message::Bitfield(b) => {
                r.push(5);
                let bytes = b.bytes();
                push_slice(&mut r, bytes.as_slice());
            },
            Message::Request(q) => {
                r.push(6);
                let b = q.bytes();
                push_slice(&mut r, b.as_slice());
            },
            Message::Piece(p) => {
                r.push(7);
                let b = p.bytes();
                push_slice(&mut r, b.as_slice());
            },
            Message::Cancel(c) => {
                r.push(8);
                let b = c.bytes();
                push_slice(&mut r, b.as_slice());
            },
            Message::Port(p) => {
                r.push(9);
                let b = p.bytes();
                push_slice(&mut r, b.as_slice());
            },
            Message::Extended(e) => {
                r.push(20);
                let b = e.bytes();
                push_slice(&mut r, b.as_slice());
            },
            Message::Unknown(raw) => {
                push_slice(&mut r, raw.as_slice());
            },
            Message::KeepAlive => {},
        }
        proof {
            assert(r@ =~= spec_payload(self@));
        }
        r
    }
}

/// The messages whose wire form reads back to the message itself.  A
/// received peer-exchange message has no wire form; an unknown payload reads
/// back to itself only when its first byte is no known tag; an empty
/// bitfield payload is rejected by the reader; and an extended sub-type
/// written as `Other` must not collide with the named sub-types.
pub open spec fn round_trippable(m: MessageView) -> bool {
    match m {
        MessageView::Bitfield(bits) => bits.len() > 0,
        MessageView::Extended(e) => match e {
            ExtendedView::Handshake(_) => true,
            ExtendedView::UtPex(_) => false,
            ExtendedView::Other(id, _) => id != 0u8 && id != crate::UT_PEX_EXTENDED_MSG_ID,
        },
        MessageView::Unknown(raw) => raw.len() > 0 && raw[0] > 9u8 && raw[0] != 20u8,
        _ => true,
    }
}

/// Round trip of the codec: writing any message with a wire form and reading
/// the produced payload back yields the original message.
pub proof fn lemma_message_round_trip(m: MessageView)
    requires
        round_trippable(m),
    ensures
        spec_decode(spec_payload(m)) == Ok::<MessageView, message::Error>(m),
{
    let raw = spec_payload(m);
    match m {
        MessageView::Choke => {},
        MessageView::Unchoke => {},
        MessageView::Interested => {},
        MessageView::NotInterested => {},
        MessageView::Have(i) => {
            let rest = raw.skip(1);
            assert(rest =~= be_of_u32(i));
            crate::wire::lemma_u32_be_round_trip(i);
        },
        MessageView::Bitfield(bits) => {
            assert(raw.skip(1) =~= bits);
        },
        MessageView::Request(i, b, l) => {
            let rest = raw.skip(1);
            assert(rest =~= spec_triple_bytes(i, b, l));
            lemma_triple_decode(i, b, l);
        },
        MessageView::Piece(i, b, d) => {
            let rest = raw.skip(1);
            assert(rest =~= be_of_u32(i) + be_of_u32(b) + d);
            assert(rest.skip(8) =~= d);
            crate::wire::lemma_u32_be_round_trip(i);
            crate::wire::lemma_u32_be_round_trip(b);
        },
        MessageView::Cancel(i, b, l) => {
            let rest = raw.skip(1);
            assert(rest =~= spec_triple_bytes(i, b, l));
            lemma_triple_decode(i, b, l);
        },
        MessageView::Port(p) => {
            let rest = raw.skip(1);
            assert(rest =~= be_of_u16(p));
            crate::wire::lemma_u16_be_round_trip(p);
        },
        MessageView::Extended(e) => {
            let rest = raw.skip(1);
            assert(rest =~= spec_ext_payload(e));
            match e {
                ExtendedView::Handshake(p) => {
                    assert(rest.skip(1) =~= p);
                },
                ExtendedView::UtPex(_) => {},
                ExtendedView::Other(id, p) => {
                    assert(rest.skip(1) =~= p);
                },
            }
        },
        MessageView::Unknown(_) => {},
        MessageView::KeepAlive => {},
    }
}

/// Reading the twelve bytes of a request or cancel body yields its fields.
proof fn lemma_triple_decode(i: u32, b: u32, l: u32)
    ensures
        ({
            let body = spec_triple_bytes(i, b, l);
            &&& body.len() == 12
            &&& u32_of_be(body[0], body[1], body[2], body[3]) == i
            &&& u32_of_be(body[4], body[5], body[6], body[7]) == b
            &&& u32_of_be(body[8], body[9], body[10], body[11]) == l
        }),
{
    let body = spec_triple_bytes(i, b, l);
    assert(body[0] == be_of_u32(i)[0] && body[1] == be_of_u32(i)[1] && body[2] == be_of_u32(i)[2]
        && body[3] == be_of_u32(i)[3]);
    assert(body[4] == be_of_u32(b)[0] && body[5] == be_of_u32(b)[1] && body[6] == be_of_u32(b)[2]
        && body[7] == be_of_u32(b)[3]);
    assert(body[8] == be_of_u32(l)[0] && body[9] == be_of_u32(l)[1] && body[10] == be_of_u32(l)[2]
        && body[11] == be_of_u32(l)[3]);
    crate::wire::lemma_u32_be_round_trip(i);
    crate::wire::lemma_u32_be_round_trip(b);
    crate::wire::lemma_u32_be_round_trip(l);
}

/// A whole frame: 4-byte big-endian payload length, then the payload.
pub open spec fn spec_frame(m: MessageView) -> Seq<u8> {
    be_of_u32(spec_payload(m).len() as u32) + spec_payload(m)
}

/// Write one message as a frame ready to be put on the wire.
pub fn encode_frame(msg: Message) -> (r: Vec<u8>)
    requires
        msg.encodable(),
        spec_payload(msg@).len() <= u32::MAX,
    ensures
        r@ == spec_frame(msg@),
{
    let p = msg.bytes();
    let mut r = u32_to_be(p.len() as u32);
    push_slice(&mut r, p.as_slice());
    r
}

} // verus!
