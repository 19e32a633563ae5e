use get_torrent::extended::Extended;
use get_torrent::message::{Bitfield, Cancel, Error, Have, Piece, Port, Request};
use get_torrent::peer_proto::{
    check_peer_handshake, encode_frame, Error as ProtoError, Handshake, HandshakeError, Message,
    MessageError,
};
use get_torrent::wire::{u16_from_be, u32_from_be, u32_to_be};

fn round_trip(msg: Message) -> Message {
    let payload = msg.bytes();
    Message::try_from_bytes(payload).unwrap()
}

#[test]
fn round_trip_plain_messages() {
    assert!(matches!(round_trip(Message::Choke), Message::Choke));
    assert!(matches!(round_trip(Message::Unchoke), Message::Unchoke));
    assert!(matches!(round_trip(Message::Interested), Message::Interested));
    assert!(matches!(round_trip(Message::NotInterested), Message::NotInterested));
    assert!(matches!(round_trip(Message::KeepAlive), Message::KeepAlive));
}

#[test]
fn round_trip_have() {
    match round_trip(Message::Have(Have { piece_index: 0xdeadbeef })) {
        Message::Have(h) => assert_eq!(h.piece_index, 0xdeadbeef),
        _ => panic!("expected have"),
    }
}

#[test]
fn round_trip_bitfield() {
    let bf = Bitfield::try_from_bytes(&[0b1010_0001, 0xff]).unwrap();
    match round_trip(Message::Bitfield(bf)) {
        Message::Bitfield(b) => assert_eq!(b.bytes(), vec![0b1010_0001, 0xff]),
        _ => panic!("expected bitfield"),
    }
}

#[test]
fn round_trip_request_and_cancel() {
    match round_trip(Message::Request(Request::new(1, 2, 3))) {
        Message::Request(q) => {
            assert_eq!(q.index, 1);
            assert_eq!(q.begin, 2);
            assert_eq!(q.len, 3);
        }
        _ => panic!("expected request"),
    }
    match round_trip(Message::Cancel(Cancel { index: 9, begin: 8, len: 7 })) {
        Message::Cancel(c) => {
            assert_eq!(c.index, 9);
            assert_eq!(c.begin, 8);
            assert_eq!(c.len, 7);
        }
        _ => panic!("expected cancel"),
    }
}

#[test]
fn round_trip_piece_block() {
    let msg = Message::Piece(Piece { index: 4, begin: 16384, block: vec![1, 2, 3, 4, 5] });
    match round_trip(msg) {
        Message::Piece(p) => {
            assert_eq!(p.index, 4);
            assert_eq!(p.begin, 16384);
            assert_eq!(p.block, vec![1, 2, 3, 4, 5]);
        }
        _ => panic!("expected piece"),
    }
}

#[test]
fn round_trip_port() {
    match round_trip(Message::Port(Port { listen_port: 6881 })) {
        Message::Port(p) => assert_eq!(p.listen_port, 6881),
        _ => panic!("expected port"),
    }
}

#[test]
fn round_trip_extension_handshake() {
    match round_trip(Message::Extended(Extended::handshake())) {
        Message::Extended(Extended::Handshake(p)) => {
            assert_eq!(p, b"d1:md6:ut_pexi1eee".to_vec());
        }
        _ => panic!("expected extension handshake"),
    }
}

#[test]
fn round_trip_unknown_and_extended_other() {
    match round_trip(Message::Unknown(vec![42, 1, 2])) {
        Message::Unknown(raw) => assert_eq!(raw, vec![42, 1, 2]),
        _ => panic!("expected unknown"),
    }
    match round_trip(Message::Extended(Extended::Other(9, vec![5, 6]))) {
        Message::Extended(Extended::Other(id, p)) => {
            assert_eq!(id, 9);
            assert_eq!(p, vec![5, 6]);
        }
        _ => panic!("expected extended other"),
    }
}

#[test]
fn decode_rejects_short_payloads() {
    let short_have = Message::try_from_bytes(vec![4, 1, 2]);
    assert!(matches!(short_have, Err(MessageError::MsgError(Error::InvalidMsgLen))));
    let empty_bitfield = Message::try_from_bytes(vec![5]);
    assert!(matches!(empty_bitfield, Err(MessageError::MsgError(Error::InvalidMsgLen))));
    let bad_request = Message::try_from_bytes(vec![6, 0, 0]);
    assert!(matches!(bad_request, Err(MessageError::MsgError(Error::InvalidMsgLen))));
    let bad_piece = Message::try_from_bytes(vec![7, 0, 0, 0, 0, 0, 0, 0]);
    assert!(matches!(bad_piece, Err(MessageError::MsgError(Error::InvalidMsgLen))));
    let bad_port = Message::try_from_bytes(vec![9, 1]);
    assert!(matches!(bad_port, Err(MessageError::MsgError(Error::InvalidMsgLen))));
    let empty_extended = Message::try_from_bytes(vec![20]);
    assert!(matches!(empty_extended, Err(MessageError::MsgError(Error::InvalidMsgLen))));
}

#[test]
fn pex_added_addresses_are_parsed() {
    // d5:added6:......e with one compact entry: 1.2.3.4:6969.
    let mut body = b"d5:added6:".to_vec();
    body.extend_from_slice(&[1, 2, 3, 4, 0x1b, 0x39]);
    body.push(b'e');
    let mut payload = vec![20u8, 1u8];
    payload.extend_from_slice(&body);
    match Message::try_from_bytes(payload).unwrap() {
        Message::Extended(Extended::UtPex(px)) => {
            assert_eq!(px.added.len(), 1);
            assert_eq!(px.added[0].ip, 0x01020304);
            assert_eq!(px.added[0].port, 6969);
        }
        _ => panic!("expected pex"),
    }
}

#[test]
fn pex_without_added_entry_yields_no_addresses() {
    let mut payload = vec![20u8, 1u8];
    payload.extend_from_slice(b"d1:xi1ee");
    match Message::try_from_bytes(payload).unwrap() {
        Message::Extended(Extended::UtPex(px)) => assert_eq!(px.added.len(), 0),
        _ => panic!("expected pex"),
    }
}

#[test]
fn frame_carries_length_prefix() {
    let frame = encode_frame(Message::Have(Have { piece_index: 1 }));
    assert_eq!(frame, vec![0, 0, 0, 5, 4, 0, 0, 0, 1]);
    let keep_alive = encode_frame(Message::KeepAlive);
    assert_eq!(keep_alive, vec![0, 0, 0, 0]);
}

#[test]
fn handshake_bytes_layout() {
    let hs = Handshake::build(&[7u8; 20], &[8u8; 20]).unwrap();
    let b = hs.bytes();
    assert_eq!(b.len(), 68);
    assert_eq!(b[0], 19);
    assert_eq!(&b[1..20], &b"BitTorrent protocol"[..]);
    assert_eq!(&b[20..28], &[0u8, 0, 0, 0, 0, 0x10, 0, 0][..]);
    assert_eq!(&b[28..48], &[7u8; 20][..]);
    assert_eq!(&b[48..68], &[8u8; 20][..]);
    assert!(hs.ut_pex_support());
}

#[test]
fn handshake_build_rejects_wrong_lengths() {
    assert!(matches!(
        Handshake::build(&[1u8; 19], &[2u8; 20]),
        Err(HandshakeError::InfoHashMismatchLen)
    ));
    assert!(matches!(
        Handshake::build(&[1u8; 20], &[2u8; 21]),
        Err(HandshakeError::PeerIdMismatchLen)
    ));
}

#[test]
fn handshake_from_bytes_round_trip_and_errors() {
    let hs = Handshake::build(&[7u8; 20], &[8u8; 20]).unwrap();
    let b = hs.bytes();
    let back = Handshake::from_bytes(&b).unwrap();
    assert_eq!(back.extensions, hs.extensions);
    assert_eq!(back.info_hash, hs.info_hash);
    assert_eq!(back.peer_id, hs.peer_id);

    assert!(matches!(
        Handshake::from_bytes(&[0u8; 67]),
        Err(HandshakeError::PacketMismatchLen)
    ));
    let mut wrong_first = b;
    wrong_first[0] = 18;
    assert!(matches!(
        Handshake::from_bytes(&wrong_first),
        Err(HandshakeError::FirstByteMismatchNineteen)
    ));
    let mut wrong_name = hs.bytes();
    wrong_name[1] = b'X';
    assert!(matches!(
        Handshake::from_bytes(&wrong_name),
        Err(HandshakeError::ProtoNameMismatch)
    ));
}

#[test]
fn malformed_reply_rejects_session() {
    let local = [1u8; 20];
    let r = check_peer_handshake(&local, &[0u8; 5]);
    assert!(matches!(
        r,
        Err(ProtoError::Handshake(HandshakeError::PacketMismatchLen))
    ));
}

#[test]
fn mismatched_info_hash_rejects_session() {
    let local = [1u8; 20];
    let peer = Handshake::build(&[2u8; 20], &[9u8; 20]).unwrap();
    let r = check_peer_handshake(&local, &peer.bytes());
    assert!(matches!(r, Err(ProtoError::PeerInfoHashNotEq)));

    let same = Handshake::build(&local, &[9u8; 20]).unwrap();
    let ok = check_peer_handshake(&local, &same.bytes()).unwrap();
    assert_eq!(ok.info_hash, local);
}

#[test]
fn bitfield_bits_and_set() {
    let mut bf = Bitfield::new(10);
    assert_eq!(bf.bytes().len(), 2);
    assert_eq!(bf.get(3), Some(false));
    bf.set(3, true);
    assert_eq!(bf.get(3), Some(true));
    assert_eq!(bf.bit(3), Some(true));
    bf.set(3, false);
    assert_eq!(bf.get(3), Some(false));
    assert_eq!(bf.get(16), None);

    let from_raw = Bitfield::try_from_bytes(&[0b1000_0010]).unwrap();
    assert_eq!(from_raw.get(0), Some(true));
    assert_eq!(from_raw.get(1), Some(false));
    assert_eq!(from_raw.get(6), Some(true));
    assert!(Bitfield::try_from_bytes(&[]).is_err());
}

#[test]
fn big_endian_helpers_round_trip() {
    assert_eq!(u32_to_be(0x01020304), vec![1, 2, 3, 4]);
    assert_eq!(u32_from_be(1, 2, 3, 4), 0x01020304);
    assert_eq!(u16_from_be(0x1b, 0x39), 6969);
}
