use get_torrent::addr::{parse_compact_peers, PeerAddr};
use get_torrent::extended::{Extended, UtPex};
use get_torrent::message::{Bitfield, Have, Piece as PieceMsg, Port};
use get_torrent::peer_dispatch::{
    batch_requests, expect_bitfield, route_message, wants_piece, ActivePeers, Routed,
    SessionError, State,
};
use get_torrent::peer_proto::Message;
use get_torrent::piece::Piece;
use get_torrent::piece_dispatch::PieceDispatch;
use get_torrent::torrent_file::{split_piece_hashes, Info, MetaInfo};
use get_torrent::BLOCK_SIZE;

use sha1::{Digest, Sha1};

#[test]
fn seeding_gives_every_piece_its_length_and_digest() {
    let hashes = vec![[1u8; 20], [2u8; 20], [3u8; 20]];
    let mut d = PieceDispatch::new(100, 250, hashes);
    assert_eq!(d.queue_len(), 3);
    assert_eq!(d.complete_len(), 0);

    let p0 = d.pop().unwrap();
    assert_eq!(p0.index, 0);
    assert_eq!(p0.hash, [1u8; 20]);
    assert_eq!(p0.len, 100);
    let p1 = d.pop().unwrap();
    assert_eq!(p1.index, 1);
    assert_eq!(p1.len, 100);
    let p2 = d.pop().unwrap();
    assert_eq!(p2.index, 2);
    assert_eq!(p2.hash, [3u8; 20]);
    assert_eq!(p2.len, 50);
    assert!(d.pop().is_none());
}

#[test]
fn seeding_exact_multiple_keeps_full_last_piece() {
    let mut d = PieceDispatch::new(100, 200, vec![[0u8; 20], [0u8; 20]]);
    d.pop().unwrap();
    let last = d.pop().unwrap();
    assert_eq!(last.len, 100);
}

#[test]
fn queue_is_fifo_and_conserves_pieces() {
    let hashes = vec![[0u8; 20], [1u8; 20], [2u8; 20]];
    let mut d = PieceDispatch::new(10, 30, hashes);

    // Consumers work the queue in turns; while one piece is in flight the
    // combined population is unchanged, and nothing is duplicated or lost.
    let mut seen = [0usize; 3];
    for _ in 0..3 {
        let in_flight = d.pop().unwrap();
        assert_eq!(d.queue_len() + d.complete_len() + 1, 3);
        seen[in_flight.index] += 1;
        d.push_back(in_flight);
        assert_eq!(d.queue_len() + d.complete_len(), 3);
    }
    assert_eq!(seen, [1, 1, 1]);
}

#[test]
fn finished_piece_sinks_exactly_once() {
    let data = vec![0x5au8; 64];
    let hash: [u8; 20] = Sha1::digest(&data).into();
    let mut d = PieceDispatch::new(64, 64, vec![hash]);

    let mut piece = d.pop().unwrap();
    piece.add(0, data).unwrap();
    assert!(piece.complete);
    d.push_complete(piece);

    assert_eq!(d.queue_len(), 0);
    assert_eq!(d.complete_len(), 1);
    assert!(d.pop().is_none());
}

#[test]
fn unadvertised_piece_returns_to_queue_unmodified() {
    let mut d = PieceDispatch::new(BLOCK_SIZE, BLOCK_SIZE as u64 * 2, vec![[5u8; 20], [6u8; 20]]);
    // The peer's bitfield has no bit set for piece 0.
    let bitfield = Bitfield::new(2);

    let piece = d.pop().unwrap();
    assert_eq!(piece.index, 0);
    assert!(!wants_piece(&bitfield, piece.index));
    // No request is built for it; it goes back as it came.
    d.push_back(piece);
    assert_eq!(d.queue_len(), 2);

    // It reappears unmodified, behind the piece that was next in line.
    let other = d.pop().unwrap();
    assert_eq!(other.index, 1);
    let back = d.pop().unwrap();
    assert_eq!(back.index, 0);
    assert_eq!(back.hash, [5u8; 20]);
    assert_eq!(back.len, BLOCK_SIZE);
    assert!(!back.complete);
    assert!(back.blocks.iter().all(|b| b.is_none()));
}

#[test]
fn stalled_batch_returns_partial_piece_and_unregisters_peer() {
    let addr = PeerAddr { ip: 0x7f000001, port: 6881 };
    let mut active = ActivePeers::new();
    assert!(active.insert(addr));

    let mut d = PieceDispatch::new(BLOCK_SIZE * 4, BLOCK_SIZE as u64 * 4, vec![[1u8; 20]]);
    let mut piece = d.pop().unwrap();

    // One batch of four requests is sent...
    let unfinished = piece.unfinished_blocks();
    let requests = batch_requests(piece.index as u32, &unfinished, 0);
    assert_eq!(requests.len(), 4);
    for (k, q) in requests.iter().enumerate() {
        assert_eq!(q.index, 0);
        assert_eq!(q.begin, k as u32 * BLOCK_SIZE);
        assert_eq!(q.len, BLOCK_SIZE);
    }

    // ...but only three blocks arrive before the timeout.
    for q in requests.iter().take(3) {
        piece.add(q.begin, vec![0xcd; q.len as usize]).unwrap();
    }

    // Timeout: unregister the address, return the piece, terminate.
    active.remove(&addr);
    d.push_back(piece);

    assert_eq!(active.len(), 0);
    assert!(!active.contains(&addr));
    assert_eq!(d.queue_len(), 1);
    let back = d.pop().unwrap();
    let recorded = back.blocks.iter().filter(|b| b.is_some()).count();
    assert_eq!(recorded, 3);
    assert!(back.blocks[3].is_none());
    assert!(!back.complete);
}

#[test]
fn active_peers_register_once_and_release() {
    let a = PeerAddr { ip: 1, port: 10 };
    let b = PeerAddr { ip: 2, port: 20 };
    let mut active = ActivePeers::new();
    assert!(active.insert(a));
    assert!(!active.insert(a), "a second session for the same address must not register");
    assert!(active.insert(b));
    assert_eq!(active.len(), 2);
    assert!(active.contains(&a));
    active.remove(&a);
    assert!(!active.contains(&a));
    assert!(active.contains(&b));
    assert_eq!(active.len(), 1);
    active.remove(&a);
    assert_eq!(active.len(), 1);
}

#[test]
fn receiver_routes_each_message_kind() {
    assert!(matches!(route_message(Message::Choke), Routed::SetChoke));
    assert!(matches!(route_message(Message::Unchoke), Routed::SetUnchoke));
    assert!(matches!(route_message(Message::Interested), Routed::Ignore));
    assert!(matches!(route_message(Message::KeepAlive), Routed::Ignore));
    assert!(matches!(
        route_message(Message::Have(Have { piece_index: 4 })),
        Routed::Ignore
    ));
    match route_message(Message::Piece(PieceMsg { index: 1, begin: 2, block: vec![3] })) {
        Routed::Block(p) => {
            assert_eq!(p.index, 1);
            assert_eq!(p.begin, 2);
            assert_eq!(p.block, vec![3]);
        }
        _ => panic!("expected block"),
    }
    match route_message(Message::Port(Port { listen_port: 6881 })) {
        Routed::DhtPort(p) => assert_eq!(p.listen_port, 6881),
        _ => panic!("expected port"),
    }
    let px = UtPex { added: vec![PeerAddr { ip: 5, port: 6 }] };
    match route_message(Message::Extended(Extended::UtPex(px))) {
        Routed::Peers(added) => assert_eq!(added, vec![PeerAddr { ip: 5, port: 6 }]),
        _ => panic!("expected peers"),
    }
    match route_message(Message::Unknown(vec![99])) {
        Routed::Unknown(raw) => assert_eq!(raw, vec![99]),
        _ => panic!("expected unknown"),
    }
}

#[test]
fn first_message_must_be_bitfield() {
    let bf = Bitfield::new(8);
    assert!(expect_bitfield(Message::Bitfield(bf)).is_ok());
    assert!(matches!(
        expect_bitfield(Message::Choke),
        Err(SessionError::BitfieldNotRecv)
    ));
}

#[test]
fn batch_requests_covers_tail_batches() {
    let p = Piece::new(0, [0u8; 20], BLOCK_SIZE * 5);
    let unfinished = p.unfinished_blocks();
    let first = batch_requests(0, &unfinished, 0);
    assert_eq!(first.len(), 4);
    let tail = batch_requests(0, &unfinished, 4);
    assert_eq!(tail.len(), 1);
    assert_eq!(tail[0].begin, BLOCK_SIZE * 4);
    let empty = batch_requests(0, &unfinished, 5);
    assert_eq!(empty.len(), 0);
}

#[test]
fn choke_states_compare() {
    assert_eq!(State::Choke, State::Choke);
    assert_ne!(State::Choke, State::Unchoke);
}

#[test]
fn compact_peer_lists_parse_whole_entries() {
    let bytes = [1u8, 2, 3, 4, 0x1a, 0xe1, 5, 6, 7, 8, 0, 80, 0xff];
    let peers = parse_compact_peers(&bytes);
    assert_eq!(peers.len(), 2);
    assert_eq!(peers[0], PeerAddr { ip: 0x01020304, port: 6881 });
    assert_eq!(peers[1], PeerAddr { ip: 0x05060708, port: 80 });
}

#[test]
fn piece_hash_splitting() {
    let mut flat = Vec::new();
    flat.extend_from_slice(&[1u8; 20]);
    flat.extend_from_slice(&[2u8; 20]);
    let hashes = split_piece_hashes(&flat).unwrap();
    assert_eq!(hashes.len(), 2);
    assert_eq!(hashes[0], [1u8; 20]);
    assert_eq!(hashes[1], [2u8; 20]);

    flat.push(9);
    assert!(split_piece_hashes(&flat).is_none());
}

#[test]
fn metainfo_holds_plain_values() {
    let meta = MetaInfo {
        announce: String::from("http://tracker.example/announce"),
        info: Info {
            piece_length: String::from("16384"),
            pieces: vec![0u8; 20],
            name: String::from("file.bin"),
            file_length: Some(String::from("16384")),
        },
        info_hash: [7u8; 20],
        comment: None,
        creation_date: Some(0),
        http_seeds: None,
    };
    assert_eq!(meta.info_hash, [7u8; 20]);
    assert_eq!(meta.info.pieces.len(), 20);
}
