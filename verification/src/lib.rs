//! A BitTorrent peer-wire client core: the handshake and message codec, the
//! piece store that collects blocks and verifies completed pieces, the piece
//! queue that hands work to peer sessions, and the decision logic of those
//! sessions and of the peer dispatcher.
use vstd::prelude::*;

pub mod addr;
pub mod extended;
pub mod message;
pub mod peer_dispatch;
pub mod peer_proto;
pub mod piece;
pub mod piece_dispatch;
pub mod torrent_file;
pub mod wire;

verus! {

/// Size in bytes of one request/transfer block: the fixed sub-unit of a piece.
pub const BLOCK_SIZE: u32 = 16384;

/// Number of block requests a session keeps in flight towards one peer.
pub const PARALLEL_REQUEST_PER_PEER: usize = 4;

/// Extended-message id this client advertises for peer exchange.
pub const UT_PEX_EXTENDED_MSG_ID: u8 = 1;

} // verus!
