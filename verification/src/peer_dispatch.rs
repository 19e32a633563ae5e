//! The decision logic of the peer dispatcher and of one peer session.
//!
//! A session runs over a socket and so lives outside the library; every
//! choice it makes, though, is a pure function of what it received, and
//! those functions live here: the registry of active peer addresses with its
//! atomic check-and-insert, the routing of each received message, the
//! bitfield gate on popped pieces, and the planning of one batch of block
//! requests.
use vstd::prelude::*;

use crate::addr::PeerAddr;
use crate::message;
use crate::message::{spec_bit_lookup, Bitfield, Port, Request};
use crate::peer_proto::Message;
use crate::piece::BlockParam;
use crate::PARALLEL_REQUEST_PER_PEER;

verus! {

/// Choke state of one session: while choked, no requests may be issued.
#[derive(Debug, Clone, Copy, PartialEq, Eq, Structural)]
pub enum State {
    Choke,
    Unchoke,
}

/// Fatal session outcome raised by the session logic itself (transport and
/// protocol errors are wrapped where the socket lives).
#[derive(Debug, Clone, Copy, PartialEq, Eq, Structural)]
pub enum SessionError {
    /// The first message after the handshake was not a bitfield.
    BitfieldNotRecv,
}

/// The set of addresses with a live session, shared by all sessions.
pub struct ActivePeers {
    peers: Vec<PeerAddr>,
}

impl ActivePeers {
    /// The registered addresses.
    pub closed spec fn spec_peers(self) -> Seq<PeerAddr> {
        self.peers@
    }

    /// No address is registered twice.
    pub open spec fn wf(self) -> bool {
        forall|i: int, j: int|
            0 <= i < j < self.spec_peers().len() ==> self.spec_peers()[i] != self.spec_peers()[j]
    }

    pub fn new() -> (r: ActivePeers)
        ensures
            r.wf(),
            r.spec_peers().len() == 0,
    {
        ActivePeers { peers: Vec::new() }
    }

    /// Whether `addr` has a live session.
    pub fn contains(&self, addr: &PeerAddr) -> (r: bool)
        ensures
            r == self.spec_peers().contains(*addr),
    {
        let mut i: usize = 0;
        while i < self.peers.len()
            invariant
                i <= self.spec_peers().len(),
                forall|j: int| 0 <= j < i ==> self.spec_peers()[j] != *addr,
            decreases self.spec_peers().len() - i,
        {
            if self.peers[i] == *addr {
                proof {
                    assert(self.spec_peers()[i as int] == *addr);
                }
                return true;
            }
            i = i + 1;
        }
        false
    }

    /// Register `addr` unless it is already present: the check and the
    /// insertion are one operation, so two sessions for one address can
    /// never both register.  Returns whether the address was inserted.
    pub fn insert(&mut self, addr: PeerAddr) -> (r: bool)
        requires
            old(self).wf(),
        ensures
            final(self).wf(),
            r == !old(self).spec_peers().contains(addr),
            r ==> final(self).spec_peers() == old(self).spec_peers().push(addr),
            !r ==> final(self).spec_peers() == old(self).spec_peers(),
            final(self).spec_peers().contains(addr),
    {
        if self.contains(&addr) {
            false
        } else {
            proof {
                assert forall|i: int|
                    0 <= i < self.spec_peers().len() implies self.spec_peers()[i] != addr by {
                    if self.spec_peers()[i] == addr {
                        assert(self.spec_peers().contains(addr));
                    }
                }
            }
            self.peers.push(addr);
            proof {
                assert(self.spec_peers()[self.spec_peers().len() - 1] == addr);
            }
            true
        }
    }

    /// Drop `addr` from the registry; absent addresses are left alone.
    pub fn remove(&mut self, addr: &PeerAddr)
        requires
            old(self).wf(),
        ensures
            final(self).wf(),
            !final(self).spec_peers().contains(*addr),
            forall|x: PeerAddr|
                x != *addr ==> final(self).spec_peers().contains(x) == old(
                    self,
                ).spec_peers().contains(x),
            old(self).spec_peers().contains(*addr) ==> final(self).spec_peers().len() == old(
                self,
            ).spec_peers().len() - 1,
            !old(self).spec_peers().contains(*addr) ==> final(self).spec_peers() == old(
                self,
            ).spec_peers(),
    {
        let ghost pre = self.spec_peers();
        let mut i: usize = 0;
        while i < self.peers.len()
            invariant
                i <= self.spec_peers().len(),
                self.spec_peers() == pre,
                old(self).wf(),
                pre == old(self).spec_peers(),
                forall|j: int| 0 <= j < i ==> self.spec_peers()[j] != *addr,
            decreases self.spec_peers().len() - i,
        {
            if self.peers[i] == *addr {
                proof {
                    assert(pre[i as int] == *addr);
                    assert(pre.contains(*addr));
                }
                self.peers.remove(i);
                proof {
                    lemma_remove_at(pre, *addr, i as int, self.spec_peers());
                }
                return ;
            }
            i = i + 1;
        }
        proof {
            if pre.contains(*addr) {
                let j = choose|j: int| 0 <= j < pre.len() && pre[j] == *addr;
                assert(false);
            }
        }
    }

    /// How many sessions are live.
    pub fn len(&self) -> (r: usize)
        ensures
            r == self.spec_peers().len(),
    {
        self.peers.len()
    }
}

/// Removing position `i` (holding `addr`) from a duplicate-free sequence
/// removes the address entirely and leaves every other address's membership
/// alone.
proof fn lemma_remove_at(pre: Seq<PeerAddr>, addr: PeerAddr, i: int, post: Seq<PeerAddr>)
    requires
        0 <= i < pre.len(),
        pre[i] == addr,
        forall|a: int, b: int| 0 <= a < b < pre.len() ==> pre[a] != pre[b],
        post == pre.remove(i),
    ensures
        post.len() == pre.len() - 1,
        forall|a: int, b: int| 0 <= a < b < post.len() ==> post[a] != post[b],
        !post.contains(addr),
        forall|x: PeerAddr| x != addr ==> post.contains(x) == pre.contains(x),
{
    pre.remove_ensures(i);
    assert forall|a: int, b: int| 0 <= a < b < post.len() implies post[a] != post[b] by {
        assert(post[a] == if a < i {
            pre[a]
        } else {
            pre[a + 1]
        });
        assert(post[b] == if b < i {
            pre[b]
        } else {
            pre[b + 1]
        });
    }
    assert forall|k: int| 0 <= k < post.len() implies post[k] != addr by {
        assert(post[k] == if k < i {
            pre[k]
        } else {
            pre[k + 1]
        });
    }
    if post.contains(addr) {
        let k = choose|k: int| 0 <= k < post.len() && post[k] == addr;
        assert(false);
    }
    assert forall|x: PeerAddr| x != addr implies post.contains(x) == pre.contains(x) by {
        if post.contains(x) {
            let k = choose|k: int| 0 <= k < post.len() && post[k] == x;
            assert(pre[if k < i {
                k
            } else {
                k + 1
            }] == x);
            assert(pre.contains(x));
        }
        if pre.contains(x) {
            let m = choose|m: int| 0 <= m < pre.len() && pre[m] == x;
            if m < i {
                assert(post[m] == x);
            } else {
                assert(post[m - 1] == x);
            }
            assert(post.contains(x));
        }
    }
}

/// Where the receiver sub-task sends each inbound message.
pub enum Routed {
    /// Record that the peer choked this side.
    SetChoke,
    /// Record the unchoke and wake the request loop.
    SetUnchoke,
    /// Hand the block to the request loop.
    Block(message::Piece),
    /// Hand the announced DHT port on to the DHT collaborator.
    DhtPort(Port),
    /// Feed peer-exchange discoveries back to the dispatcher.
    Peers(Vec<PeerAddr>),
    /// Log an unrecognized payload; never fatal.
    Unknown(Vec<u8>),
    /// Everything else asks for no action from the receiver.
    Ignore,
}

/// What the receiver does with `msg`.
pub open spec fn spec_route(msg: Message) -> Routed {
    match msg {
        Message::Choke => Routed::SetChoke,
        Message::Unchoke => Routed::SetUnchoke,
        Message::Piece(p) => Routed::Block(p),
        Message::Port(p) => Routed::DhtPort(p),
        Message::Extended(e) => match e {
            crate::extended::Extended::UtPex(px) => Routed::Peers(px.added),
            _ => Routed::Ignore,
        },
        Message::Unknown(raw) => Routed::Unknown(raw),
        _ => Routed::Ignore,
    }
}

/// Decide what the receiver sub-task does with one inbound message:
/// choke/unchoke updates, blocks to the request loop, ports to the DHT,
/// peer-exchange addresses back to the dispatcher, unknown payloads to the
/// log, everything else ignored.
pub fn route_message(msg: Message) -> (r: Routed)
    ensures
        r == spec_route(msg),
{
    match msg {
        Message::Choke => Routed::SetChoke,
        Message::Unchoke => Routed::SetUnchoke,
        Message::Piece(p) => Routed::Block(p),
        Message::Port(p) => Routed::DhtPort(p),
        Message::Extended(e) => match e {
            crate::extended::Extended::UtPex(px) => Routed::Peers(px.added),
            _ => Routed::Ignore,
        },
        Message::Unknown(raw) => Routed::Unknown(raw),
        _ => Routed::Ignore,
    }
}

/// The first message after the handshake must be the peer's bitfield.
pub fn expect_bitfield(msg: Message) -> (r: Result<Bitfield, SessionError>)
    ensures
        match r {
            Ok(bf) => msg is Bitfield && bf == msg->Bitfield_0,
            Err(e) => !(msg is Bitfield) && e == SessionError::BitfieldNotRecv,
        },
{
    match msg {
        Message::Bitfield(bf) => Ok(bf),
        _ => Err(SessionError::BitfieldNotRecv),
    }
}

/// Whether the peer's bitfield advertises piece `index`: only then may this
/// session work that piece, otherwise the piece goes back unchanged.
pub fn wants_piece(bitfield: &Bitfield, index: usize) -> (r: bool)
    ensures
        r == (spec_bit_lookup(bitfield@, index as int) == Some(true)),
{
    match bitfield.get(index) {
        Some(true) => true,
        _ => false,
    }
}

/// The requests of one batch: up to [`PARALLEL_REQUEST_PER_PEER`] of the
/// still-missing blocks starting at `start`, in ascending offset order.
pub fn batch_requests(piece_index: u32, unfinished: &Vec<BlockParam>, start: usize) -> (r: Vec<
    Request,
>)
    requires
        start <= unfinished@.len(),
    ensures
        r@.len() == if unfinished@.len() - start < PARALLEL_REQUEST_PER_PEER {
            unfinished@.len() - start
        } else {
            PARALLEL_REQUEST_PER_PEER as int
        },
        forall|k: int|
            0 <= k < r@.len() ==> r@[k] == (Request {
                index: piece_index,
                begin: unfinished@[start + k].begin,
                len: unfinished@[start + k].len,
            }),
{
    let mut r: Vec<Request> = Vec::new();
    let end: usize = if unfinished.len() - start < PARALLEL_REQUEST_PER_PEER {
        unfinished.len()
    } else {
        start + PARALLEL_REQUEST_PER_PEER
    };
    let mut i: usize = start;
    while i < end
        invariant
            start <= i <= end <= unfinished@.len(),
            r@.len() == i - start,
            forall|k: int|
                0 <= k < r@.len() ==> r@[k] == (Request {
                    index: piece_index,
                    begin: unfinished@[start + k].begin,
                    len: unfinished@[start + k].len,
                }),
        decreases end - i,
    {
        let b = unfinished[i];
        r.push(Request::new(piece_index, b.begin, b.len));
        i = i + 1;
    }
    r
}

} // verus!
