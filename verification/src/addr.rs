//! Peer addresses as plain values.
//!
//! The rest of the system only ever compares addresses, stores them in the
//! active-peer registry, and reads them out of compact peer-exchange payloads,
//! so an address is modelled as its numeric IP value plus a port.  An IPv4
//! address occupies the low 32 bits of `ip`.
use vstd::prelude::*;

use crate::wire::{u16_of_be, u32_of_be, u16_from_be, u32_from_be};

verus! {

/// A peer's address: numeric IP (IPv4 in the low 32 bits) and TCP port.
#[derive(Debug, Clone, Copy, PartialEq, Eq, Structural)]
pub struct PeerAddr {
    pub ip: u128,
    pub port: u16,
}

/// The addresses held in a compact peer list: six bytes per peer, four of
/// IPv4 address then two of port, both big-endian.  Trailing bytes that do
/// not fill a whole entry are ignored.
pub open spec fn spec_compact_peers(b: Seq<u8>) -> Seq<PeerAddr> {
    Seq::new(
        (b.len() / 6) as nat,
        |k: int|
            PeerAddr {
                ip: u32_of_be(b[6 * k], b[6 * k + 1], b[6 * k + 2], b[6 * k + 3]) as u128,
                port: u16_of_be(b[6 * k + 4], b[6 * k + 5]),
            },
    )
}

/// Read a compact peer list.
pub fn parse_compact_peers(b: &[u8]) -> (r: Vec<PeerAddr>)
    ensures
        r@ == spec_compact_peers(b@),
{
    let n: usize = b.len() / 6;
    proof {
        assert(b@.len() == 6 * (b@.len() / 6) + b@.len() % 6);
    }
    let mut r: Vec<PeerAddr> = Vec::new();
    let mut k: usize = 0;
    while k < n
        invariant
            k <= n,
            n == b@.len() / 6,
            6 * n <= b@.len() <= usize::MAX,
            r@.len() == k,
            forall|j: int| 0 <= j < k ==> r@[j] == spec_compact_peers(b@)[j],
        decreases n - k,
    {
        let base: usize = 6 * k;
        let ip: u32 = u32_from_be(b[base], b[base + 1], b[base + 2], b[base + 3]);
        let port: u16 = u16_from_be(b[base + 4], b[base + 5]);
        r.push(PeerAddr { ip: ip as u128, port });
        k = k + 1;
    }
    proof {
        assert(r@ =~= spec_compact_peers(b@));
    }
    r
}

} // verus!
