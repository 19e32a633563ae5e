//! Extended messages (tag 20): the extension handshake and peer exchange.
//!
//! The payload of an extended message is one sub-type byte followed by a
//! bencoded body.  Sub-type 0 is the extension handshake; the sub-type this
//! client advertises for peer exchange carries a dictionary whose `added`
//! entry is a compact peer list.  The bencode reading itself is done by the
//! `lava_torrent` crate behind a trusted wrapper; everything around it is
//! verified.
use vstd::prelude::*;

use crate::addr::{spec_compact_peers, parse_compact_peers, PeerAddr};
use crate::message::Error;
use crate::UT_PEX_EXTENDED_MSG_ID;

verus! {

/// The byte string under the `added` key of the first bencode element of a
/// peer-exchange body, if that element is a dictionary with such an entry.
/// The result is a function of the body bytes alone.
pub uninterp spec fn pex_added_of(raw: Seq<u8>) -> Option<Seq<u8>>;

/// Relies on `lava_torrent::bencode::BencodeElem::from_bytes` and on the
/// `Dictionary` variant of its result: parses the body and hands out the
/// byte string stored under `added`, or `None` when the body does not parse
/// to a dictionary with a string-valued `added` entry.
#[verifier::external_body]
fn pex_added(raw: &[u8]) -> (r: Option<Vec<u8>>)
    ensures
        match r {
            Some(v) => pex_added_of(raw@) == Some(v@),
            None => pex_added_of(raw@) is None,
        },
{
    match lava_torrent::bencode::BencodeElem::from_bytes(raw) {
        Ok(elems) => match elems.into_iter().next() {
            Some(lava_torrent::bencode::BencodeElem::Dictionary(mut d)) => match d.remove("added")
            {
                Some(lava_torrent::bencode::BencodeElem::Bytes(b)) => Some(b),
                Some(lava_torrent::bencode::BencodeElem::String(s)) => Some(s.into_bytes()),
                _ => None,
            },
            _ => None,
        },
        Err(_) => None,
    }
}

/// Addresses announced by a peer-exchange body: the compact peer list under
/// its `added` key, or nothing when the body has no such list.
pub open spec fn spec_pex_added_peers(raw: Seq<u8>) -> Seq<PeerAddr> {
    match pex_added_of(raw) {
        Some(b) => spec_compact_peers(b),
        None => Seq::empty(),
    }
}

/// A peer-exchange message: the addresses the peer announces as newly seen.
#[derive(Debug)]
pub struct UtPex {
    pub added: Vec<PeerAddr>,
}

/// An extended message, split by sub-type byte.
#[derive(Debug)]
pub enum Extended {
    /// Sub-type 0: the extension handshake, its bencoded body kept as bytes.
    Handshake(Vec<u8>),
    /// The peer-exchange sub-type this client advertises.
    UtPex(UtPex),
    /// Any other sub-type, passed through unread.
    Other(u8, Vec<u8>),
}

/// Mathematical shape of an [`Extended`] value.
pub enum ExtendedView {
    Handshake(Seq<u8>),
    UtPex(Seq<PeerAddr>),
    Other(u8, Seq<u8>),
}

impl View for Extended {
    type V = ExtendedView;

    open spec fn view(&self) -> ExtendedView {
        match self {
            Extended::Handshake(p) => ExtendedView::Handshake(p@),
            Extended::UtPex(px) => ExtendedView::UtPex(px.added@),
            Extended::Other(id, p) => ExtendedView::Other(*id, p@),
        }
    }
}

/// How an extended payload (after the tag byte) is read: the first byte picks
/// the sub-type, the rest is its body.
pub open spec fn spec_ext_decode(raw: Seq<u8>) -> Result<ExtendedView, Error> {
    if raw.len() == 0 {
        Err(Error::InvalidMsgLen)
    } else if raw[0] == 0u8 {
        Ok(ExtendedView::Handshake(raw.skip(1)))
    } else if raw[0] == UT_PEX_EXTENDED_MSG_ID {
        Ok(ExtendedView::UtPex(spec_pex_added_peers(raw.skip(1))))
    } else {
        Ok(ExtendedView::Other(raw[0], raw.skip(1)))
    }
}

/// The payload an extended message writes: sub-type byte then body.  A
/// received peer-exchange message is never written back, so its entry here is
/// only a placeholder.
pub open spec fn spec_ext_payload(e: ExtendedView) -> Seq<u8> {
    match e {
        ExtendedView::Handshake(p) => seq![0u8] + p,
        ExtendedView::UtPex(_) => seq![UT_PEX_EXTENDED_MSG_ID],
        ExtendedView::Other(id, p) => seq![id] + p,
    }
}

/// The bencoded body of this client's extension handshake: a dictionary that
/// advertises peer-exchange support under message id 1, `d1:md6:ut_pexi1eee`.
pub open spec fn spec_ext_handshake_payload() -> Seq<u8> {
    seq![
        0x64u8,
        0x31,
        0x3a,
        0x6d,
        0x64,
        0x36,
        0x3a,
        0x75,
        0x74,
        0x5f,
        0x70,
        0x65,
        0x78,
        0x69,
        0x31,
        0x65,
        0x65,
        0x65,
    ]
}

impl Extended {
    pub fn try_from_bytes(raw: &[u8]) -> (r: Result<Extended, Error>)
        ensures
            match r {
                Ok(e) => spec_ext_decode(raw@) == Ok::<_, Error>(e@),
                Err(err) => spec_ext_decode(raw@) == Err::<ExtendedView, Error>(err),
            },
    {
        if raw.len() == 0 {
            return Err(Error::InvalidMsgLen);
        }
        let id: u8 = raw[0];
        let rest = vstd::slice::slice_subrange(raw, 1, raw.len());
        if id == 0 {
            Ok(Extended::Handshake(vstd::slice::slice_to_vec(rest)))
        } else if id == UT_PEX_EXTENDED_MSG_ID {
            let added: Vec<PeerAddr> = match pex_added(rest) {
                Some(b) => parse_compact_peers(b.as_slice()),
                None => {
                    let v: Vec<PeerAddr> = Vec::new();
                    proof {
                        assert(v@ =~= Seq::<PeerAddr>::empty());
                    }
                    v
                },
            };
            Ok(Extended::UtPex(UtPex { added }))
        } else {
            Ok(Extended::Other(id, vstd::slice::slice_to_vec(rest)))
        }
    }

    /// Write the payload back.  A received peer-exchange message carries only
    /// its already-read addresses and cannot be re-encoded.
    pub fn bytes(&self) -> (r: Vec<u8>)
        requires
            !(self@ is UtPex),
        ensures
            r@ == spec_ext_payload(self@),
    {
        let mut r: Vec<u8> = Vec::new();
        match self {
            Extended::Handshake(p) => {
                r.push(0);
                crate::wire::push_slice(&mut r, p.as_slice());
            },
            Extended::UtPex(_) => {
                r.push(UT_PEX_EXTENDED_MSG_ID);
            },
            Extended::Other(id, p) => {
                r.push(*id);
                crate::wire::push_slice(&mut r, p.as_slice());
            },
        }
        proof {
            assert(r@ =~= spec_ext_payload(self@));
        }
        r
    }

    /// This client's extension handshake message.
    pub fn handshake() -> (r: Extended)
        ensures
            r@ == ExtendedView::Handshake(spec_ext_handshake_payload()),
    {
        let mut p: Vec<u8> = Vec::new();
        p.push(0x64);
        p.push(0x31);
        p.push(0x3a);
        p.push(0x6d);
        p.push(0x64);
        p.push(0x36);
        p.push(0x3a);
        p.push(0x75);
        p.push(0x74);
        p.push(0x5f);
        p.push(0x70);
        p.push(0x65);
        p.push(0x78);
        p.push(0x69);
        p.push(0x31);
        p.push(0x65);
        p.push(0x65);
        p.push(0x65);
        proof {
            assert(p@ =~= spec_ext_handshake_payload());
        }
        Extended::Handshake(p)
    }
}

} // verus!
