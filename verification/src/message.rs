//! Typed peer-wire messages and their payload encodings.
//!
//! Each message type knows how to read itself from a raw payload (the bytes
//! after the 4-byte length prefix and, for most types, after the leading tag
//! byte) and how to write itself back.  Every decoder and encoder carries an
//! exact specification, so that the round trip between the two can be proved.
use vstd::prelude::*;

use crate::wire::{be_of_u16, be_of_u32, u16_of_be, u32_of_be, u16_from_be, u32_from_be};

verus! {

/// Error of the payload decoders: the payload has the wrong length for its
/// message type.
#[derive(Debug, Clone, Copy, PartialEq, Eq, Structural)]
pub enum Error {
    InvalidMsgLen,
}

/// A bit-per-piece map a peer sends once, indicating which pieces it serves.
/// Bits are most-significant-first within each byte.
#[derive(Debug)]
pub struct Bitfield {
    bitfield: Vec<u8>,
}

impl View for Bitfield {
    type V = Seq<u8>;

    closed spec fn view(&self) -> Seq<u8> {
        self.bitfield@
    }
}

/// Bit `n` of a bitfield, counting from the most significant bit of byte 0.
pub open spec fn spec_bit(bits: Seq<u8>, n: int) -> bool {
    (bits[n / 8] >> ((7 - (n % 8)) as u8)) & 1 == 1
}

/// What `Bitfield::get` returns: the addressed bit, or `None` past the end.
pub open spec fn spec_bit_lookup(bits: Seq<u8>, n: int) -> Option<bool> {
    if n / 8 < bits.len() {
        Some(spec_bit(bits, n))
    } else {
        None
    }
}

/// One byte with bit `bit` (most-significant-first) forced to `flag`.
pub open spec fn spec_set_bit(b: u8, bit: int, flag: bool) -> u8 {
    if flag {
        b | (0x80u8 >> (bit as u8))
    } else {
        b & !(0x80u8 >> (bit as u8))
    }
}

/// A bitfield payload is its raw bytes; an empty payload is rejected.
pub open spec fn spec_bitfield_decode(raw: Seq<u8>) -> Result<Seq<u8>, Error> {
    if raw.len() == 0 {
        Err(Error::InvalidMsgLen)
    } else {
        Ok(raw)
    }
}

impl Bitfield {
    /// An all-zero bitfield with room for `bit_cnt` bits.
    pub fn new(bit_cnt: u32) -> (r: Bitfield)
        ensures
            r@.len() == bit_cnt / 8 + if bit_cnt % 8 != 0 { 1int } else { 0int },
            forall|i: int| 0 <= i < r@.len() ==> r@[i] == 0u8,
    {
        let n: u32 = bit_cnt / 8 + if bit_cnt % 8 != 0 { 1 } else { 0 };
        let mut bits: Vec<u8> = Vec::new();
        let mut i: u32 = 0;
        while i < n
            invariant
                i <= n,
                bits@.len() == i,
                forall|j: int| 0 <= j < i ==> bits@[j] == 0u8,
            decreases n - i,
        {
            bits.push(0);
            i = i + 1;
        }
        Bitfield { bitfield: bits }
    }

    pub fn try_from_bytes(raw: &[u8]) -> (r: Result<Bitfield, Error>)
        ensures
            match r {
                Ok(b) => spec_bitfield_decode(raw@) == Ok::<Seq<u8>, Error>(b@),
                Err(e) => spec_bitfield_decode(raw@) == Err::<Seq<u8>, Error>(e),
            },
    {
        if raw.is_empty() {
            return Err(Error::InvalidMsgLen);
        }
        Ok(Bitfield { bitfield: vstd::slice::slice_to_vec(raw) })
    }

    /// The raw payload bytes of the bitfield.
    pub fn bytes(&self) -> (r: Vec<u8>)
        ensures
            r@ == self@,
    {
        vstd::slice::slice_to_vec(self.bitfield.as_slice())
    }

    /// Bit `n`, or `None` when `n` lies beyond the stored bytes.
    pub fn get(&self, n: usize) -> (r: Option<bool>)
        ensures
            r == spec_bit_lookup(self@, n as int),
    {
        let byte: usize = n / 8;
        let bit: usize = n % 8;
        if byte < self.bitfield.len() {
            let b: u8 = self.bitfield[byte];
            Some((b >> ((7 - bit) as u8)) & 1 == 1)
        } else {
            None
        }
    }

    /// Older name of [`Self::get`], kept for callers of the first revision.
    pub fn bit(&self, n: usize) -> (r: Option<bool>)
        ensures
            r == spec_bit_lookup(self@, n as int),
    {
        self.get(n)
    }

    /// Force bit `index` to `flag`; out-of-range indices leave the bitfield
    /// unchanged.
    pub fn set(&mut self, index: usize, flag: bool)
        ensures
            (index as int) / 8 < old(self)@.len() ==> final(self)@ == old(self)@.update(
                index as int / 8,
                spec_set_bit(old(self)@[index as int / 8], index as int % 8, flag),
            ),
            (index as int) / 8 >= old(self)@.len() ==> final(self)@ == old(self)@,
    {
        let byte: usize = index / 8;
        let bit: usize = index % 8;
        if byte < self.bitfield.len() {
            let m: u8 = 0x80u8 >> (bit as u8);
            let b: u8 = self.bitfield[byte];
            let nb: u8 = if flag {
                b | m
            } else {
                b & !m
            };
            self.bitfield[byte] = nb;
        }
    }
}

/// Announcement that the peer now serves one more piece.
#[derive(Debug, Clone, Copy, PartialEq, Eq, Structural)]
pub struct Have {
    pub piece_index: u32,
}

/// A have payload is exactly four big-endian bytes of piece index.
pub open spec fn spec_have_decode(raw: Seq<u8>) -> Result<Have, Error> {
    if raw.len() != 4 {
        Err(Error::InvalidMsgLen)
    } else {
        Ok(Have { piece_index: u32_of_be(raw[0], raw[1], raw[2], raw[3]) })
    }
}

impl Have {
    pub fn try_from_bytes(raw: &[u8]) -> (r: Result<Have, Error>)
        ensures
            r == spec_have_decode(raw@),
    {
        if raw.len() != 4 {
            return Err(Error::InvalidMsgLen);
        }
        Ok(Have { piece_index: u32_from_be(raw[0], raw[1], raw[2], raw[3]) })
    }

    pub fn bytes(&self) -> (r: [u8; 4])
        ensures
            r@ == be_of_u32(self.piece_index),
    {
        let x = self.piece_index;
        let mut r = [0u8; 4];
        r[0] = ((x >> 24) & 0xff) as u8;
        r[1] = ((x >> 16) & 0xff) as u8;
        r[2] = ((x >> 8) & 0xff) as u8;
        r[3] = (x & 0xff) as u8;
        proof {
            assert(r@ =~= be_of_u32(self.piece_index));
        }
        r
    }
}

/// Request for one block: piece index, byte offset within the piece, length.
#[derive(Debug, Clone, Copy, PartialEq, Eq, Structural)]
pub struct Request {
    pub index: u32,
    pub begin: u32,
    pub len: u32,
}

/// A request payload is three big-endian 32-bit fields.
pub open spec fn spec_request_decode(raw: Seq<u8>) -> Result<Request, Error> {
    if raw.len() != 12 {
        Err(Error::InvalidMsgLen)
    } else {
        Ok(Request {
            index: u32_of_be(raw[0], raw[1], raw[2], raw[3]),
            begin: u32_of_be(raw[4], raw[5], raw[6], raw[7]),
            len: u32_of_be(raw[8], raw[9], raw[10], raw[11]),
        })
    }
}

/// The twelve payload bytes of a request or cancel: three 32-bit fields.
pub open spec fn spec_triple_bytes(index: u32, begin: u32, len: u32) -> Seq<u8> {
    be_of_u32(index) + be_of_u32(begin) + be_of_u32(len)
}

impl Request {
    pub fn new(index: u32, begin: u32, len: u32) -> (r: Request)
        ensures
            r == (Request { index, begin, len }),
    {
        Request { index, begin, len }
    }

    pub fn try_from_bytes(raw: &[u8]) -> (r: Result<Request, Error>)
        ensures
            r == spec_request_decode(raw@),
    {
        if raw.len() != 12 {
            return Err(Error::InvalidMsgLen);
        }
        Ok(Request {
            index: u32_from_be(raw[0], raw[1], raw[2], raw[3]),
            begin: u32_from_be(raw[4], raw[5], raw[6], raw[7]),
            len: u32_from_be(raw[8], raw[9], raw[10], raw[11]),
        })
    }

    pub fn bytes(&self) -> (r: [u8; 12])
        ensures
            r@ == spec_triple_bytes(self.index, self.begin, self.len),
    {
        triple_bytes(self.index, self.begin, self.len)
    }
}

fn triple_bytes(index: u32, begin: u32, len: u32) -> (r: [u8; 12])
    ensures
        r@ == spec_triple_bytes(index, begin, len),
{
    let mut r = [0u8; 12];
    r[0] = ((index >> 24) & 0xff) as u8;
    r[1] = ((index >> 16) & 0xff) as u8;
    r[2] = ((index >> 8) & 0xff) as u8;
    r[3] = (index & 0xff) as u8;
    r[4] = ((begin >> 24) & 0xff) as u8;
    r[5] = ((begin >> 16) & 0xff) as u8;
    r[6] = ((begin >> 8) & 0xff) as u8;
    r[7] = (begin & 0xff) as u8;
    r[8] = ((len >> 24) & 0xff) as u8;
    r[9] = ((len >> 16) & 0xff) as u8;
    r[10] = ((len >> 8) & 0xff) as u8;
    r[11] = (len & 0xff) as u8;
    proof {
        assert(r@ =~= spec_triple_bytes(index, begin, len));
    }
    r
}

/// One received block: piece index, byte offset, and the block's bytes.
#[derive(Debug)]
pub struct Piece {
    pub index: u32,
    pub begin: u32,
    pub block: Vec<u8>,
}

/// A block payload is two 32-bit fields and at least zero further data bytes;
/// anything shorter than eight bytes is rejected.
pub open spec fn spec_piece_decode(raw: Seq<u8>) -> Result<(u32, u32, Seq<u8>), Error> {
    if raw.len() < 8 {
        Err(Error::InvalidMsgLen)
    } else {
        Ok(
            (
                u32_of_be(raw[0], raw[1], raw[2], raw[3]),
                u32_of_be(raw[4], raw[5], raw[6], raw[7]),
                raw.skip(8),
            ),
        )
    }
}

impl Piece {
    pub fn try_from_bytes(raw: &[u8]) -> (r: Result<Piece, Error>)
        ensures
            match r {
                Ok(p) => spec_piece_decode(raw@) == Ok::<_, Error>((p.index, p.begin, p.block@)),
                Err(e) => spec_piece_decode(raw@) is Err && e == spec_piece_decode(raw@)->Err_0,
            },
    {
        if raw.len() < 8 {
            return Err(Error::InvalidMsgLen);
        }
        let rest = vstd::slice::slice_subrange(raw, 8, raw.len());
        Ok(Piece {
            index: u32_from_be(raw[0], raw[1], raw[2], raw[3]),
            begin: u32_from_be(raw[4], raw[5], raw[6], raw[7]),
            block: vstd::slice::slice_to_vec(rest),
        })
    }

    pub fn bytes(&self) -> (r: Vec<u8>)
        ensures
            r@ == be_of_u32(self.index) + be_of_u32(self.begin) + self.block@,
    {
        let mut r = crate::wire::u32_to_be(self.index);
        let mut begin_bytes = crate::wire::u32_to_be(self.begin);
        r.append(&mut begin_bytes);
        let mut i: usize = 0;
        while i < self.block.len()
            invariant
                i <= self.block@.len(),
                r@ == be_of_u32(self.index) + be_of_u32(self.begin) + self.block@.take(i as int),
            decreases self.block@.len() - i,
        {
            r.push(self.block[i]);
            proof {
                assert(self.block@.take(i + 1) =~= self.block@.take(i as int).push(
                    self.block@[i as int],
                ));
                assert(r@ =~= be_of_u32(self.index) + be_of_u32(self.begin) + self.block@.take(
                    i + 1,
                ));
            }
            i = i + 1;
        }
        proof {
            assert(self.block@.take(self.block@.len() as int) =~= self.block@);
        }
        r
    }
}

/// Withdrawal of an earlier request; same fields as [`Request`].
#[derive(Debug, Clone, Copy, PartialEq, Eq, Structural)]
pub struct Cancel {
    pub index: u32,
    pub begin: u32,
    pub len: u32,
}

/// A cancel payload has the same form as a request payload.
pub open spec fn spec_cancel_decode(raw: Seq<u8>) -> Result<Cancel, Error> {
    if raw.len() != 12 {
        Err(Error::InvalidMsgLen)
    } else {
        Ok(Cancel {
            index: u32_of_be(raw[0], raw[1], raw[2], raw[3]),
            begin: u32_of_be(raw[4], raw[5], raw[6], raw[7]),
            len: u32_of_be(raw[8], raw[9], raw[10], raw[11]),
        })
    }
}

impl Cancel {
    pub fn try_from_bytes(raw: &[u8]) -> (r: Result<Cancel, Error>)
        ensures
            r == spec_cancel_decode(raw@),
    {
        if raw.len() != 12 {
            return Err(Error::InvalidMsgLen);
        }
        Ok(Cancel {
            index: u32_from_be(raw[0], raw[1], raw[2], raw[3]),
            begin: u32_from_be(raw[4], raw[5], raw[6], raw[7]),
            len: u32_from_be(raw[8], raw[9], raw[10], raw[11]),
        })
    }

    pub fn bytes(&self) -> (r: [u8; 12])
        ensures
            r@ == spec_triple_bytes(self.index, self.begin, self.len),
    {
        triple_bytes(self.index, self.begin, self.len)
    }
}

/// The listen port a peer announces for DHT bootstrapping.
#[derive(Debug, Clone, Copy, PartialEq, Eq, Structural)]
pub struct Port {
    pub listen_port: u16,
}

/// A port payload is exactly two big-endian bytes.
pub open spec fn spec_port_decode(raw: Seq<u8>) -> Result<Port, Error> {
    if raw.len() != 2 {
        Err(Error::InvalidMsgLen)
    } else {
        Ok(Port { listen_port: u16_of_be(raw[0], raw[1]) })
    }
}

impl Port {
    pub fn try_from_bytes(raw: &[u8]) -> (r: Result<Port, Error>)
        ensures
            r == spec_port_decode(raw@),
    {
        if raw.len() != 2 {
            return Err(Error::InvalidMsgLen);
        }
        Ok(Port { listen_port: u16_from_be(raw[0], raw[1]) })
    }

    pub fn bytes(&self) -> (r: [u8; 2])
        ensures
            r@ == be_of_u16(self.listen_port),
    {
        let x = self.listen_port;
        let mut r = [0u8; 2];
        r[0] = ((x >> 8) & 0xff) as u8;
        r[1] = (x & 0xff) as u8;
        proof {
            assert(r@ =~= be_of_u16(self.listen_port));
        }
        r
    }
}

} // verus!
