//! Big-endian integer fields of the wire protocol: every multi-byte integer
//! on the wire is fixed-width big-endian.
use vstd::prelude::*;

verus! {

/// The value of four big-endian bytes.
pub open spec fn u32_of_be(b0: u8, b1: u8, b2: u8, b3: u8) -> u32 {
    ((b0 as u32) << 24) | ((b1 as u32) << 16) | ((b2 as u32) << 8) | (b3 as u32)
}

/// The four big-endian bytes of a 32-bit value, most significant first.
pub open spec fn be_of_u32(x: u32) -> Seq<u8> {
    seq![
        ((x >> 24) & 0xff) as u8,
        ((x >> 16) & 0xff) as u8,
        ((x >> 8) & 0xff) as u8,
        (x & 0xff) as u8,
    ]
}

/// The value of two big-endian bytes.
pub open spec fn u16_of_be(b0: u8, b1: u8) -> u16 {
    ((b0 as u16) << 8) | (b1 as u16)
}

/// The two big-endian bytes of a 16-bit value, most significant first.
pub open spec fn be_of_u16(x: u16) -> Seq<u8> {
    seq![((x >> 8) & 0xff) as u8, (x & 0xff) as u8]
}

pub fn u32_from_be(b0: u8, b1: u8, b2: u8, b3: u8) -> (r: u32)
    ensures
        r == u32_of_be(b0, b1, b2, b3),
{
    ((b0 as u32) << 24) | ((b1 as u32) << 16) | ((b2 as u32) << 8) | (b3 as u32)
}

pub fn u32_to_be(x: u32) -> (r: Vec<u8>)
    ensures
        r@ == be_of_u32(x),
{
    let mut r: Vec<u8> = Vec::new();
    r.push(((x >> 24) & 0xff) as u8);
    r.push(((x >> 16) & 0xff) as u8);
    r.push(((x >> 8) & 0xff) as u8);
    r.push((x & 0xff) as u8);
    proof {
        assert(r@ =~= be_of_u32(x));
    }
    r
}

pub fn u16_from_be(b0: u8, b1: u8) -> (r: u16)
    ensures
        r == u16_of_be(b0, b1),
{
    ((b0 as u16) << 8) | (b1 as u16)
}

pub fn u16_to_be(x: u16) -> (r: Vec<u8>)
    ensures
        r@ == be_of_u16(x),
{
    let mut r: Vec<u8> = Vec::new();
    r.push(((x >> 8) & 0xff) as u8);
    r.push((x & 0xff) as u8);
    proof {
        assert(r@ =~= be_of_u16(x));
    }
    r
}

/// Append all of `s` to `dst`.
pub fn push_slice(dst: &mut Vec<u8>, s: &[u8])
    ensures
        final(dst)@ == old(dst)@ + s@,
{
    let mut i: usize = 0;
    while i < s.len()
        invariant
            i <= s@.len(),
            dst@ == old(dst)@ + s@.take(i as int),
        decreases s@.len() - i,
    {
        dst.push(s[i]);
        proof {
            assert(old(dst)@ + s@.take(i + 1) =~= (old(dst)@ + s@.take(i as int)).push(
                s@[i as int],
            ));
        }
        i = i + 1;
    }
    proof {
        assert(old(dst)@ + s@.take(s@.len() as int) =~= old(dst)@ + s@);
    }
}

/// Copy a slice of exactly `N` bytes into an owned array.
pub fn to_array<const N: usize>(s: &[u8]) -> (r: [u8; N])
    requires
        s@.len() == N,
    ensures
        r@ == s@,
{
    let mut r: [u8; N] = vstd::array::array_fill_for_copy_types(0u8);
    let mut i: usize = 0;
    while i < N
        invariant
            i <= N,
            s@.len() == N,
            r@.len() == N,
            forall|j: int| 0 <= j < i ==> r@[j] == s@[j],
        decreases N - i,
    {
        r[i] = s[i];
        i = i + 1;
    }
    proof {
        assert(r@ =~= s@);
    }
    r
}

/// Reading back the four bytes of a value yields the value.
pub proof fn lemma_u32_be_round_trip(x: u32)
    ensures
        u32_of_be(
            be_of_u32(x)[0],
            be_of_u32(x)[1],
            be_of_u32(x)[2],
            be_of_u32(x)[3],
        ) == x,
{
    assert((((((x >> 24) & 0xff) as u8) as u32) << 24
        | ((((x >> 16) & 0xff) as u8) as u32) << 16
        | ((((x >> 8) & 0xff) as u8) as u32) << 8
        | (((x & 0xff) as u8) as u32)) == x) by (bit_vector);
}

/// Writing back the value of four bytes yields the same bytes.
pub proof fn lemma_be_u32_round_trip(b0: u8, b1: u8, b2: u8, b3: u8)
    ensures
        be_of_u32(u32_of_be(b0, b1, b2, b3)) =~= seq![b0, b1, b2, b3],
{
    let x = u32_of_be(b0, b1, b2, b3);
    assert(((((b0 as u32) << 24 | (b1 as u32) << 16 | (b2 as u32) << 8 | (b3 as u32)) >> 24)
        & 0xff) as u8 == b0) by (bit_vector);
    assert(((((b0 as u32) << 24 | (b1 as u32) << 16 | (b2 as u32) << 8 | (b3 as u32)) >> 16)
        & 0xff) as u8 == b1) by (bit_vector);
    assert(((((b0 as u32) << 24 | (b1 as u32) << 16 | (b2 as u32) << 8 | (b3 as u32)) >> 8)
        & 0xff) as u8 == b2) by (bit_vector);
    assert((((b0 as u32) << 24 | (b1 as u32) << 16 | (b2 as u32) << 8 | (b3 as u32))
        & 0xff) as u8 == b3) by (bit_vector);
}

/// Reading back the two bytes of a value yields the value.
pub proof fn lemma_u16_be_round_trip(x: u16)
    ensures
        u16_of_be(be_of_u16(x)[0], be_of_u16(x)[1]) == x,
{
    assert((((((x >> 8) & 0xff) as u8) as u16) << 8 | (((x & 0xff) as u8) as u16)) == x)
        by (bit_vector);
}

/// Writing back the value of two bytes yields the same bytes.
pub proof fn lemma_be_u16_round_trip(b0: u8, b1: u8)
    ensures
        be_of_u16(u16_of_be(b0, b1)) =~= seq![b0, b1],
{
    assert(((((b0 as u16) << 8 | (b1 as u16)) >> 8) & 0xff) as u8 == b0) by (bit_vector);
    assert((((b0 as u16) << 8 | (b1 as u16)) & 0xff) as u8 == b1) by (bit_vector);
}

} // verus!
