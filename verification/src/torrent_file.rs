//! Torrent metadata as plain values.
//!
//! Reading a metainfo file out of its bencode form is an outside concern;
//! these types hold what the rest of the system needs from it, and the
//! splitter below turns the flat `pieces` digest string into the per-piece
//! digests that seed the piece queue.
use vstd::prelude::*;

verus! {

/// The `info` dictionary of a metainfo file, reduced to what is used here.
#[derive(Debug)]
pub struct Info {
    pub piece_length: String,
    pub pieces: Vec<u8>,
    pub name: String,
    pub file_length: Option<String>,
}

/// A metainfo file: announce URL, the `info` dictionary, and the digest of
/// that dictionary's bencode form, which identifies the content.
#[derive(Debug)]
pub struct MetaInfo {
    pub announce: String,
    pub info: Info,
    pub info_hash: [u8; 20],
    pub comment: Option<String>,
    pub creation_date: Option<u64>,
    pub http_seeds: Option<Vec<String>>,
}

/// Split the flat `pieces` string of a metainfo file into 20-byte digests,
/// one per piece; a length that is no multiple of twenty is rejected.
pub fn split_piece_hashes(pieces: &[u8]) -> (r: Option<Vec<[u8; 20]>>)
    ensures
        match r {
            Some(v) => pieces@.len() % 20 == 0 && v@.len() == pieces@.len() / 20 && forall|k: int|
                0 <= k < v@.len() ==> v@[k]@ == pieces@.subrange(20 * k, 20 * k + 20),
            None => pieces@.len() % 20 != 0,
        },
{
    if pieces.len() % 20 != 0 {
        return None;
    }
    let n: usize = pieces.len() / 20;
    proof {
        assert(pieces@.len() == 20 * (pieces@.len() / 20) + pieces@.len() % 20);
    }
    let mut v: Vec<[u8; 20]> = Vec::new();
    let mut k: usize = 0;
    while k < n
        invariant
            k <= n,
            n == pieces@.len() / 20,
            20 * n <= pieces@.len() <= usize::MAX,
            v@.len() == k,
            forall|j: int| 0 <= j < k ==> v@[j]@ == pieces@.subrange(20 * j, 20 * j + 20),
        decreases n - k,
    {
        let h: [u8; 20] = crate::wire::to_array::<20>(
            vstd::slice::slice_subrange(pieces, 20 * k, 20 * k + 20),
        );
        v.push(h);
        k = k + 1;
    }
    Some(v)
}

} // verus!
