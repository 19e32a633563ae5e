//! One piece of the transferred content: its expected digest, its target
//! length, and the blocks received so far.
//!
//! A piece of `len` bytes is split into `ceil(len / BLOCK_SIZE)` blocks; all
//! blocks are `BLOCK_SIZE` bytes except possibly the last, which holds the
//! remainder.  Blocks are stored one slot per block index, so insertion order
//! never matters and duplicate receipt is detectable.  A piece counts as
//! complete exactly when every slot is filled and the SHA-1 digest of the
//! blocks, concatenated in index order, equals the expected digest.
use vstd::prelude::*;

use sha1::Digest;

use crate::BLOCK_SIZE;

verus! {

/// Why a received block was rejected.
#[derive(Debug, Clone, Copy, PartialEq, Eq, Structural)]
pub enum AddError {
    /// The offset is not a multiple of the block size.
    BlockAlignError,
    /// The offset names a block index past the end of the piece.
    BeginNotInRange,
    /// The data is longer than one block.
    BlockOversize,
    /// The addressed block was already received.
    BlockOverwrite,
}

/// Descriptor of one still-missing block: its byte offset and length.
#[derive(Debug, Clone, Copy, PartialEq, Eq, Structural)]
pub struct BlockParam {
    pub begin: u32,
    pub len: u32,
}

/// The SHA-1 digest of a byte sequence, a function of the bytes alone.
pub uninterp spec fn sha1_of(data: Seq<u8>) -> Seq<u8>;

/// Relies on `sha1::Sha1` (the RustCrypto `Digest` impl): returns the
/// 20-byte SHA-1 digest of the input.
#[verifier::external_body]
fn sha1_digest(data: &Vec<u8>) -> (r: [u8; 20])
    ensures
        r@ == sha1_of(data@),
{
    sha1::Sha1::digest(data.as_slice()).into()
}

/// Number of blocks of a piece of `len` bytes.
pub open spec fn spec_block_count(len: u32) -> int {
    len / BLOCK_SIZE + if len % BLOCK_SIZE == 0 {
        0int
    } else {
        1int
    }
}

/// Length of block `i` of a piece of `len` bytes: the remainder for the last
/// block when the piece does not divide evenly, a full block otherwise.
pub open spec fn spec_block_len(len: u32, i: int) -> u32 {
    if i == spec_block_count(len) - 1 && len % BLOCK_SIZE != 0 {
        (len % BLOCK_SIZE) as u32
    } else {
        BLOCK_SIZE
    }
}

/// Descriptor of block `i` of a piece of `len` bytes.
pub open spec fn spec_block_param(len: u32, i: int) -> BlockParam {
    BlockParam { begin: (i * BLOCK_SIZE) as u32, len: spec_block_len(len, i) }
}

/// Block offsets stay within the piece: block `i` starts strictly before
/// `len` ends.
pub proof fn lemma_block_begin_bound(len: u32, i: int)
    requires
        0 <= i < spec_block_count(len),
    ensures
        i * BLOCK_SIZE < len,
{
    assert(len == BLOCK_SIZE * (len / BLOCK_SIZE) + len % BLOCK_SIZE);
}

/// One piece: its position in the torrent, expected digest, length, the
/// blocks received so far, and whether it has been verified complete.
#[derive(Debug)]
pub struct Piece {
    pub index: usize,
    pub hash: [u8; 20],
    pub len: u32,
    pub complete: bool,
    pub blocks: Vec<Option<Vec<u8>>>,
}

impl Piece {
    /// Every block slot is filled.
    pub open spec fn all_received(self) -> bool {
        forall|i: int| 0 <= i < self.blocks@.len() ==> self.blocks@[i] is Some
    }

    /// The first `n` blocks, concatenated in index order.
    pub open spec fn assembled_upto(self, n: int) -> Seq<u8>
        decreases n,
    {
        if n <= 0 {
            Seq::empty()
        } else {
            self.assembled_upto(n - 1) + self.blocks@[n - 1]->Some_0@
        }
    }

    /// The whole piece, concatenated in index order.
    pub open spec fn assembled(self) -> Seq<u8> {
        self.assembled_upto(self.blocks@.len() as int)
    }

    /// The assembled bytes carry the expected digest.
    pub open spec fn hash_ok(self) -> bool {
        sha1_of(self.assembled()) == self.hash@
    }

    /// Well-formedness: one slot per block, and `complete` holds exactly of
    /// a non-empty piece whose every block arrived and whose digest matches.
    pub open spec fn wf(self) -> bool {
        &&& self.blocks@.len() == spec_block_count(self.len)
        &&& self.complete == (self.blocks@.len() > 0 && self.all_received() && self.hash_ok())
    }

    /// The still-missing blocks among the first `n`, in ascending order.
    pub open spec fn spec_unfinished_upto(self, n: int) -> Seq<BlockParam>
        decreases n,
    {
        if n <= 0 {
            Seq::empty()
        } else if self.blocks@[n - 1] is None {
            self.spec_unfinished_upto(n - 1).push(spec_block_param(self.len, n - 1))
        } else {
            self.spec_unfinished_upto(n - 1)
        }
    }

    /// All still-missing blocks, in ascending order.
    pub open spec fn spec_unfinished(self) -> Seq<BlockParam> {
        self.spec_unfinished_upto(self.blocks@.len() as int)
    }

    /// A fresh piece: nothing received, not complete.
    pub fn new(index: usize, hash: [u8; 20], len: u32) -> (r: Piece)
        ensures
            r.wf(),
            r.index == index,
            r.hash == hash,
            r.len == len,
            r.complete == false,
            r.blocks@.len() == spec_block_count(len),
            forall|i: int| 0 <= i < r.blocks@.len() ==> r.blocks@[i] is None,
    {
        let count: u32 = len / BLOCK_SIZE + if len % BLOCK_SIZE != 0 {
            1
        } else {
            0
        };
        let mut blocks: Vec<Option<Vec<u8>>> = Vec::new();
        let mut i: u32 = 0;
        while i < count
            invariant
                i <= count,
                blocks@.len() == i,
                forall|j: int| 0 <= j < i ==> blocks@[j] is None,
            decreases count - i,
        {
            blocks.push(None);
            i = i + 1;
        }
        Piece { index, hash, len, complete: false, blocks }
    }

    /// Descriptors of every block not yet received, in ascending index
    /// order, each with its offset and exact length.
    pub fn unfinished_blocks(&self) -> (r: Vec<BlockParam>)
        requires
            self.wf(),
        ensures
            r@ == self.spec_unfinished(),
    {
        let n: usize = self.blocks.len();
        let mut r: Vec<BlockParam> = Vec::new();
        let mut i: usize = 0;
        while i < n
            invariant
                i <= n,
                n == self.blocks@.len(),
                self.wf(),
                r@ == self.spec_unfinished_upto(i as int),
            decreases n - i,
        {
            if self.blocks[i].is_none() {
                proof {
                    lemma_block_begin_bound(self.len, i as int);
                }
                let begin: u32 = (i as u32) * BLOCK_SIZE;
                let blen: u32 = if i == n - 1 && self.len % BLOCK_SIZE != 0 {
                    self.len % BLOCK_SIZE
                } else {
                    BLOCK_SIZE
                };
                r.push(BlockParam { begin, len: blen });
            }
            i = i + 1;
        }
        r
    }

    /// Which error, if any, `add` answers for a block at offset `begin` of
    /// `blen` bytes, given the piece's current state.
    pub open spec fn spec_add_err(self, begin: u32, blen: int) -> Option<AddError> {
        if begin % BLOCK_SIZE != 0 {
            Some(AddError::BlockAlignError)
        } else if begin / BLOCK_SIZE >= self.blocks@.len() {
            Some(AddError::BeginNotInRange)
        } else if blen > BLOCK_SIZE {
            Some(AddError::BlockOversize)
        } else if self.blocks@[(begin / BLOCK_SIZE) as int] is Some {
            Some(AddError::BlockOverwrite)
        } else {
            None
        }
    }

    /// Record one received block.  The offset must be block-aligned, in
    /// range, the data at most one block long, and the slot still empty; a
    /// rejected block changes nothing.  After a successful insert the
    /// completeness of the piece is recomputed.
    pub fn add(&mut self, begin: u32, block: Vec<u8>) -> (r: Result<(), AddError>)
        requires
            old(self).wf(),
        ensures
            final(self).wf(),
            final(self).index == old(self).index,
            final(self).hash == old(self).hash,
            final(self).len == old(self).len,
            match old(self).spec_add_err(begin, block@.len() as int) {
                Some(e) => r == Err::<(), AddError>(e) && *final(self) == *old(self),
                None => r == Ok::<(), AddError>(()) && final(self).blocks@ == old(
                    self,
                ).blocks@.update(begin as int / BLOCK_SIZE as int, Some(block)),
            },
    {
        let block_index: u32 = begin / BLOCK_SIZE;
        if begin % BLOCK_SIZE != 0 {
            return Err(AddError::BlockAlignError);
        }
        if block_index as usize >= self.blocks.len() {
            return Err(AddError::BeginNotInRange);
        }
        if block.len() > BLOCK_SIZE as usize {
            return Err(AddError::BlockOversize);
        }
        if self.blocks[block_index as usize].is_some() {
            return Err(AddError::BlockOverwrite);
        }
        self.blocks[block_index as usize] = Some(block);
        let ghost mid = *self;
        self.update_complete();
        proof {
            lemma_assembled_depends_on_blocks(mid, *self, self.blocks@.len() as int);
        }
        Ok(())
    }

    /// Recompute `complete`: exactly when every slot of a non-empty piece is
    /// filled and the assembled bytes carry the expected digest.
    fn update_complete(&mut self)
        requires
            old(self).complete == false,
        ensures
            final(self).blocks@ == old(self).blocks@,
            final(self).index == old(self).index,
            final(self).hash == old(self).hash,
            final(self).len == old(self).len,
            final(self).complete == (old(self).blocks@.len() > 0 && old(self).all_received()
                && old(self).hash_ok()),
    {
        let n: usize = self.blocks.len();
        if n == 0 {
            return ;
        }
        let mut all: bool = true;
        let mut i: usize = 0;
        while i < n
            invariant
                i <= n,
                n == self.blocks@.len(),
                all <==> (forall|j: int| 0 <= j < i ==> self.blocks@[j] is Some),
            decreases n - i,
        {
            if self.blocks[i].is_none() {
                all = false;
            }
            i = i + 1;
        }
        if all {
            let mut data: Vec<u8> = Vec::new();
            let mut k: usize = 0;
            while k < n
                invariant
                    k <= n,
                    n == self.blocks@.len(),
                    self.all_received(),
                    data@ == self.assembled_upto(k as int),
                decreases n - k,
            {
                match &self.blocks[k] {
                    Some(b) => {
                        crate::wire::push_slice(&mut data, b.as_slice());
                    },
                    None => {
                        proof {
                            assert(false);
                        }
                    },
                }
                k = k + 1;
            }
            let digest = sha1_digest(&data);
            if eq20(&digest, &self.hash) {
                self.complete = true;
            }
        }
    }
}

/// Compare two 20-byte digests.
fn eq20(a: &[u8; 20], b: &[u8; 20]) -> (r: bool)
    ensures
        r <==> a@ == b@,
{
    let mut i: usize = 0;
    while i < 20
        invariant
            i <= 20,
            forall|j: int| 0 <= j < i ==> a@[j] == b@[j],
        decreases 20 - i,
    {
        if a[i] != b[i] {
            return false;
        }
        i = i + 1;
    }
    proof {
        assert(a@ =~= b@);
    }
    true
}

/// The assembled bytes are a function of the block slots alone.
proof fn lemma_assembled_depends_on_blocks(a: Piece, b: Piece, n: int)
    requires
        a.blocks@ == b.blocks@,
    ensures
        a.assembled_upto(n) == b.assembled_upto(n),
    decreases n,
{
    if n > 0 {
        lemma_assembled_depends_on_blocks(a, b, n - 1);
    }
}

/// On a freshly filled-in piece nothing is received yet: the missing-block
/// descriptors cover every block, in ascending order, with offsets at
/// multiples of the block size and the last length equal to the remainder
/// when there is one.
pub proof fn lemma_fresh_unfinished(p: Piece)
    requires
        p.wf(),
        forall|i: int| 0 <= i < p.blocks@.len() ==> p.blocks@[i] is None,
    ensures
        p.spec_unfinished().len() == spec_block_count(p.len),
        forall|k: int|
            0 <= k < spec_block_count(p.len) ==> p.spec_unfinished()[k] == spec_block_param(
                p.len,
                k,
            ),
{
    lemma_fresh_unfinished_upto(p, p.blocks@.len() as int);
}

proof fn lemma_fresh_unfinished_upto(p: Piece, n: int)
    requires
        0 <= n <= p.blocks@.len(),
        forall|i: int| 0 <= i < p.blocks@.len() ==> p.blocks@[i] is None,
    ensures
        p.spec_unfinished_upto(n).len() == n,
        forall|k: int| 0 <= k < n ==> p.spec_unfinished_upto(n)[k] == spec_block_param(p.len, k),
    decreases n,
{
    if n > 0 {
        lemma_fresh_unfinished_upto(p, n - 1);
    }
}

/// A piece is complete exactly when every block index was received and the
/// digest of the concatenation, in ascending index order, is the expected
/// one.
pub proof fn lemma_complete_iff(p: Piece)
    requires
        p.wf(),
        p.blocks@.len() > 0,
    ensures
        p.complete <==> (p.all_received() && sha1_of(p.assembled()) == p.hash@),
{
}

} // verus!
