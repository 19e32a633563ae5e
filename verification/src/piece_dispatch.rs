//! The piece queue and the completed-piece sink.
//!
//! Sessions pop a piece, work it exclusively, and then either return it to
//! the queue or move it, verified, into the sink.  Holding a popped piece is
//! the only form of piece ownership, so the conservation law below — the
//! combined population of queue, sink and the piece in hand never changes —
//! is what keeps pieces from being lost or duplicated.
use vstd::prelude::*;

use vstd::multiset::Multiset;

use crate::piece::{spec_block_count, Piece};

verus! {

/// The piece indices of a sequence of pieces, as a multiset.
pub open spec fn index_ms(s: Seq<Piece>) -> Multiset<int> {
    s.map_values(|p: Piece| p.index as int).to_multiset()
}

/// Length of piece `i` when pieces are `piece_length` bytes and the content
/// is `total_length` bytes: every piece is full-length except the last,
/// which holds the remainder when the content does not divide evenly.
pub open spec fn spec_piece_len(piece_length: u32, total_length: u64, i: int) -> u32 {
    if i < total_length / (piece_length as u64) {
        piece_length
    } else {
        (total_length % (piece_length as u64)) as u32
    }
}

/// The queue of pieces still to fetch and the sink of verified pieces.
pub struct PieceDispatch {
    queue: Vec<Piece>,
    complete: Vec<Piece>,
}

impl PieceDispatch {
    /// The pieces waiting in the queue, front first.
    pub closed spec fn spec_queue(self) -> Seq<Piece> {
        self.queue@
    }

    /// The verified pieces, in arrival order.
    pub closed spec fn spec_complete(self) -> Seq<Piece> {
        self.complete@
    }

    /// The combined population, counted by piece index.
    pub open spec fn pieces_ms(self) -> Multiset<int> {
        index_ms(self.spec_queue()).add(index_ms(self.spec_complete()))
    }

    /// Every queued piece is well formed; every sunk piece is well formed
    /// and verified complete.
    pub open spec fn wf(self) -> bool {
        &&& forall|i: int| 0 <= i < self.spec_queue().len() ==> (#[trigger] self.spec_queue()[i]).wf()
        &&& forall|i: int|
            0 <= i < self.spec_complete().len() ==> (#[trigger] self.spec_complete()[i]).wf()
                && self.spec_complete()[i].complete
    }

    /// Seed the queue from the torrent metadata: one fresh piece per listed
    /// digest, numbered in order, the last one carrying the remainder length.
    pub fn new(piece_length: u32, total_length: u64, hashes: Vec<[u8; 20]>) -> (r: PieceDispatch)
        requires
            piece_length > 0,
        ensures
            r.wf(),
            r.spec_complete().len() == 0,
            r.spec_queue().len() == hashes@.len(),
            forall|i: int|
                0 <= i < hashes@.len() ==> {
                    let p = #[trigger] r.spec_queue()[i];
                    &&& p.index == i
                    &&& p.hash == hashes@[i]
                    &&& p.len == spec_piece_len(piece_length, total_length, i)
                    &&& p.complete == false
                    &&& p.blocks@.len() == spec_block_count(p.len)
                    &&& forall|j: int| 0 <= j < p.blocks@.len() ==> p.blocks@[j] is None
                },
    {
        let full: u64 = total_length / (piece_length as u64);
        let mut queue: Vec<Piece> = Vec::new();
        let mut i: usize = 0;
        while i < hashes.len()
            invariant
                i <= hashes@.len(),
                piece_length > 0,
                full == total_length / (piece_length as u64),
                queue@.len() == i,
                forall|k: int|
                    0 <= k < i ==> {
                        let p = #[trigger] queue@[k];
                        &&& p.wf()
                        &&& p.index == k
                        &&& p.hash == hashes@[k]
                        &&& p.len == spec_piece_len(piece_length, total_length, k)
                        &&& p.complete == false
                        &&& p.blocks@.len() == spec_block_count(p.len)
                        &&& forall|j: int| 0 <= j < p.blocks@.len() ==> p.blocks@[j] is None
                    },
            decreases hashes@.len() - i,
        {
            let plen: u32 = if (i as u64) < full {
                piece_length
            } else {
                (total_length % (piece_length as u64)) as u32
            };
            queue.push(Piece::new(i, hashes[i], plen));
            i = i + 1;
        }
        PieceDispatch { queue, complete: Vec::new() }
    }

    /// What `pop` does: hand out the front piece, or nothing when the queue
    /// is empty.
    pub open spec fn pop_rel(pre: PieceDispatch, post: PieceDispatch, r: Option<Piece>) -> bool {
        match r {
            None => pre.spec_queue().len() == 0 && post == pre,
            Some(p) => pre.spec_queue().len() > 0 && p == pre.spec_queue()[0]
                && post.spec_queue() == pre.spec_queue().drop_first() && post.spec_complete()
                == pre.spec_complete(),
        }
    }

    /// What `push_back` does: append the piece at the tail of the queue.
    pub open spec fn push_back_rel(pre: PieceDispatch, post: PieceDispatch, p: Piece) -> bool {
        post.spec_queue() == pre.spec_queue().push(p) && post.spec_complete()
            == pre.spec_complete()
    }

    /// What `push_complete` does: append the piece to the sink.
    pub open spec fn push_complete_rel(pre: PieceDispatch, post: PieceDispatch, p: Piece) -> bool {
        post.spec_queue() == pre.spec_queue() && post.spec_complete() == pre.spec_complete().push(
            p,
        )
    }

    /// Take the front piece, gaining exclusive ownership of it.
    pub fn pop(&mut self) -> (r: Option<Piece>)
        requires
            old(self).wf(),
        ensures
            final(self).wf(),
            Self::pop_rel(*old(self), *final(self), r),
            r is Some ==> r->Some_0.wf(),
    {
        if self.queue.len() == 0 {
            None
        } else {
            let p = self.queue.remove(0);
            proof {
                assert(self.queue@ =~= old(self).queue@.drop_first());
                assert forall|i: int| 0 <= i < self.spec_queue().len() implies (
                #[trigger] self.spec_queue()[i]).wf() by {
                    assert(self.spec_queue()[i] == old(self).spec_queue()[i + 1]);
                }
                assert forall|i: int| 0 <= i < self.spec_complete().len() implies (
                #[trigger] self.spec_complete()[i]).wf() && self.spec_complete()[i].complete by {
                    assert(self.spec_complete()[i] == old(self).spec_complete()[i]);
                }
            }
            Some(p)
        }
    }

    /// Return a piece to the tail of the queue, unchanged in anything but
    /// what its holder recorded into it.
    pub fn push_back(&mut self, p: Piece)
        requires
            old(self).wf(),
            p.wf(),
        ensures
            final(self).wf(),
            Self::push_back_rel(*old(self), *final(self), p),
    {
        self.queue.push(p);
    }

    /// Move a verified piece into the completed sink.
    pub fn push_complete(&mut self, p: Piece)
        requires
            old(self).wf(),
            p.wf(),
            p.complete,
        ensures
            final(self).wf(),
            Self::push_complete_rel(*old(self), *final(self), p),
    {
        self.complete.push(p);
    }

    /// How many pieces wait in the queue.
    pub fn queue_len(&self) -> (r: usize)
        ensures
            r == self.spec_queue().len(),
    {
        self.queue.len()
    }

    /// How many pieces have been verified and sunk.
    pub fn complete_len(&self) -> (r: usize)
        ensures
            r == self.spec_complete().len(),
    {
        self.complete.len()
    }
}

/// Popping removes exactly one occurrence of the popped piece's index.
pub proof fn lemma_pop_conserves(pre: PieceDispatch, post: PieceDispatch, p: Piece)
    requires
        PieceDispatch::pop_rel(pre, post, Some(p)),
    ensures
        post.pieces_ms().insert(p.index as int) =~= pre.pieces_ms(),
{
    broadcast use vstd::seq_lib::group_to_multiset_ensures;

    let f = |q: Piece| q.index as int;
    let pm = pre.spec_queue().map_values(f);
    let mm = post.spec_queue().map_values(f);
    assert(mm =~= pm.remove(0));
    assert(pm.remove(0).to_multiset() =~= pm.to_multiset().remove(pm[0]));
    assert(pm.contains(pm[0]));
}

/// Appending to the queue adds exactly one occurrence of the piece's index.
pub proof fn lemma_push_back_conserves(pre: PieceDispatch, post: PieceDispatch, p: Piece)
    requires
        PieceDispatch::push_back_rel(pre, post, p),
    ensures
        post.pieces_ms() =~= pre.pieces_ms().insert(p.index as int),
{
    broadcast use vstd::seq_lib::group_to_multiset_ensures;

    let f = |q: Piece| q.index as int;
    assert(post.spec_queue().map_values(f) =~= pre.spec_queue().map_values(f).push(p.index as int));
}

/// Sinking a piece adds exactly one occurrence of the piece's index.
pub proof fn lemma_push_complete_conserves(pre: PieceDispatch, post: PieceDispatch, p: Piece)
    requires
        PieceDispatch::push_complete_rel(pre, post, p),
    ensures
        post.pieces_ms() =~= pre.pieces_ms().insert(p.index as int),
{
    broadcast use vstd::seq_lib::group_to_multiset_ensures;

    let f = |q: Piece| q.index as int;
    assert(post.spec_complete().map_values(f) =~= pre.spec_complete().map_values(f).push(
        p.index as int,
    ));
}

/// Conservation: a session that pops a piece and then either returns it (in
/// whatever filled-in state) or sinks it leaves the combined population of
/// queue and sink unchanged — no piece is ever lost or duplicated.
pub proof fn lemma_cycle_conserves(
    pre: PieceDispatch,
    mid: PieceDispatch,
    post: PieceDispatch,
    p: Piece,
    q: Piece,
)
    requires
        PieceDispatch::pop_rel(pre, mid, Some(p)),
        q.index == p.index,
        PieceDispatch::push_back_rel(mid, post, q) || PieceDispatch::push_complete_rel(
            mid,
            post,
            q,
        ),
    ensures
        post.pieces_ms() =~= pre.pieces_ms(),
{
    lemma_pop_conserves(pre, mid, p);
    if PieceDispatch::push_back_rel(mid, post, q) {
        lemma_push_back_conserves(mid, post, q);
    } else {
        lemma_push_complete_conserves(mid, post, q);
    }
}

} // verus!
