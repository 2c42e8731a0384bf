//! The seven-bag piece randomizer: an endless, fair sequence of piece types,
//! dealt in shuffled batches of all seven kinds, with lookahead preview.

use crate::pieces::PieceType;
use rand::seq::SliceRandom;
use vstd::prelude::*;

verus! {

/// True iff the sequence holds each of the seven piece types exactly once.
pub open spec fn is_full_bag(s: Seq<PieceType>) -> bool {
    s.to_multiset() == PieceType::all_spec().to_multiset()
}

/// True iff, read from the front, the sequence is a concatenation of
/// complete bags: block after block of seven, each holding every piece type
/// exactly once.
pub open spec fn is_bag_stream(s: Seq<PieceType>) -> bool
    decreases s.len(),
{
    if s.len() == 0 {
        true
    } else {
        s.len() >= 7 && is_full_bag(s.take(7)) && is_bag_stream(s.skip(7))
    }
}

/// A full bag has exactly seven pieces.
pub proof fn lemma_full_bag_len(s: Seq<PieceType>)
    requires
        is_full_bag(s),
    ensures
        s.len() == 7,
{
    broadcast use vstd::seq_lib::group_to_multiset_ensures;

    assert(PieceType::all_spec().len() == 7);
    assert(s.len() == s.to_multiset().len());
    assert(PieceType::all_spec().len() == PieceType::all_spec().to_multiset().len());
}

/// Appending one more full bag to a bag stream keeps it a bag stream.
pub proof fn lemma_bag_stream_append(s: Seq<PieceType>, b: Seq<PieceType>)
    requires
        is_bag_stream(s),
        is_full_bag(b),
    ensures
        is_bag_stream(s + b),
    decreases s.len(),
{
    lemma_full_bag_len(b);
    assert(is_bag_stream(Seq::<PieceType>::empty()));
    if s.len() == 0 {
        assert(s + b =~= b);
        assert(b.take(7) =~= b);
        assert(b.skip(7) =~= Seq::<PieceType>::empty());
        assert(is_bag_stream(b));
    } else {
        assert((s + b).take(7) =~= s.take(7));
        assert((s + b).skip(7) =~= s.skip(7) + b);
        lemma_bag_stream_append(s.skip(7), b);
        assert((s + b).len() >= 7);
        assert(is_full_bag((s + b).take(7)));
        assert(is_bag_stream((s + b).skip(7)));
    }
}

/// Law (seven-bag fairness): in a bag stream, every aligned block of seven
/// holds each of the seven piece types exactly once. So the first `7 * k`
/// draws of a fresh generator fall into `k` blocks, each a permutation of
/// the seven types.
pub proof fn lemma_seven_bag_fairness(stream: Seq<PieceType>, k: int)
    requires
        is_bag_stream(stream),
        0 <= k,
        7 * k + 7 <= stream.len(),
    ensures
        is_full_bag(stream.subrange(7 * k, 7 * k + 7)),
    decreases k,
{
    if k == 0 {
        assert(stream.subrange(0, 7) =~= stream.take(7));
    } else {
        lemma_seven_bag_fairness(stream.skip(7), k - 1);
        assert(stream.subrange(7 * k, 7 * k + 7) =~= stream.skip(7).subrange(
            7 * (k - 1),
            7 * (k - 1) + 7,
        ));
    }
}

/// The next `n` pieces to be drawn from a bag, nearest first: the bag is
/// drawn from the back.
pub open spec fn preview_of(bag: Seq<PieceType>, n: int) -> Seq<PieceType>
    recommends
        bag.len() >= n,
{
    bag.skip(bag.len() - n).reverse()
}

/// Reorders a vector's elements in place, at random.
///
/// Relies on rand's `SliceRandom::shuffle` (with `rand::thread_rng`): a
/// Fisher–Yates shuffle, which only swaps elements, so the result holds
/// exactly the elements it was given.
#[verifier::external_body]
fn shuffle_pieces(v: &mut Vec<PieceType>)
    ensures
        final(v)@.to_multiset() == old(v)@.to_multiset(),
{
    v.shuffle(&mut rand::thread_rng());
}

/// The seven-bag randomizer. The bag holds the upcoming pieces, drawn from
/// the back; whenever it runs low it is refilled by putting a freshly
/// shuffled full bag in front, so the queued order is only ever extended,
/// never disturbed. The pieces dealt so far are tracked as the ghost `drawn`
/// sequence: dealt and queued pieces together always form a concatenation of
/// complete shuffled bags.
pub struct PieceGenerator {
    bag: Vec<PieceType>,
    drawn: Ghost<Seq<PieceType>>,
}

impl PieceGenerator {
    /// The queued pieces; the back is drawn first.
    pub closed spec fn bag_view(&self) -> Seq<PieceType> {
        self.bag@
    }

    /// The pieces dealt so far, oldest first.
    pub closed spec fn drawn_view(&self) -> Seq<PieceType> {
        self.drawn@
    }

    /// The pieces dealt so far followed by the queued pieces in draw order:
    /// always a concatenation of complete bags.
    pub open spec fn wf(&self) -> bool {
        is_bag_stream(self.drawn_view() + self.bag_view().reverse())
    }

    /// A fresh generator holding one shuffled full bag.
    pub fn new() -> (r: PieceGenerator)
        ensures
            r.wf(),
            is_full_bag(r.bag_view()),
            r.drawn_view() == Seq::<PieceType>::empty(),
    {
        let mut bag = PieceType::all();
        shuffle_pieces(&mut bag);
        let r = PieceGenerator { bag, drawn: Ghost(Seq::empty()) };
        proof {
            r.bag_view().lemma_reverse_to_multiset();
            lemma_full_bag_len(r.bag_view().reverse());
            let stream = r.drawn_view() + r.bag_view().reverse();
            assert(stream =~= r.bag_view().reverse());
            assert(stream.take(7) =~= stream);
            assert(stream.skip(7) =~= Seq::<PieceType>::empty());
            assert(is_bag_stream(Seq::<PieceType>::empty()));
        }
        r
    }

    /// Put a freshly shuffled full bag in front of the queued pieces, so
    /// that what was queued is still drawn first.
    fn refill_bag(&mut self)
        requires
            old(self).wf(),
        ensures
            final(self).wf(),
            final(self).drawn_view() == old(self).drawn_view(),
            final(self).bag_view().len() == old(self).bag_view().len() + 7,
            final(self).bag_view().skip(7) == old(self).bag_view(),
    {
        let ghost obag = self.bag@;
        let mut next_bag = PieceType::all();
        shuffle_pieces(&mut next_bag);
        proof {
            next_bag@.lemma_reverse_to_multiset();
            lemma_full_bag_len(next_bag@);
        }
        let ghost fresh = next_bag@;
        next_bag.append(&mut self.bag);
        self.bag = next_bag;
        proof {
            assert(self.bag@ =~= fresh + obag);
            assert(self.bag@.skip(7) =~= obag);
            let stream = old(self).drawn_view() + obag.reverse();
            lemma_bag_stream_append(stream, fresh.reverse());
            assert((fresh + obag).reverse() =~= obag.reverse() + fresh.reverse());
            assert(self.drawn_view() + self.bag_view().reverse() =~= stream + fresh.reverse());
        }
    }

    /// Deal the next piece: the back of the bag, after refilling with a
    /// fresh shuffled bag if the queue ran empty. Never comes up empty.
    pub fn next(&mut self) -> (r: Option<PieceType>)
        requires
            old(self).wf(),
        ensures
            final(self).wf(),
            r is Some,
            final(self).drawn_view() == old(self).drawn_view().push(r->Some_0),
            old(self).bag_view().len() > 0 ==> r == Some(old(self).bag_view().last())
                && final(self).bag_view() == old(self).bag_view().drop_last(),
            old(self).bag_view().len() == 0 ==> final(self).bag_view().len() == 6,
    {
        if self.bag.is_empty() {
            self.refill_bag();
        }
        let ghost mid_bag = self.bag@;
        let r = self.bag.pop();
        let piece = match r {
            Some(p) => p,
            None => {
                // excluded: the bag was just refilled if empty
                proof {
                    assert(false);
                }
                PieceType::I
            },
        };
        proof {
            self.drawn@ = self.drawn@.push(piece);
            assert(old(self).drawn_view() + mid_bag.reverse() =~= self.drawn_view()
                + self.bag_view().reverse()) by {
                assert(mid_bag.reverse()[0] == piece);
                assert(mid_bag.reverse().skip(1) =~= mid_bag.drop_last().reverse());
            }
        }
        Some(piece)
    }

    /// The next `n` pieces, nearest first, without dealing any: the bag is
    /// topped up first with as many fresh shuffled bags as it takes to hold
    /// `n`, by refills that leave the queued order alone. Calling `preview`
    /// twice in a row therefore returns the same sequence.
    pub fn preview(&mut self, n: usize) -> (r: Vec<PieceType>)
        requires
            old(self).wf(),
        ensures
            final(self).wf(),
            final(self).drawn_view() == old(self).drawn_view(),
            final(self).bag_view().len() >= n,
            old(self).bag_view().len() >= n ==> final(self).bag_view() == old(self).bag_view(),
            r@ == preview_of(final(self).bag_view(), n as int),
    {
        while self.bag.len() < n
            invariant
                self.wf(),
                self.drawn_view() == old(self).drawn_view(),
                old(self).bag_view().len() >= n ==> self.bag_view() == old(self).bag_view(),
            decreases n + 7 - self.bag@.len(),
        {
            self.refill_bag();
        }
        let len = self.bag.len();
        let mut r: Vec<PieceType> = Vec::new();
        let mut k: usize = 0;
        while k < n
            invariant
                self.bag@.len() == len,
                len >= n,
                k <= n,
                r@ =~= Seq::new(k as nat, |j: int| self.bag@[len - 1 - j]),
            decreases n - k,
        {
            r.push(self.bag[len - 1 - k]);
            k += 1;
        }
        proof {
            assert(r@ =~= preview_of(self.bag_view(), n as int));
        }
        r
    }
}

impl Default for PieceGenerator {
    /// A fresh generator holding one shuffled full bag.
    fn default() -> (r: Self)
        ensures
            r.wf(),
            is_full_bag(r.bag_view()),
            r.drawn_view() == Seq::<PieceType>::empty(),
    {
        Self::new()
    }
}

/// Law restated on the generator: among the pieces a generator has dealt,
/// every aligned block of seven holds each piece type exactly once.
pub proof fn lemma_drawn_fairness(g: PieceGenerator, k: int)
    requires
        g.wf(),
        0 <= k,
        7 * k + 7 <= g.drawn_view().len(),
    ensures
        is_full_bag(g.drawn_view().subrange(7 * k, 7 * k + 7)),
{
    let stream = g.drawn_view() + g.bag_view().reverse();
    lemma_seven_bag_fairness(stream, k);
    assert(g.drawn_view().subrange(7 * k, 7 * k + 7) =~= stream.subrange(7 * k, 7 * k + 7));
}

} // verus!
