//! The random seven-bag piece generator: pieces are drawn from a shuffled
//! permutation of all seven types, the bag is exhausted before it is
//! reshuffled, and one piece is always kept visible as a lookahead preview.
//! The generator draws from a seedable random source injected at
//! construction, so a fixed seed yields a reproducible piece sequence.
use vstd::prelude::*;

verus! {

use crate::pieces::PieceType;
use vstd::multiset::Multiset;
use vstd::seq_lib::group_to_multiset_ensures;
use vstd::multiset::group_multiset_axioms;

/// The multiset holding each of the seven piece types exactly once.
pub open spec fn full_bag() -> Multiset<PieceType> {
    full_bag_seq().to_multiset()
}

/// The seven piece types, each once, in the order a fresh bag is filled.
pub open spec fn full_bag_seq() -> Seq<PieceType> {
    seq![
        PieceType::I,
        PieceType::L,
        PieceType::J,
        PieceType::S,
        PieceType::Z,
        PieceType::O,
        PieceType::T,
    ]
}

/// How one internal draw relates the remaining-bag sequence before and
/// after. With pieces remaining the last one is popped; on an empty bag a
/// freshly shuffled full set of seven is drawn and its last popped, so
/// afterwards the six remaining pieces and the drawn one together are all
/// seven types, each once.
pub open spec fn draw_rel(pre: Seq<PieceType>, post: Seq<PieceType>, r: PieceType) -> bool {
    if pre.len() > 0 {
        post == pre.drop_last() && r == pre.last()
    } else {
        &&& post.len() == 6
        &&& post.push(r).no_duplicates()
        &&& post.push(r).to_multiset() == full_bag()
    }
}

/// The random seven-bag generator with a one-piece preview.
pub struct PieceBag {
    bag: Vec<PieceType>,
    preview: Option<PieceType>,
    rng: rand::rngs::StdRng,
}

impl PieceBag {
    /// The pieces remaining in the current bag; the next draw pops the last.
    pub closed spec fn bag_view(&self) -> Seq<PieceType> {
        self.bag@
    }

    /// The lookahead slot.
    pub closed spec fn preview_view(&self) -> Option<PieceType> {
        self.preview
    }

    /// The generator invariant: the remaining pieces are pairwise distinct.
    pub open spec fn wf(&self) -> bool {
        &&& self.bag_view().no_duplicates()
        &&& self.bag_view().len() <= 7
    }

    /// A generator with an empty bag and an empty preview, drawing from a
    /// random source seeded with `seed`: the same seed yields the same
    /// sequence of pieces.
    pub fn new(seed: u64) -> (r: Self)
        ensures
            r.wf(),
            r.bag_view() == Seq::<PieceType>::empty(),
            r.preview_view() is None,
    {
        PieceBag { bag: Vec::new(), preview: None, rng: rng_from_seed(seed) }
    }

    /// Draws one piece from the bag, reshuffling a full set first if the bag
    /// is empty. The preview is not touched.
    fn next_int(&mut self) -> (r: PieceType)
        requires
            old(self).wf(),
        ensures
            final(self).wf(),
            draw_rel(old(self).bag_view(), final(self).bag_view(), r),
            final(self).preview_view() == old(self).preview_view(),
    {
        if self.bag.is_empty() {
            let mut fresh: Vec<PieceType> = Vec::new();
            fresh.push(PieceType::I);
            fresh.push(PieceType::L);
            fresh.push(PieceType::J);
            fresh.push(PieceType::S);
            fresh.push(PieceType::Z);
            fresh.push(PieceType::O);
            fresh.push(PieceType::T);
            proof {
                assert(fresh@ =~= full_bag_seq());
                assert(fresh@.no_duplicates());
            }
            shuffle_pieces(&mut self.rng, &mut fresh);
            proof {
                broadcast use group_multiset_axioms;

                full_bag_seq().lemma_multiset_has_no_duplicates();
                fresh@.lemma_multiset_has_no_duplicates_conv();
            }
            self.bag = fresh;
        }
        let ghost pre = self.bag@;
        let r = match self.bag.pop() {
            Some(p) => p,
            None => PieceType::I,  // never taken: the bag is non-empty here
        };
        proof {
            assert(self.bag@ =~= pre.drop_last());
            assert forall|a: int, b: int|
                0 <= a < b < self.bag@.len() implies self.bag@[a] != self.bag@[b] by {
                assert(pre[a] != pre[b]);
            }
            if old(self).bag_view().len() == 0 {
                assert(pre.drop_last().push(pre.last()) =~= pre);
                assert(self.bag@.push(r).to_multiset() == full_bag());
            }
        }
        r
    }

    /// Returns the previewed piece (drawing one first if the preview was
    /// never filled) and refills the preview with the next draw.
    pub fn next(&mut self) -> (ret: PieceType)
        requires
            old(self).wf(),
        ensures
            final(self).wf(),
            next_rel(*old(self), *final(self), ret),
    {
        let ret = match self.preview {
            None => self.next_int(),
            Some(piece) => piece,
        };
        let ghost mid = self.bag_view();
        let npv = self.next_int();
        self.preview = Some(npv);
        proof {
            if old(self).preview_view() is None {
                assert(draw_rel(old(self).bag_view(), mid, ret));
            }
        }
        ret
    }

    /// Reads the previewed piece without consuming it, filling the preview
    /// first if it was never filled.
    pub fn peek_preview(&mut self) -> (ret: PieceType)
        requires
            old(self).wf(),
        ensures
            final(self).wf(),
            final(self).preview_view() == Some(ret),
            match old(self).preview_view() {
                Some(pv) => ret == pv && final(self).bag_view() == old(self).bag_view(),
                None => draw_rel(old(self).bag_view(), final(self).bag_view(), ret),
            },
    {
        if self.preview.is_none() {
            let r = self.next_int();
            self.preview = Some(r);
        }
        match self.preview {
            Some(p) => p,
            None => PieceType::I,  // never taken: the preview was just filled
        }
    }
}

/// How `next` relates the generator before and after the call to its
/// result: the returned piece is the previous preview (or a first draw when
/// no preview was ever filled), and the preview is refilled by one more
/// draw.
pub open spec fn next_rel(pre: PieceBag, post: PieceBag, ret: PieceType) -> bool {
    match pre.preview_view() {
        Some(pv) => {
            &&& ret == pv
            &&& post.preview_view() matches Some(npv) && draw_rel(
                pre.bag_view(),
                post.bag_view(),
                npv,
            )
        },
        None => exists|mid: Seq<PieceType>|
            {
                &&& #[trigger] draw_rel(pre.bag_view(), mid, ret)
                &&& post.preview_view() matches Some(npv) && draw_rel(mid, post.bag_view(), npv)
            },
    }
}

/// An aligned generator: fresh (nothing drawn yet, no preview), or holding
/// across the remaining bag and the preview slot all seven types, each
/// once. A generator is aligned at creation and, by `lemma_seven_bag`,
/// again after every run of seven draws from an aligned state.
pub open spec fn bag_aligned(b: PieceBag) -> bool {
    ||| (b.bag_view().len() == 0 && b.preview_view() is None)
    ||| (b.preview_view() matches Some(pv) && b.bag_view().len() == 6 && b.bag_view().push(
        pv,
    ).no_duplicates() && b.bag_view().push(pv).to_multiset() == full_bag())
}

/// The running invariant inside a seven-draw window: the pieces already
/// produced, the remaining bag, and the preview together are all seven
/// types, each once.
pub open spec fn window_inv(done: Seq<PieceType>, b: PieceBag) -> bool {
    exists|pv: PieceType|
        {
            &&& #[trigger] b.preview_view() == Some(pv)
            &&& done.to_multiset().add(b.bag_view().to_multiset().insert(pv)) == full_bag()
        }
}

/// Law: starting from an aligned generator, any seven consecutive results
/// of `next` are a permutation of all seven piece types — no type missing,
/// none repeated — and the generator is aligned again afterwards.
pub proof fn lemma_seven_bag(states: Seq<PieceBag>, outs: Seq<PieceType>)
    requires
        states.len() == 8,
        outs.len() == 7,
        bag_aligned(states[0]),
        forall|i: int| 0 <= i < 7 ==> next_rel(states[i], states[i + 1], #[trigger] outs[i]),
    ensures
        outs.to_multiset() == full_bag(),
        outs.no_duplicates(),
        bag_aligned(states[7]),
{
    broadcast use group_multiset_axioms;
    broadcast use group_to_multiset_ensures;

    lemma_window_inv(states, outs, 6);
    let b6 = states[6];
    let done6 = outs.take(6);
    let pv6 = choose|pv: PieceType|
        b6.preview_view() == Some(pv) && done6.to_multiset().add(
            b6.bag_view().to_multiset().insert(pv),
        ) == full_bag();
    // After six draws the bag itself is exhausted: seven pieces total, six
    // already produced, one in the preview.
    done6.to_multiset_ensures();
    b6.bag_view().to_multiset_ensures();
    full_bag_seq().to_multiset_ensures();
    assert(b6.bag_view().len() == 0);
    // The seventh call returns the preview and refills from a fresh bag.
    assert(next_rel(states[6], states[7], outs[6]));
    assert(outs[6] == pv6);
    assert(outs.take(7) =~= outs.take(6).push(outs[6]));
    assert(outs =~= outs.take(7));
    assert(b6.bag_view().to_multiset().insert(pv6) =~= Multiset::<PieceType>::empty().insert(pv6));
    assert(outs.to_multiset() =~= done6.to_multiset().insert(pv6));
    assert(done6.to_multiset().add(Multiset::<PieceType>::empty().insert(pv6))
        =~= done6.to_multiset().insert(pv6));
    assert(outs.to_multiset() == full_bag());
    // A multiset that holds each type once comes from a duplicate-free run.
    full_bag_seq().lemma_multiset_has_no_duplicates();
    outs.lemma_multiset_has_no_duplicates_conv();
    // The refill drawn for the new preview realigns the generator.
    let post = states[7];
    match states[6].preview_view() {
        Some(_) => {
            assert(post.preview_view() matches Some(npv) && draw_rel(
                states[6].bag_view(),
                post.bag_view(),
                npv,
            ));
        },
        None => {},
    }
}

/// The window invariant holds after each of the first six draws from an
/// aligned state, and the bag shrinks by one piece per draw.
proof fn lemma_window_inv(states: Seq<PieceBag>, outs: Seq<PieceType>, i: int)
    requires
        states.len() == 8,
        outs.len() == 7,
        bag_aligned(states[0]),
        forall|k: int| 0 <= k < 7 ==> next_rel(states[k], states[k + 1], #[trigger] outs[k]),
        1 <= i <= 6,
    ensures
        window_inv(outs.take(i), states[i]),
        states[i].bag_view().len() == 6 - i,
    decreases i,
{
    broadcast use group_multiset_axioms;
    broadcast use group_to_multiset_ensures;

    if i == 1 {
        assert(next_rel(states[0], states[1], outs[0]));
        let b0 = states[0];
        let b1 = states[1];
        if b0.bag_view().len() == 0 && b0.preview_view() is None {
            // Fresh start: the first draw reshuffles, the second (for the
            // preview) pops from the new bag.
            let mid = choose|mid: Seq<PieceType>|
                {
                    &&& #[trigger] draw_rel(b0.bag_view(), mid, outs[0])
                    &&& b1.preview_view() matches Some(npv) && draw_rel(mid, b1.bag_view(), npv)
                };
            let npv = b1.preview_view()->Some_0;
            assert(mid.push(outs[0]).to_multiset() == full_bag());
            assert(mid.len() == 6);
            assert(b1.bag_view() == mid.drop_last() && npv == mid.last());
            assert(b1.bag_view().push(npv) =~= mid);
            assert(outs.take(1) =~= seq![outs[0]]);
            assert(seq![outs[0]].to_multiset() =~= Multiset::<PieceType>::empty().insert(outs[0]));
            assert(b1.bag_view().to_multiset().insert(npv) =~= mid.to_multiset());
            assert(seq![outs[0]].to_multiset().add(mid.to_multiset()) =~= mid.to_multiset().insert(
                outs[0],
            ));
            assert(mid.to_multiset().insert(outs[0]) == mid.push(outs[0]).to_multiset());
            assert(window_inv(outs.take(1), states[1]));
        } else {
            // Aligned with a loaded bag: the first call returns the preview
            // and pops one piece into it.
            let pv = b0.preview_view()->Some_0;
            let npv = b1.preview_view()->Some_0;
            assert(outs[0] == pv);
            assert(draw_rel(b0.bag_view(), b1.bag_view(), npv));
            assert(b1.bag_view().push(npv) =~= b0.bag_view());
            assert(outs.take(1) =~= seq![outs[0]]);
            assert(seq![outs[0]].to_multiset() =~= Multiset::<PieceType>::empty().insert(outs[0]));
            assert(b1.bag_view().to_multiset().insert(npv) =~= b0.bag_view().to_multiset());
            assert(seq![outs[0]].to_multiset().add(b0.bag_view().to_multiset())
                =~= b0.bag_view().to_multiset().insert(pv));
            assert(b0.bag_view().to_multiset().insert(pv) == b0.bag_view().push(pv).to_multiset());
            assert(window_inv(outs.take(1), states[1]));
        }
    } else {
        lemma_window_inv(states, outs, i - 1);
        let bp = states[i - 1];
        let bc = states[i];
        let done = outs.take(i - 1);
        let pv = choose|pv: PieceType|
            bp.preview_view() == Some(pv) && done.to_multiset().add(
                bp.bag_view().to_multiset().insert(pv),
            ) == full_bag();
        assert(next_rel(states[i - 1], states[i], outs[i - 1]));
        assert(outs[i - 1] == pv);
        // The bag still has pieces, so the preview refill pops one.
        assert(bp.bag_view().len() == 6 - (i - 1));
        let npv = bc.preview_view()->Some_0;
        assert(draw_rel(bp.bag_view(), bc.bag_view(), npv));
        assert(bc.bag_view().push(npv) =~= bp.bag_view());
        assert(outs.take(i) =~= done.push(pv));
        assert(bc.bag_view().to_multiset().insert(npv) =~= bp.bag_view().to_multiset());
        assert(done.push(pv).to_multiset() =~= done.to_multiset().insert(pv));
        assert(done.push(pv).to_multiset().add(bp.bag_view().to_multiset()) =~= done.to_multiset()
            .add(bp.bag_view().to_multiset().insert(pv)));
        assert(window_inv(outs.take(i), states[i]));
    }
}

#[verifier::external_type_specification]
#[verifier::external_body]
pub struct ExStdRng(rand::rngs::StdRng);

/// Relies on rand::SeedableRng::seed_from_u64: builds a reproducible random
/// source from a plain integer seed; it never panics.
#[verifier::external_body]
fn rng_from_seed(seed: u64) -> (r: rand::rngs::StdRng) {
    <rand::rngs::StdRng as rand::SeedableRng>::seed_from_u64(seed)
}

/// Relies on rand::seq::SliceRandom::shuffle: permutes the slice in place —
/// afterwards it holds the same elements, rearranged.
#[verifier::external_body]
fn shuffle_pieces(rng: &mut rand::rngs::StdRng, v: &mut Vec<PieceType>)
    ensures
        final(v)@.to_multiset() == old(v)@.to_multiset(),
        final(v)@.len() == old(v)@.len(),
{
    rand::seq::SliceRandom::shuffle(v.as_mut_slice(), rng)
}

} // verus!
