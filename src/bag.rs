//! The seven-piece bag: upcoming kinds drawn from the end of a sequence,
//! refilled with a freshly shuffled batch of all seven kinds whenever one
//! kind is left.

use vstd::prelude::*;
use rand::seq::SliceRandom;
use crate::shape::ShapeKind;

verus! {

broadcast use vstd::seq_lib::group_to_multiset_ensures;

/// rand's handle on the thread-local generator, carried through as it is.
#[verifier::external_type_specification]
#[verifier::external_body]
pub struct ExThreadRng(rand::rngs::ThreadRng);

/// Relies on rand's `thread_rng`: a handle on the thread's generator.
pub assume_specification[ rand::thread_rng ]() -> rand::rngs::ThreadRng;

/// Relies on rand's `SliceRandom::shuffle`, which only swaps elements, so
/// the result is a permutation of the input.
#[verifier::external_body]
fn shuffle_kinds(kinds: &mut Vec<ShapeKind>, rng: &mut rand::rngs::ThreadRng)
    ensures
        final(kinds)@.to_multiset() == old(kinds)@.to_multiset(),
{
    kinds.shuffle(rng);
}

/// The seven kinds, once each.
pub open spec fn all_kinds() -> Seq<ShapeKind> {
    seq![
        ShapeKind::I,
        ShapeKind::O,
        ShapeKind::T,
        ShapeKind::S,
        ShapeKind::Z,
        ShapeKind::J,
        ShapeKind::L,
    ]
}

/// Whether `s` holds each of the seven kinds exactly once, in any order.
pub open spec fn is_full_set(s: Seq<ShapeKind>) -> bool {
    s.to_multiset() == all_kinds().to_multiset()
}

/// One draw: `k` is the kind at the end of `before`, and `after` is what is
/// left, or a whole fresh batch where `before` held a single kind.
pub open spec fn draw_step(before: Seq<ShapeKind>, after: Seq<ShapeKind>, k: ShapeKind) -> bool {
    &&& before.len() >= 1
    &&& k == before.last()
    &&& if before.len() == 1 {
        is_full_set(after)
    } else {
        after == before.drop_last()
    }
}

/// A full set has seven elements.
pub proof fn lemma_full_set_len(s: Seq<ShapeKind>)
    requires
        is_full_set(s),
    ensures
        s.len() == 7,
{
    assert(all_kinds().to_multiset().len() == 7);
}

/// Seven draws that start right after a refill, from a bag holding a whole
/// batch, hand out each of the seven kinds exactly once.
pub proof fn lemma_seven_draws_are_fair(states: Seq<Seq<ShapeKind>>, drawn: Seq<ShapeKind>)
    requires
        states.len() == 8,
        drawn.len() == 7,
        is_full_set(states[0]),
        forall|i: int| 0 <= i < 7 ==> draw_step(#[trigger] states[i], states[i + 1], drawn[i]),
    ensures
        is_full_set(drawn),
{
    let s0 = states[0];
    lemma_full_set_len(s0);
    assert(draw_step(states[0], states[1], drawn[0]));
    assert(states[1] =~= s0.subrange(0, 6));
    assert(draw_step(states[1], states[2], drawn[1]));
    assert(states[2] =~= s0.subrange(0, 5));
    assert(draw_step(states[2], states[3], drawn[2]));
    assert(states[3] =~= s0.subrange(0, 4));
    assert(draw_step(states[3], states[4], drawn[3]));
    assert(states[4] =~= s0.subrange(0, 3));
    assert(draw_step(states[4], states[5], drawn[4]));
    assert(states[5] =~= s0.subrange(0, 2));
    assert(draw_step(states[5], states[6], drawn[5]));
    assert(states[6] =~= s0.subrange(0, 1));
    assert(draw_step(states[6], states[7], drawn[6]));
    assert(drawn =~= s0.reverse());
    s0.lemma_reverse_to_multiset();
}

/// The seven kinds in catalog order.
fn catalog_batch() -> (v: Vec<ShapeKind>)
    ensures
        v@ == all_kinds(),
{
    let v = vec![
        ShapeKind::I,
        ShapeKind::O,
        ShapeKind::T,
        ShapeKind::S,
        ShapeKind::Z,
        ShapeKind::J,
        ShapeKind::L,
    ];
    v
}

/// A uniformly shuffled batch of the seven kinds.
pub fn shuffled_batch() -> (v: Vec<ShapeKind>)
    ensures
        is_full_set(v@),
{
    let mut v = catalog_batch();
    let mut rng = rand::thread_rng();
    shuffle_kinds(&mut v, &mut rng);
    v
}

/// The upcoming kinds; the next one to be drawn is at the end.
pub struct Bag {
    kinds: Vec<ShapeKind>,
}

impl View for Bag {
    type V = Seq<ShapeKind>;

    closed spec fn view(&self) -> Seq<ShapeKind> {
        self.kinds@
    }
}

impl Bag {
    /// The bag never runs empty.
    pub open spec fn wf(&self) -> bool {
        self@.len() >= 1
    }

    /// A bag holding the batch `batch`.
    pub fn from_batch(batch: Vec<ShapeKind>) -> (b: Bag)
        requires
            is_full_set(batch@),
        ensures
            b.wf(),
            b@ == batch@,
    {
        proof {
            lemma_full_set_len(batch@);
        }
        Bag { kinds: batch }
    }

    /// A bag holding a freshly shuffled batch.
    pub fn new() -> (b: Bag)
        ensures
            b.wf(),
            is_full_set(b@),
    {
        Bag::from_batch(shuffled_batch())
    }

    /// The kind that the next draw hands out.
    pub fn peek(&self) -> (k: ShapeKind)
        requires
            self.wf(),
        ensures
            k == self@.last(),
    {
        self.kinds[self.kinds.len() - 1]
    }

    /// Puts the batch `fresh` under the one kind that is left.
    pub fn refill(&mut self, fresh: Vec<ShapeKind>)
        requires
            old(self)@.len() == 1,
            is_full_set(fresh@),
        ensures
            final(self)@ == fresh@ + old(self)@,
    {
        let mut fresh = fresh;
        fresh.append(&mut self.kinds);
        self.kinds = fresh;
    }

    /// Draws the next kind, refilling first where only one is left.
    pub fn draw(&mut self) -> (k: ShapeKind)
        requires
            old(self).wf(),
        ensures
            final(self).wf(),
            draw_step(old(self)@, final(self)@, k),
    {
        let ghost before = self@;
        if self.kinds.len() == 1 {
            let fresh = shuffled_batch();
            proof {
                lemma_full_set_len(fresh@);
            }
            self.refill(fresh);
            assert(self@.drop_last() =~= fresh@);
        }
        let k = self.kinds.pop().unwrap();
        proof {
            if before.len() == 1 {
                lemma_full_set_len(self@);
            }
        }
        k
    }
}

} // verus!
