//! Rotation with wall kicks: a turned piece is tried at up to five offsets,
//! in a fixed order, and the first one that fits is taken.

use vstd::prelude::*;
use crate::grid::{blocked, lemma_unblocked_bounds, Grid};
use crate::piece::{Placement, PieceState};
use crate::shape::{Orientation, ShapeKind, Turn};

verus! {

/// The offsets tried when `kind` turns by `t` from orientation `o`, in
/// order; each is (column delta, row delta). I has a table of its own, O
/// only stays in place, and the other five kinds share one table.
pub open spec fn kick_offsets(kind: ShapeKind, o: Orientation, t: Turn) -> Seq<(i32, i32)> {
    if kind == ShapeKind::O {
        seq![(0i32, 0i32), (0i32, 0i32), (0i32, 0i32), (0i32, 0i32), (0i32, 0i32)]
    } else if kind == ShapeKind::I {
        match (o, t) {
            (Orientation::N, Turn::Ccw) => seq![(0i32, 0i32), (-1i32, 0i32), (2i32, 0i32), (-1i32, 2i32), (2i32, -1i32)],
            (Orientation::N, Turn::Cw) => seq![(0i32, 0i32), (-2i32, 0i32), (1i32, 0i32), (-2i32, -1i32), (1i32, 2i32)],
            (Orientation::E, Turn::Ccw) => seq![(0i32, 0i32), (2i32, 0i32), (-1i32, 0i32), (2i32, 1i32), (-1i32, -2i32)],
            (Orientation::E, Turn::Cw) => seq![(0i32, 0i32), (-1i32, 0i32), (2i32, 0i32), (-1i32, 2i32), (2i32, -1i32)],
            (Orientation::S, Turn::Ccw) => seq![(0i32, 0i32), (1i32, 0i32), (-2i32, 0i32), (1i32, -2i32), (-2i32, 1i32)],
            (Orientation::S, Turn::Cw) => seq![(0i32, 0i32), (2i32, 0i32), (-1i32, 0i32), (2i32, 1i32), (-1i32, -2i32)],
            (Orientation::W, Turn::Ccw) => seq![(0i32, 0i32), (-2i32, 0i32), (1i32, 0i32), (-2i32, -1i32), (1i32, 2i32)],
            (Orientation::W, Turn::Cw) => seq![(0i32, 0i32), (1i32, 0i32), (-2i32, 0i32), (1i32, -2i32), (-2i32, 1i32)],
        }
    } else {
        match (o, t) {
            (Orientation::N, Turn::Ccw) => seq![(0i32, 0i32), (1i32, 0i32), (1i32, 1i32), (0i32, -2i32), (1i32, -2i32)],
            (Orientation::N, Turn::Cw) => seq![(0i32, 0i32), (-1i32, 0i32), (-1i32, 1i32), (0i32, -2i32), (-1i32, -2i32)],
            (Orientation::E, Turn::Ccw) => seq![(0i32, 0i32), (1i32, 0i32), (1i32, -1i32), (0i32, 2i32), (1i32, 2i32)],
            (Orientation::E, Turn::Cw) => seq![(0i32, 0i32), (1i32, 0i32), (1i32, -1i32), (0i32, 2i32), (1i32, 2i32)],
            (Orientation::S, Turn::Ccw) => seq![(0i32, 0i32), (-1i32, 0i32), (-1i32, 1i32), (0i32, -2i32), (-1i32, -2i32)],
            (Orientation::S, Turn::Cw) => seq![(0i32, 0i32), (1i32, 0i32), (1i32, 1i32), (0i32, -2i32), (1i32, -2i32)],
            (Orientation::W, Turn::Ccw) => seq![(0i32, 0i32), (-1i32, 0i32), (-1i32, -1i32), (0i32, 2i32), (-1i32, 2i32)],
            (Orientation::W, Turn::Cw) => seq![(0i32, 0i32), (-1i32, 0i32), (-1i32, -1i32), (0i32, 2i32), (-1i32, 2i32)],
        }
    }
}

/// The first of the `kicks` that moves `p` to a place where it fits.
pub open spec fn first_fit(g: Seq<crate::grid::Cell>, p: Placement, kicks: Seq<(i32, i32)>) -> Option<
    Placement,
>
    decreases kicks.len(),
{
    if kicks.len() == 0 {
        None
    } else {
        let cand = p.shifted(kicks[0].1 as int, kicks[0].0 as int);
        if !blocked(g, cand) {
            Some(cand)
        } else {
            first_fit(g, p, kicks.drop_first())
        }
    }
}

/// The result of turning `p` by `t` on the grid `g`, or `None` where no
/// offset of the kick table fits.
pub open spec fn rotated(g: Seq<crate::grid::Cell>, p: Placement, t: Turn) -> Option<Placement> {
    first_fit(g, p.oriented(p.orientation.turned(t)), kick_offsets(p.kind, p.orientation, t))
}

/// `n` turns by `t` in a row, as long as each one succeeds.
pub open spec fn rotated_times(g: Seq<crate::grid::Cell>, p: Placement, t: Turn, n: nat) -> Option<
    Placement,
>
    decreases n,
{
    if n == 0 {
        Some(p)
    } else {
        match rotated_times(g, p, t, (n - 1) as nat) {
            Some(q) => rotated(g, q, t),
            None => None,
        }
    }
}

/// The kick table for `kind` turning by `t` from `o`.
fn kick_table(kind: ShapeKind, o: Orientation, t: Turn) -> (v: Vec<(i32, i32)>)
    ensures
        v@ == kick_offsets(kind, o, t),
{
    if kind == ShapeKind::O {
        vec![(0, 0), (0, 0), (0, 0), (0, 0), (0, 0)]
    } else if kind == ShapeKind::I {
        match (o, t) {
            (Orientation::N, Turn::Ccw) => vec![(0, 0), (-1, 0), (2, 0), (-1, 2), (2, -1)],
            (Orientation::N, Turn::Cw) => vec![(0, 0), (-2, 0), (1, 0), (-2, -1), (1, 2)],
            (Orientation::E, Turn::Ccw) => vec![(0, 0), (2, 0), (-1, 0), (2, 1), (-1, -2)],
            (Orientation::E, Turn::Cw) => vec![(0, 0), (-1, 0), (2, 0), (-1, 2), (2, -1)],
            (Orientation::S, Turn::Ccw) => vec![(0, 0), (1, 0), (-2, 0), (1, -2), (-2, 1)],
            (Orientation::S, Turn::Cw) => vec![(0, 0), (2, 0), (-1, 0), (2, 1), (-1, -2)],
            (Orientation::W, Turn::Ccw) => vec![(0, 0), (-2, 0), (1, 0), (-2, -1), (1, 2)],
            (Orientation::W, Turn::Cw) => vec![(0, 0), (1, 0), (-2, 0), (1, -2), (-2, 1)],
        }
    } else {
        match (o, t) {
            (Orientation::N, Turn::Ccw) => vec![(0, 0), (1, 0), (1, 1), (0, -2), (1, -2)],
            (Orientation::N, Turn::Cw) => vec![(0, 0), (-1, 0), (-1, 1), (0, -2), (-1, -2)],
            (Orientation::E, Turn::Ccw) => vec![(0, 0), (1, 0), (1, -1), (0, 2), (1, 2)],
            (Orientation::E, Turn::Cw) => vec![(0, 0), (1, 0), (1, -1), (0, 2), (1, 2)],
            (Orientation::S, Turn::Ccw) => vec![(0, 0), (-1, 0), (-1, 1), (0, -2), (-1, -2)],
            (Orientation::S, Turn::Cw) => vec![(0, 0), (1, 0), (1, 1), (0, -2), (1, -2)],
            (Orientation::W, Turn::Ccw) => vec![(0, 0), (-1, 0), (-1, -1), (0, 2), (-1, 2)],
            (Orientation::W, Turn::Cw) => vec![(0, 0), (-1, 0), (-1, -1), (0, 2), (-1, 2)],
        }
    }
}

/// Turns `p` by `t`: the turned piece is tried at each offset of the kick
/// table in order, and the first placement that fits is returned. `None`
/// means that no offset fits; the caller keeps the piece as it was.
pub fn rotate(grid: &Grid, p: &PieceState, t: Turn) -> (r: Option<PieceState>)
    requires
        grid.wf(),
        p.wf(),
        !blocked(grid@, p@),
    ensures
        match r {
            Some(q) => q.wf() && rotated(grid@, p@, t) == Some(q@) && !blocked(grid@, q@),
            None => rotated(grid@, p@, t) is None,
        },
{
    proof {
        lemma_unblocked_bounds(grid@, p@);
    }
    let turned = p.turned(t);
    let kicks = kick_table(p.kind(), p.orientation(), t);
    let ghost tp = turned@;
    let mut i: usize = 0;
    assert(kicks@.skip(0) =~= kicks@);
    while i < kicks.len()
        invariant
            grid.wf(),
            turned.wf(),
            tp == turned@,
            tp == p@.oriented(p@.orientation.turned(t)),
            -2 <= tp.row <= 38,
            -2 <= tp.col <= 8,
            kicks@ == kick_offsets(p@.kind, p@.orientation, t),
            i <= kicks@.len(),
            first_fit(grid@, tp, kicks@) == first_fit(grid@, tp, kicks@.skip(i as int)),
        decreases kicks@.len() - i,
    {
        let (dc, dr) = kicks[i];
        let cand = turned.shifted(dr, dc);
        assert(kicks@.skip(i as int)[0] == (dc, dr));
        if !grid.collides(&cand) {
            return Some(cand);
        }
        assert(kicks@.skip(i as int).drop_first() =~= kicks@.skip(i + 1));
        i = i + 1;
    }
    None
}

/// A turn whose first offset, (0, 0), fits leaves the piece at its origin.
pub proof fn lemma_turn_in_place(g: Seq<crate::grid::Cell>, q: Placement, t: Turn)
    requires
        !blocked(g, q.oriented(q.orientation.turned(t))),
    ensures
        rotated(g, q, t) == Some(q.oriented(q.orientation.turned(t))),
{
    let kicks = kick_offsets(q.kind, q.orientation, t);
    assert(kicks[0] == (0i32, 0i32));
    assert(q.oriented(q.orientation.turned(t)).shifted(0, 0) == q.oriented(q.orientation.turned(t)));
}

/// Four turns in the same direction, where the piece fits in all four
/// orientations at its origin, bring it back to its orientation and origin.
pub proof fn lemma_four_turns_restore(g: Seq<crate::grid::Cell>, p: Placement, t: Turn)
    requires
        forall|o: Orientation| !blocked(g, #[trigger] p.oriented(o)),
    ensures
        rotated_times(g, p, t, 4) == Some(p),
{
    let one = p.oriented(p.orientation.turned(t));
    let two = one.oriented(one.orientation.turned(t));
    let three = two.oriented(two.orientation.turned(t));
    let four = three.oriented(three.orientation.turned(t));
    assert(two == p.oriented(two.orientation));
    assert(three == p.oriented(three.orientation));
    assert(four == p.oriented(four.orientation));
    lemma_turn_in_place(g, p, t);
    lemma_turn_in_place(g, one, t);
    lemma_turn_in_place(g, two, t);
    lemma_turn_in_place(g, three, t);
    assert(rotated_times(g, p, t, 0) == Some(p));
    assert(rotated_times(g, p, t, 1) == Some(one));
    assert(rotated_times(g, p, t, 2) == Some(two));
    assert(rotated_times(g, p, t, 3) == Some(three));
    assert(rotated_times(g, p, t, 4) == Some(four));
    assert(four == p);
}

/// An O piece that fits turns in place: the turn always succeeds and the
/// piece keeps its origin and covers the same cells.
pub proof fn lemma_o_turns_in_place(g: Seq<crate::grid::Cell>, p: Placement, t: Turn)
    requires
        p.kind == ShapeKind::O,
        !blocked(g, p),
    ensures
        rotated(g, p, t) == Some(p.oriented(p.orientation.turned(t))),
        forall|r: int, c: int| #[trigger] p.oriented(p.orientation.turned(t)).covers(r, c) == p.covers(r, c),
{
    let q = p.oriented(p.orientation.turned(t));
    assert forall|r: int, c: int| #[trigger] q.covers(r, c) == p.covers(r, c) by {}
    assert(!blocked(g, q)) by {
        if blocked(g, q) {
            let (r, c) = choose|r: int, c: int| #[trigger] q.covers(r, c) && !crate::grid::is_open(g, r, c);
            assert(p.covers(r, c));
        }
    }
    lemma_turn_in_place(g, p, t);
}

} // verus!
