//! The active piece: its kind, orientation, origin and occupancy mask.

use vstd::prelude::*;
use crate::shape::{
    bit_at, get_bit, mask_matches, shape_cell, spawn_mask, turn_mask, Orientation,
    ShapeKind, Turn,
};

verus! {

/// Row of the spawn origin: a piece spans the bottom of the hidden buffer.
pub const SPAWN_ROW: i32 = 18;

/// Column of the spawn origin.
pub const SPAWN_COL: i32 = 3;

/// A piece as a mathematical value: its origin is the top-left corner of
/// its 4x4 box in grid coordinates.
pub ghost struct Placement {
    pub kind: ShapeKind,
    pub orientation: Orientation,
    pub row: int,
    pub col: int,
}

impl Placement {
    /// Whether grid cell (`r`, `c`) is one of the piece's four cells.
    pub open spec fn covers(self, r: int, c: int) -> bool {
        &&& 0 <= r - self.row < 4
        &&& 0 <= c - self.col < 4
        &&& shape_cell(self.kind, self.orientation, r - self.row, c - self.col)
    }

    /// The same piece moved by `dr` rows and `dc` columns.
    pub open spec fn shifted(self, dr: int, dc: int) -> Placement {
        Placement { row: self.row + dr, col: self.col + dc, ..self }
    }

    /// The same piece in orientation `o`, at the same origin.
    pub open spec fn oriented(self, o: Orientation) -> Placement {
        Placement { orientation: o, ..self }
    }
}

/// Where a piece of `kind` spawns: orientation N, origin (18, 3).
pub open spec fn spawn_placement(kind: ShapeKind) -> Placement {
    Placement { kind, orientation: Orientation::N, row: SPAWN_ROW as int, col: SPAWN_COL as int }
}

/// Every shape holds cell (1, 1) or cell (2, 2) of its box, whatever its
/// orientation.
pub proof fn lemma_shape_has_anchor(kind: ShapeKind, o: Orientation)
    ensures
        shape_cell(kind, o, 1, 1) || shape_cell(kind, o, 2, 2),
{
}

/// A piece: kind, orientation, origin, and the 4x4 mask of its cells.
#[derive(Clone, Copy, Debug)]
pub struct PieceState {
    kind: ShapeKind,
    orientation: Orientation,
    row: i32,
    col: i32,
    mask: u16,
}

impl View for PieceState {
    type V = Placement;

    closed spec fn view(&self) -> Placement {
        Placement {
            kind: self.kind,
            orientation: self.orientation,
            row: self.row as int,
            col: self.col as int,
        }
    }
}

impl PieceState {
    /// The mask holds exactly the cells of the kind in the orientation.
    pub closed spec fn wf(self) -> bool {
        mask_matches(self.mask, self.kind, self.orientation)
    }

    /// A piece of `kind` at the spawn position.
    pub fn spawn(kind: ShapeKind) -> (p: PieceState)
        ensures
            p.wf(),
            p@ == spawn_placement(kind),
    {
        PieceState {
            kind,
            orientation: Orientation::N,
            row: SPAWN_ROW,
            col: SPAWN_COL,
            mask: spawn_mask(kind),
        }
    }

    pub fn kind(&self) -> (k: ShapeKind)
        ensures
            k == self@.kind,
    {
        self.kind
    }

    pub fn orientation(&self) -> (o: Orientation)
        ensures
            o == self@.orientation,
    {
        self.orientation
    }

    pub fn row(&self) -> (r: i32)
        ensures
            r == self@.row,
    {
        self.row
    }

    pub fn col(&self) -> (c: i32)
        ensures
            c == self@.col,
    {
        self.col
    }

    /// Whether cell (`r`, `c`) of the piece's own 4x4 box is occupied.
    pub fn box_cell(&self, r: u16, c: u16) -> (b: bool)
        requires
            self.wf(),
            r < 4,
            c < 4,
        ensures
            b == shape_cell(self@.kind, self@.orientation, r as int, c as int),
    {
        let b = get_bit(self.mask, r * 4 + c);
        assert(bit_at(self.mask, (4 * (r as int) + (c as int)) as u16) == shape_cell(
            self.kind,
            self.orientation,
            r as int,
            c as int,
        ));
        b
    }

    /// Whether the piece occupies grid cell (`r`, `c`).
    pub fn occupies(&self, r: i32, c: i32) -> (b: bool)
        requires
            self.wf(),
        ensures
            b == self@.covers(r as int, c as int),
    {
        let dr = r as i64 - self.row as i64;
        let dc = c as i64 - self.col as i64;
        if 0 <= dr && dr < 4 && 0 <= dc && dc < 4 {
            self.box_cell(dr as u16, dc as u16)
        } else {
            false
        }
    }

    /// The piece moved by `dr` rows and `dc` columns.
    pub fn shifted(&self, dr: i32, dc: i32) -> (p: PieceState)
        requires
            self.wf(),
            i32::MIN <= self@.row + dr <= i32::MAX,
            i32::MIN <= self@.col + dc <= i32::MAX,
        ensures
            p.wf(),
            p@ == self@.shifted(dr as int, dc as int),
    {
        PieceState { row: self.row + dr, col: self.col + dc, ..*self }
    }

    /// The piece turned a quarter in place: the mask is turned by its index
    /// transform and the orientation steps along the cycle N, E, S, W.
    pub fn turned(&self, t: Turn) -> (p: PieceState)
        requires
            self.wf(),
        ensures
            p.wf(),
            p@ == self@.oriented(self@.orientation.turned(t)),
    {
        PieceState {
            mask: turn_mask(self.mask, self.kind, self.orientation, t),
            orientation: self.orientation.turned(t),
            ..*self
        }
    }
}

} // verus!
