//! The piece catalog: shape kinds, orientations and the occupancy of each
//! shape in each orientation.

use vstd::prelude::*;

verus! {

/// One of the seven tetromino identities.
#[derive(Clone, Copy, Debug, PartialEq, Eq, Structural)]
pub enum ShapeKind {
    I,
    O,
    T,
    S,
    Z,
    J,
    L,
}

/// One of the four cardinal rotation states.
#[derive(Clone, Copy, Debug, PartialEq, Eq, Structural)]
pub enum Orientation {
    N,
    E,
    S,
    W,
}

/// A quarter turn, clockwise or counter-clockwise.
#[derive(Clone, Copy, Debug, PartialEq, Eq, Structural)]
pub enum Turn {
    Cw,
    Ccw,
}

impl Orientation {
    /// The orientation reached from `self` by one quarter turn.
    pub open spec fn spec_turned(self, t: Turn) -> Orientation {
        match (self, t) {
            (Orientation::N, Turn::Cw) => Orientation::E,
            (Orientation::E, Turn::Cw) => Orientation::S,
            (Orientation::S, Turn::Cw) => Orientation::W,
            (Orientation::W, Turn::Cw) => Orientation::N,
            (Orientation::N, Turn::Ccw) => Orientation::W,
            (Orientation::E, Turn::Ccw) => Orientation::N,
            (Orientation::S, Turn::Ccw) => Orientation::E,
            (Orientation::W, Turn::Ccw) => Orientation::S,
        }
    }

    #[verifier::when_used_as_spec(spec_turned)]
    pub fn turned(self, t: Turn) -> (r: Orientation)
        ensures
            r == self.spec_turned(t),
    {
        match (self, t) {
            (Orientation::N, Turn::Cw) => Orientation::E,
            (Orientation::E, Turn::Cw) => Orientation::S,
            (Orientation::S, Turn::Cw) => Orientation::W,
            (Orientation::W, Turn::Cw) => Orientation::N,
            (Orientation::N, Turn::Ccw) => Orientation::W,
            (Orientation::E, Turn::Ccw) => Orientation::N,
            (Orientation::S, Turn::Ccw) => Orientation::E,
            (Orientation::W, Turn::Ccw) => Orientation::S,
        }
    }
}

/// Whether cell (`r`, `c`) of the 4x4 box is occupied by `kind` as it spawns
/// (orientation N).
pub open spec fn base_cell(kind: ShapeKind, r: int, c: int) -> bool {
    &&& 0 <= r < 4
    &&& 0 <= c < 4
    &&& match kind {
        ShapeKind::I => r == 1,
        ShapeKind::O => (r == 0 || r == 1) && (c == 1 || c == 2),
        ShapeKind::T => (r == 0 && c == 1) || (r == 1 && c < 3),
        ShapeKind::S => (r == 0 && (c == 1 || c == 2)) || (r == 1 && c < 2),
        ShapeKind::Z => (r == 0 && c < 2) || (r == 1 && (c == 1 || c == 2)),
        ShapeKind::J => (r == 0 && c == 0) || (r == 1 && c < 3),
        ShapeKind::L => (r == 0 && c == 2) || (r == 1 && c < 3),
    }
}

/// Side of the square that a rotation turns: the whole 4x4 box for I, the
/// upper-left 3x3 box for the other kinds.
pub open spec fn box_size(kind: ShapeKind) -> int {
    if kind == ShapeKind::I {
        4
    } else {
        3
    }
}

/// Whether cell (`r`, `c`) of the 4x4 box is occupied by `kind` in
/// orientation `o`. O never changes; for the other kinds each clockwise
/// quarter turn maps cell (r, c) to the cell read from (n-1-c, r) of the
/// turned box of side n.
pub open spec fn shape_cell(kind: ShapeKind, o: Orientation, r: int, c: int) -> bool {
    let n = box_size(kind);
    if kind == ShapeKind::O || !(0 <= r < n && 0 <= c < n) {
        base_cell(kind, r, c)
    } else {
        match o {
            Orientation::N => base_cell(kind, r, c),
            Orientation::E => base_cell(kind, n - 1 - c, r),
            Orientation::S => base_cell(kind, n - 1 - r, n - 1 - c),
            Orientation::W => base_cell(kind, c, n - 1 - r),
        }
    }
}

/// Bit `k` of a 16-bit occupancy mask; bit 4r+c stands for cell (r, c).
pub open spec fn bit_at(m: u16, k: u16) -> bool {
    (m >> k) & 1u16 == 1u16
}

/// Whether `m` holds exactly the cells of `kind` in orientation `o`.
pub open spec fn mask_matches(m: u16, kind: ShapeKind, o: Orientation) -> bool {
    forall|r: int, c: int|
        0 <= r < 4 && 0 <= c < 4 ==> #[trigger] bit_at(m, (4 * r + c) as u16) == shape_cell(
            kind,
            o,
            r,
            c,
        )
}

/// Reads bit `k` of a mask.
pub fn get_bit(m: u16, k: u16) -> (b: bool)
    requires
        k < 16,
    ensures
        b == bit_at(m, k),
{
    (m >> k) & 1u16 == 1u16
}

proof fn lemma_set_bit(m: u16, k: u16, v: bool, j: u16)
    requires
        k < 16,
        j < 16,
    ensures
        bit_at(if v { m | (1u16 << k) } else { m & !(1u16 << k) }, j) == if j == k {
            v
        } else {
            bit_at(m, j)
        },
{
    if v {
        assert(bit_at(m | (1u16 << k), j) == if j == k { true } else { bit_at(m, j) })
            by (bit_vector)
            requires
                k < 16,
                j < 16,
        ;
    } else {
        assert(bit_at(m & !(1u16 << k), j) == if j == k { false } else { bit_at(m, j) })
            by (bit_vector)
            requires
                k < 16,
                j < 16,
        ;
    }
}

/// Returns `m` with bit `k` set to `v` and every other bit kept.
pub fn set_bit(m: u16, k: u16, v: bool) -> (r: u16)
    requires
        k < 16,
    ensures
        forall|j: u16| j < 16 ==> #[trigger] bit_at(r, j) == if j == k { v } else { bit_at(m, j) },
{
    let r = if v {
        m | (1u16 << k)
    } else {
        m & !(1u16 << k)
    };
    assert forall|j: u16| j < 16 implies #[trigger] bit_at(r, j) == if j == k {
        v
    } else {
        bit_at(m, j)
    } by {
        lemma_set_bit(m, k, v, j);
    }
    r
}

/// The occupancy mask of `kind` as it spawns, in orientation N.
pub fn spawn_mask(kind: ShapeKind) -> (m: u16)
    ensures
        mask_matches(m, kind, Orientation::N),
{
    let m: u16 = match kind {
        ShapeKind::I => 0b1111_0000,
        ShapeKind::O => 0b0110_0110,
        ShapeKind::T => 0b0111_0010,
        ShapeKind::S => 0b0011_0110,
        ShapeKind::Z => 0b0110_0011,
        ShapeKind::J => 0b0111_0001,
        ShapeKind::L => 0b0111_0100,
    };
    assert forall|r: int, c: int| 0 <= r < 4 && 0 <= c < 4 implies #[trigger] bit_at(
        m,
        (4 * r + c) as u16,
    ) == shape_cell(kind, Orientation::N, r, c) by {
        let k = (4 * r + c) as u16;
        assert(k == 4 * r + c);
        match kind {
            ShapeKind::I => {
                assert(bit_at(0b1111_0000u16, k) == (4 <= k && k < 8)) by (bit_vector)
                    requires
                        k < 16,
                ;
            },
            ShapeKind::O => {
                assert(bit_at(0b0110_0110u16, k) == (k == 1 || k == 2 || k == 5 || k == 6))
                    by (bit_vector)
                    requires
                        k < 16,
                ;
            },
            ShapeKind::T => {
                assert(bit_at(0b0111_0010u16, k) == (k == 1 || k == 4 || k == 5 || k == 6))
                    by (bit_vector)
                    requires
                        k < 16,
                ;
            },
            ShapeKind::S => {
                assert(bit_at(0b0011_0110u16, k) == (k == 1 || k == 2 || k == 4 || k == 5))
                    by (bit_vector)
                    requires
                        k < 16,
                ;
            },
            ShapeKind::Z => {
                assert(bit_at(0b0110_0011u16, k) == (k == 0 || k == 1 || k == 5 || k == 6))
                    by (bit_vector)
                    requires
                        k < 16,
                ;
            },
            ShapeKind::J => {
                assert(bit_at(0b0111_0001u16, k) == (k == 0 || k == 4 || k == 5 || k == 6))
                    by (bit_vector)
                    requires
                        k < 16,
                ;
            },
            ShapeKind::L => {
                assert(bit_at(0b0111_0100u16, k) == (k == 2 || k == 4 || k == 5 || k == 6))
                    by (bit_vector)
                    requires
                        k < 16,
                ;
            },
        }
    }
    m
}

/// Where the cell (`r`, `c`) of a turned box of side `n` is read from.
pub open spec fn turn_source(t: Turn, n: int, r: int, c: int) -> (int, int) {
    match t {
        Turn::Cw => (n - 1 - c, r),
        Turn::Ccw => (c, n - 1 - r),
    }
}

/// Applies one quarter turn to the mask `m` of `kind` in orientation `o`:
/// O is left as it is; otherwise each cell of the turned box (4x4 for I,
/// 3x3 for the others) is read from its source cell, the rest is kept.
pub fn turn_mask(m: u16, kind: ShapeKind, o: Orientation, t: Turn) -> (r: u16)
    requires
        mask_matches(m, kind, o),
    ensures
        mask_matches(r, kind, o.turned(t)),
{
    if kind == ShapeKind::O {
        return m;
    }
    let n: u16 = if kind == ShapeKind::I {
        4
    } else {
        3
    };
    let mut out = m;
    let mut y: u16 = 0;
    while y < n
        invariant
            n == box_size(kind),
            kind != ShapeKind::O,
            y <= n,
            mask_matches(m, kind, o),
            forall|r: int, c: int|
                0 <= r < 4 && 0 <= c < 4 ==> #[trigger] bit_at(out, (4 * r + c) as u16) == if r
                    < y && c < n {
                    bit_at(
                        m,
                        (4 * turn_source(t, n as int, r, c).0 + turn_source(t, n as int, r, c).1) as u16,
                    )
                } else {
                    bit_at(m, (4 * r + c) as u16)
                },
        decreases n - y,
    {
        let mut x: u16 = 0;
        while x < n
            invariant
                n == box_size(kind),
                y < n,
                x <= n,
                forall|r: int, c: int|
                    0 <= r < 4 && 0 <= c < 4 ==> #[trigger] bit_at(out, (4 * r + c) as u16) == if (r
                        < y && c < n) || (r == y && c < x) {
                        bit_at(
                            m,
                            (4 * turn_source(t, n as int, r, c).0 + turn_source(
                                t,
                                n as int,
                                r,
                                c,
                            ).1) as u16,
                        )
                    } else {
                        bit_at(m, (4 * r + c) as u16)
                    },
            decreases n - x,
        {
            let src: u16 = match t {
                Turn::Cw => (n - 1 - x) * 4 + y,
                Turn::Ccw => x * 4 + (n - 1 - y),
            };
            let b = get_bit(m, src);
            let prev = out;
            out = set_bit(out, y * 4 + x, b);
            assert forall|r: int, c: int| 0 <= r < 4 && 0 <= c < 4 implies #[trigger] bit_at(
                out,
                (4 * r + c) as u16,
            ) == if (r < y && c < n) || (r == y && c < x + 1) {
                bit_at(
                    m,
                    (4 * turn_source(t, n as int, r, c).0 + turn_source(t, n as int, r, c).1) as u16,
                )
            } else {
                bit_at(m, (4 * r + c) as u16)
            } by {
                assert(bit_at(out, (4 * r + c) as u16) == if r == y && c == x {
                    b
                } else {
                    bit_at(prev, (4 * r + c) as u16)
                });
            }
            x = x + 1;
        }
        y = y + 1;
    }
    assert forall|r: int, c: int| 0 <= r < 4 && 0 <= c < 4 implies #[trigger] bit_at(
        out,
        (4 * r + c) as u16,
    ) == shape_cell(kind, o.turned(t), r, c) by {
        if r < n && c < n {
            let (sr, sc) = turn_source(t, n as int, r, c);
            assert(bit_at(m, (4 * sr + sc) as u16) == shape_cell(kind, o, sr, sc));
        } else {
            assert(bit_at(m, (4 * r + c) as u16) == shape_cell(kind, o, r, c));
        }
    }
    out
}

} // verus!
