//! The playfield: 40 rows of 10 cells, row 0 at the top. Rows 0 to 19 are a
//! hidden spawn buffer, rows 20 to 39 the visible field.

use vstd::prelude::*;
use crate::piece::{lemma_shape_has_anchor, Placement, PieceState};
use crate::shape::ShapeKind;

verus! {

/// A cell of the grid. The kind of a filled cell only tells its color.
#[derive(Clone, Copy, Debug, PartialEq, Eq, Structural)]
pub enum Cell {
    Empty,
    Filled(ShapeKind),
}

/// The cell at row `r`, column `c` of the row-major cells `g`.
pub open spec fn cell_at(g: Seq<Cell>, r: int, c: int) -> Cell {
    g[r * 10 + c]
}

/// Whether (`r`, `c`) lies on the grid and is empty.
pub open spec fn is_open(g: Seq<Cell>, r: int, c: int) -> bool {
    &&& 0 <= r < 40
    &&& 0 <= c < 10
    &&& cell_at(g, r, c) == Cell::Empty
}

/// Whether the piece `p` would overlap a filled cell or leave the grid.
pub open spec fn blocked(g: Seq<Cell>, p: Placement) -> bool {
    exists|r: int, c: int| #[trigger] p.covers(r, c) && !is_open(g, r, c)
}

/// Whether some cell of the hidden buffer is filled.
pub open spec fn hidden_filled(g: Seq<Cell>) -> bool {
    exists|r: int, c: int| 0 <= r < 20 && 0 <= c < 10 && #[trigger] cell_at(g, r, c) != Cell::Empty
}

/// Whether all ten cells of row `r` are filled.
pub open spec fn row_full(g: Seq<Cell>, r: int) -> bool {
    forall|c: int| 0 <= c < 10 ==> #[trigger] cell_at(g, r, c) != Cell::Empty
}

/// The rows among 0 to n-1 that are not full, from top to bottom.
pub open spec fn kept_rows(g: Seq<Cell>, n: nat) -> Seq<int>
    decreases n,
{
    if n == 0 {
        seq![]
    } else {
        let prev = kept_rows(g, (n - 1) as nat);
        if row_full(g, n - 1) {
            prev
        } else {
            prev.push(n - 1)
        }
    }
}

/// How many full rows `g` holds.
pub open spec fn full_row_count(g: Seq<Cell>) -> int {
    40 - kept_rows(g, 40).len()
}

/// `new` is `old` with its full rows taken out, the rows above them moved
/// down, and as many empty rows put in at the top.
pub open spec fn collapsed(new: Seq<Cell>, old: Seq<Cell>) -> bool {
    let kept = kept_rows(old, 40);
    let k = 40 - kept.len();
    &&& new.len() == 400
    &&& forall|r: int, c: int|
        0 <= r < 40 && 0 <= c < 10 ==> #[trigger] cell_at(new, r, c) == if r < k {
            Cell::Empty
        } else {
            cell_at(old, kept[r - k], c)
        }
}

/// `g` with the cells of `p` filled with its kind.
pub open spec fn with_piece(g: Seq<Cell>, p: Placement) -> Seq<Cell> {
    Seq::new(g.len(), |i: int| if p.covers(i / 10, i % 10) { Cell::Filled(p.kind) } else { g[i] })
}

/// Where `p` comes to rest when it falls straight down: it moves one row
/// down while the row below still fits.
pub open spec fn landed(g: Seq<Cell>, p: Placement) -> Placement
    decreases 40 - p.row,
{
    if p.row >= 40 || blocked(g, p.shifted(1, 0)) {
        p
    } else {
        landed(g, p.shifted(1, 0))
    }
}

/// At most `n` of the rows 0 to n-1 are kept.
pub proof fn lemma_kept_rows_len(g: Seq<Cell>, n: nat)
    ensures
        kept_rows(g, n).len() <= n,
    decreases n,
{
    if n > 0 {
        lemma_kept_rows_len(g, (n - 1) as nat);
    }
}

/// With an empty hidden buffer, its rows are the first rows kept.
proof fn lemma_kept_hidden_rows(g: Seq<Cell>, n: nat)
    requires
        g.len() == 400,
        !hidden_filled(g),
    ensures
        n <= 20 ==> kept_rows(g, n).len() == n,
        kept_rows(g, n).len() >= if n <= 20 { n as int } else { 20 },
        forall|j: int| 0 <= j < 20 && j < n ==> #[trigger] kept_rows(g, n)[j] == j,
    decreases n,
{
    if n > 0 {
        lemma_kept_hidden_rows(g, (n - 1) as nat);
        if n - 1 < 20 {
            assert(cell_at(g, n - 1, 0) == Cell::Empty);
            assert(!row_full(g, n - 1));
        }
    }
}

/// Clearing rows under an empty hidden buffer leaves it empty.
pub proof fn lemma_collapse_keeps_hidden_empty(new: Seq<Cell>, old: Seq<Cell>)
    requires
        old.len() == 400,
        !hidden_filled(old),
        collapsed(new, old),
    ensures
        !hidden_filled(new),
{
    lemma_kept_hidden_rows(old, 40);
    lemma_kept_rows_len(old, 40);
    let kept = kept_rows(old, 40);
    let k = 40 - kept.len();
    assert forall|r: int, c: int| 0 <= r < 20 && 0 <= c < 10 implies #[trigger] cell_at(new, r, c)
        == Cell::Empty by {
        if r >= k {
            let j = r - k;
            assert(0 <= j < 20);
            assert(kept_rows(old, 40)[j] == j);
            assert(cell_at(new, r, c) == cell_at(old, j, c));
            assert(cell_at(old, j, c) == Cell::Empty);
        }
    }
}

/// A piece that fits on the grid has its origin within two cells of it.
pub proof fn lemma_unblocked_bounds(g: Seq<Cell>, p: Placement)
    requires
        !blocked(g, p),
    ensures
        -2 <= p.row <= 38,
        -2 <= p.col <= 8,
{
    lemma_shape_has_anchor(p.kind, p.orientation);
    if p.covers(p.row + 1, p.col + 1) {
        assert(is_open(g, p.row + 1, p.col + 1));
    } else {
        assert(p.covers(p.row + 2, p.col + 2));
        assert(is_open(g, p.row + 2, p.col + 2));
    }
}

/// Outcome of the line-clear pass.
#[derive(Clone, Copy, Debug, PartialEq, Eq, Structural)]
pub enum LineClearResult {
    /// A cell of the hidden buffer is filled: the game is over.
    TopOut,
    /// This many full rows were removed.
    Cleared(u32),
}

/// The playfield.
pub struct Grid {
    cells: Vec<Cell>,
}

impl View for Grid {
    type V = Seq<Cell>;

    closed spec fn view(&self) -> Seq<Cell> {
        self.cells@
    }
}

impl Grid {
    /// The grid always holds 400 cells.
    pub open spec fn wf(&self) -> bool {
        self@.len() == 400
    }

    /// An empty grid.
    pub fn new() -> (g: Grid)
        ensures
            g.wf(),
            forall|i: int| 0 <= i < 400 ==> g@[i] == Cell::Empty,
    {
        let mut cells: Vec<Cell> = Vec::new();
        let mut i: usize = 0;
        while i < 400
            invariant
                i <= 400,
                cells@.len() == i,
                forall|j: int| 0 <= j < i ==> cells@[j] == Cell::Empty,
            decreases 400 - i,
        {
            cells.push(Cell::Empty);
            i = i + 1;
        }
        Grid { cells }
    }

    /// How many cells the grid holds.
    pub fn cell_count(&self) -> (n: usize)
        ensures
            n == self@.len(),
    {
        self.cells.len()
    }

    /// The cell at (`row`, `col`).
    pub fn read(&self, row: usize, col: usize) -> (c: Cell)
        requires
            self.wf(),
            row < 40,
            col < 10,
        ensures
            c == cell_at(self@, row as int, col as int),
    {
        self.cells[row * 10 + col]
    }

    /// Sets the cell at (`row`, `col`).
    pub fn write(&mut self, row: usize, col: usize, cell: Cell)
        requires
            old(self).wf(),
            row < 40,
            col < 10,
        ensures
            final(self)@ == old(self)@.update(row * 10 + col, cell),
    {
        self.cells.set(row * 10 + col, cell);
    }

    /// Whether `p` would overlap a filled cell or leave the grid.
    pub fn collides(&self, p: &PieceState) -> (b: bool)
        requires
            self.wf(),
            p.wf(),
        ensures
            b == blocked(self@, p@),
    {
        let pr = p.row() as i64;
        let pc = p.col() as i64;
        let mut y: u16 = 0;
        while y < 4
            invariant
                self.wf(),
                p.wf(),
                pr == p@.row,
                pc == p@.col,
                i32::MIN <= pr <= i32::MAX,
                i32::MIN <= pc <= i32::MAX,
                y <= 4,
                forall|r: int, c: int|
                    #[trigger] p@.covers(r, c) && r < p@.row + y ==> is_open(self@, r, c),
            decreases 4 - y,
        {
            let mut x: u16 = 0;
            while x < 4
                invariant
                    self.wf(),
                    p.wf(),
                    pr == p@.row,
                    pc == p@.col,
                    i32::MIN <= pr <= i32::MAX,
                    i32::MIN <= pc <= i32::MAX,
                    y < 4,
                    x <= 4,
                    forall|r: int, c: int|
                        #[trigger] p@.covers(r, c) && (r < p@.row + y || (r == p@.row + y && c
                            < p@.col + x)) ==> is_open(self@, r, c),
                decreases 4 - x,
            {
                if p.box_cell(y, x) {
                    let r = pr + y as i64;
                    let c = pc + x as i64;
                    assert(p@.covers(r as int, c as int));
                    if r < 0 || r >= 40 || c < 0 || c >= 10 {
                        return true;
                    }
                    if matches!(self.cells[(r * 10 + c) as usize], Cell::Filled(_)) {
                        return true;
                    }
                }
                x = x + 1;
            }
            y = y + 1;
        }
        false
    }

    /// Writes the cells of `p` into the grid, filled with its kind.
    pub fn place(&mut self, p: &PieceState)
        requires
            old(self).wf(),
            p.wf(),
            !blocked(old(self)@, p@),
        ensures
            final(self)@ == with_piece(old(self)@, p@),
    {
        let ghost g = self@;
        proof {
            lemma_unblocked_bounds(g, p@);
        }
        let pr = p.row() as i64;
        let pc = p.col() as i64;
        let mut y: u16 = 0;
        while y < 4
            invariant
                p.wf(),
                !blocked(g, p@),
                g.len() == 400,
                pr == p@.row,
                pc == p@.col,
                -2 <= pr <= 38,
                -2 <= pc <= 8,
                y <= 4,
                self@.len() == 400,
                forall|r: int, c: int|
                    0 <= r < 40 && 0 <= c < 10 ==> #[trigger] cell_at(self@, r, c) == if p@.covers(r, c)
                        && r < pr + y {
                        Cell::Filled(p@.kind)
                    } else {
                        cell_at(g, r, c)
                    },
            decreases 4 - y,
        {
            let mut x: u16 = 0;
            while x < 4
                invariant
                    p.wf(),
                    !blocked(g, p@),
                    g.len() == 400,
                    pr == p@.row,
                    pc == p@.col,
                    -2 <= pr <= 38,
                    -2 <= pc <= 8,
                    y < 4,
                    x <= 4,
                    self@.len() == 400,
                    forall|r: int, c: int|
                        0 <= r < 40 && 0 <= c < 10 ==> #[trigger] cell_at(self@, r, c) == if p@.covers(
                            r,
                            c,
                        ) && (r < pr + y || (r == pr + y && c < pc + x)) {
                            Cell::Filled(p@.kind)
                        } else {
                            cell_at(g, r, c)
                        },
                decreases 4 - x,
            {
                if p.box_cell(y, x) {
                    let r = pr + y as i64;
                    let c = pc + x as i64;
                    assert(p@.covers(r as int, c as int));
                    assert(is_open(g, r as int, c as int));
                    let ghost before = self@;
                    self.cells.set((r * 10 + c) as usize, Cell::Filled(p.kind()));
                    assert forall|r2: int, c2: int| 0 <= r2 < 40 && 0 <= c2 < 10 implies #[trigger] cell_at(
                        self@,
                        r2,
                        c2,
                    ) == if r2 == r && c2 == c {
                        Cell::Filled(p@.kind)
                    } else {
                        cell_at(before, r2, c2)
                    } by {
                        if r2 != r || c2 != c {
                            assert(r2 * 10 + c2 != r * 10 + c);
                        }
                    }
                }
                x = x + 1;
            }
            y = y + 1;
        }
        assert forall|i: int| 0 <= i < 400 implies self@[i] == with_piece(g, p@)[i] by {
            let r = i / 10;
            let c = i % 10;
            assert(i == r * 10 + c);
            assert(cell_at(self@, r, c) == self@[i]);
        }
        assert(self@ =~= with_piece(g, p@));
    }

    /// Whether a cell of the hidden buffer is filled.
    pub fn has_hidden_filled(&self) -> (b: bool)
        requires
            self.wf(),
        ensures
            b == hidden_filled(self@),
    {
        let mut r: usize = 0;
        while r < 20
            invariant
                self.wf(),
                r <= 20,
                forall|r2: int, c: int|
                    0 <= r2 < r && 0 <= c < 10 ==> #[trigger] cell_at(self@, r2, c) == Cell::Empty,
            decreases 20 - r,
        {
            let mut c: usize = 0;
            while c < 10
                invariant
                    self.wf(),
                    r < 20,
                    c <= 10,
                    forall|r2: int, c2: int|
                        (0 <= r2 < r && 0 <= c2 < 10) || (r2 == r && 0 <= c2 < c) ==> #[trigger] cell_at(
                            self@,
                            r2,
                            c2,
                        ) == Cell::Empty,
                decreases 10 - c,
            {
                if self.cells[r * 10 + c] != Cell::Empty {
                    assert(cell_at(self@, r as int, c as int) != Cell::Empty);
                    return true;
                }
                c = c + 1;
            }
            r = r + 1;
        }
        false
    }

    /// Whether all ten cells of row `r` are filled.
    pub fn is_row_full(&self, r: usize) -> (b: bool)
        requires
            self.wf(),
            r < 40,
        ensures
            b == row_full(self@, r as int),
    {
        let mut c: usize = 0;
        while c < 10
            invariant
                self.wf(),
                r < 40,
                c <= 10,
                forall|c2: int| 0 <= c2 < c ==> #[trigger] cell_at(self@, r as int, c2) != Cell::Empty,
            decreases 10 - c,
        {
            if self.cells[r * 10 + c] == Cell::Empty {
                assert(cell_at(self@, r as int, c as int) == Cell::Empty);
                return false;
            }
            c = c + 1;
        }
        true
    }

    /// The line-clear pass. A filled cell in the hidden buffer ends the game
    /// and leaves the grid as it is. Otherwise every full row is removed, the
    /// rows above it move down, and as many empty rows come in at the top, so
    /// that the grid keeps its 400 cells.
    pub fn evaluate(&mut self) -> (res: LineClearResult)
        requires
            old(self).wf(),
        ensures
            final(self).wf(),
            hidden_filled(old(self)@) ==> res == LineClearResult::TopOut && final(self)@ == old(
                self,
            )@,
            !hidden_filled(old(self)@) ==> res == LineClearResult::Cleared(
                full_row_count(old(self)@) as u32,
            ) && collapsed(final(self)@, old(self)@),
            0 <= full_row_count(old(self)@) <= 40,
    {
        proof {
            lemma_kept_rows_len(self@, 40);
        }
        if self.has_hidden_filled() {
            return LineClearResult::TopOut;
        }
        let ghost g = self@;
        let mut kept: Vec<Cell> = Vec::new();
        let mut n_kept: usize = 0;
        let mut r: usize = 0;
        while r < 40
            invariant
                self@ == g,
                self.wf(),
                r <= 40,
                n_kept == kept_rows(g, r as nat).len(),
                n_kept <= r,
                kept@.len() == 10 * n_kept,
                forall|j: int, c: int|
                    0 <= j < n_kept && 0 <= c < 10 ==> #[trigger] kept@[10 * j + c] == cell_at(
                        g,
                        kept_rows(g, r as nat)[j],
                        c,
                    ),
            decreases 40 - r,
        {
            if !self.is_row_full(r) {
                let mut c: usize = 0;
                while c < 10
                    invariant
                        self@ == g,
                        self.wf(),
                        r < 40,
                        n_kept <= r,
                        c <= 10,
                        kept@.len() == 10 * n_kept + c,
                        forall|j: int, c2: int|
                            0 <= j < n_kept && 0 <= c2 < 10 ==> #[trigger] kept@[10 * j + c2]
                                == cell_at(g, kept_rows(g, r as nat)[j], c2),
                        forall|c2: int|
                            0 <= c2 < c ==> #[trigger] kept@[10 * n_kept + c2] == cell_at(
                                g,
                                r as int,
                                c2,
                            ),
                    decreases 10 - c,
                {
                    kept.push(self.cells[r * 10 + c]);
                    c = c + 1;
                }
                proof {
                    let next = kept_rows(g, (r + 1) as nat);
                    assert(next == kept_rows(g, r as nat).push(r as int));
                    assert forall|j: int, c2: int|
                        0 <= j < n_kept + 1 && 0 <= c2 < 10 implies #[trigger] kept@[10 * j + c2]
                        == cell_at(g, next[j], c2) by {
                        if j == n_kept {
                            assert(kept@[10 * n_kept + c2] == cell_at(g, r as int, c2));
                        }
                    }
                }
                n_kept = n_kept + 1;
            }
            r = r + 1;
        }
        let k: usize = 40 - n_kept;
        let mut out: Vec<Cell> = Vec::new();
        let mut i: usize = 0;
        while i < 10 * k
            invariant
                k == 40 - n_kept,
                i <= 10 * k,
                out@.len() == i,
                forall|j: int| 0 <= j < i ==> out@[j] == Cell::Empty,
            decreases 10 * k - i,
        {
            out.push(Cell::Empty);
            i = i + 1;
        }
        let mut j: usize = 0;
        while j < kept.len()
            invariant
                k == 40 - n_kept,
                kept@.len() == 10 * n_kept,
                j <= kept@.len(),
                out@.len() == 10 * k + j,
                forall|i2: int| 0 <= i2 < 10 * k ==> out@[i2] == Cell::Empty,
                forall|j2: int| 0 <= j2 < j ==> out@[10 * k + j2] == kept@[j2],
            decreases kept@.len() - j,
        {
            out.push(kept[j]);
            j = j + 1;
        }
        self.cells = out;
        assert forall|r2: int, c: int| 0 <= r2 < 40 && 0 <= c < 10 implies #[trigger] cell_at(
            self@,
            r2,
            c,
        ) == if r2 < k {
            Cell::Empty
        } else {
            cell_at(g, kept_rows(g, 40)[r2 - k], c)
        } by {
            if r2 >= k {
                assert(self@[r2 * 10 + c] == kept@[10 * (r2 - k) + c]);
            }
        }
        LineClearResult::Cleared(k as u32)
    }

    /// Where `p` comes to rest if it falls straight down: the piece is moved
    /// down one row at a time while the next row down still fits.
    pub fn landing(&self, p: &PieceState) -> (q: PieceState)
        requires
            self.wf(),
            p.wf(),
            !blocked(self@, p@),
        ensures
            q.wf(),
            q@ == landed(self@, p@),
            q@ == p@.shifted(q@.row - p@.row, 0),
            q@.row >= p@.row,
            blocked(self@, q@.shifted(1, 0)),
            forall|d: int| 0 <= d <= q@.row - p@.row ==> !blocked(self@, #[trigger] p@.shifted(d, 0)),
    {
        let mut q = *p;
        loop
            invariant
                self.wf(),
                p.wf(),
                q.wf(),
                q@ == p@.shifted(q@.row - p@.row, 0),
                q@.row >= p@.row,
                landed(self@, q@) == landed(self@, p@),
                forall|d: int|
                    0 <= d <= q@.row - p@.row ==> !blocked(self@, #[trigger] p@.shifted(d, 0)),
            decreases 40 - q@.row,
        {
            proof {
                lemma_unblocked_bounds(self@, q@);
            }
            let next = q.shifted(1, 0);
            if self.collides(&next) {
                return q;
            }
            assert(next@ == p@.shifted(next@.row - p@.row, 0));
            q = next;
        }
    }
}

} // verus!
