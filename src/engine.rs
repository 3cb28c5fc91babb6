//! The game engine: owns the grid, the active piece, the bag, the hold slot,
//! the lock timer and the line counter, and changes them only through
//! commands and ticks.

use vstd::prelude::*;
use crate::bag::{draw_step, is_full_set, Bag};
use crate::gravity::{fall_interval, fall_interval_ticks};
use crate::grid::{
    blocked, cell_at, collapsed, full_row_count, hidden_filled, landed,
    lemma_collapse_keeps_hidden_empty, with_piece, Cell, Grid, LineClearResult,
};
use crate::lock::{next_lock_state, LockInput, LockState};
use crate::piece::{spawn_placement, Placement, PieceState};
use crate::rotation::{lemma_turn_in_place, rotate, rotated};
use crate::shape::{Orientation, ShapeKind, Turn};

verus! {

/// A player command.
#[derive(Clone, Copy, Debug, PartialEq, Eq, Structural)]
pub enum Command {
    MoveLeft,
    MoveRight,
    SoftDrop,
    HardDrop,
    RotateCw,
    RotateCcw,
    Hold,
}

/// What a command or a tick did.
#[derive(Clone, Copy, Debug, PartialEq, Eq, Structural)]
pub enum EngineEvent {
    /// The active piece moved.
    Moved,
    /// The active piece turned.
    Rotated,
    /// The active piece went to the hold slot.
    Held,
    /// Nothing changed but, at most, the lock timer.
    Rejected,
    /// The piece locked and no row was full.
    Locked,
    /// The piece locked and this many rows were cleared.
    LinesCleared(u32),
    /// The piece locked with a cell in the hidden buffer: the game is over.
    GameOver,
    /// A tick passed without moving the piece.
    Idle,
}

/// The engine as a mathematical value.
pub ghost struct EngineView {
    pub grid: Seq<Cell>,
    pub active: Placement,
    pub bag: Seq<ShapeKind>,
    pub held: Option<ShapeKind>,
    pub hold_available: bool,
    pub lock: LockState,
    pub lines: u64,
    pub fall_ticks: u64,
    pub over: bool,
}

impl EngineView {
    /// The grid holds 400 cells and, while the game runs, the active piece
    /// fits and the hidden buffer is empty.
    pub open spec fn wf(self) -> bool {
        &&& self.grid.len() == 400
        &&& !self.over ==> !blocked(self.grid, self.active) && !hidden_filled(self.grid)
    }
}

/// Whether `ev` reports a lock.
pub open spec fn is_lock_event(ev: EngineEvent) -> bool {
    ev == EngineEvent::Locked || ev is LinesCleared || ev == EngineEvent::GameOver
}

/// `a` with its active piece moved to `p`, which puts it back to falling.
pub open spec fn moved_to(a: EngineView, p: Placement) -> EngineView {
    EngineView { active: p, lock: next_lock_state(a.lock, LockInput::MoveAccepted), ..a }
}

/// `b` and `ev` follow from locking the active piece of `a`: its cells are
/// written into the grid; a filled hidden cell then ends the game;
/// otherwise the full rows are cleared and counted, the next kind of the
/// bag spawns, hold is available again and the piece falls.
pub open spec fn lock_outcome(a: EngineView, b: EngineView, ev: EngineEvent) -> bool {
    let g1 = with_piece(a.grid, a.active);
    if hidden_filled(g1) {
        &&& ev == EngineEvent::GameOver
        &&& b == EngineView { grid: g1, lock: LockState::Locked, over: true, ..a }
    } else {
        let n = full_row_count(g1);
        &&& collapsed(b.grid, g1)
        &&& b.lines == if a.lines + n > u64::MAX {
            u64::MAX
        } else {
            (a.lines + n) as u64
        }
        &&& draw_step(a.bag, b.bag, b.active.kind)
        &&& b.active == spawn_placement(b.active.kind)
        &&& b.held == a.held
        &&& b.hold_available
        &&& b.lock == LockState::Falling
        &&& b.fall_ticks == 0
        &&& !b.over
        &&& ev == if n == 0 {
            EngineEvent::Locked
        } else {
            EngineEvent::LinesCleared(n as u32)
        }
    }
}

/// Moving the active piece of `a` by (`dr`, `dc`): taken where it fits,
/// refused otherwise.
pub open spec fn shift_outcome(
    a: EngineView,
    dr: int,
    dc: int,
    b: EngineView,
    ev: EngineEvent,
) -> bool {
    let cand = a.active.shifted(dr, dc);
    if !blocked(a.grid, cand) {
        ev == EngineEvent::Moved && b == moved_to(a, cand)
    } else {
        ev == EngineEvent::Rejected && b == a
    }
}

/// Turning the active piece of `a` by `t`, with wall kicks.
pub open spec fn turn_outcome(a: EngineView, t: Turn, b: EngineView, ev: EngineEvent) -> bool {
    match rotated(a.grid, a.active, t) {
        Some(q) => ev == EngineEvent::Rotated && b == moved_to(a, q),
        None => ev == EngineEvent::Rejected && b == a,
    }
}

/// One step down: taken where it fits; otherwise the lock timer counts, and
/// the piece locks where the delay has run out.
pub open spec fn soft_drop_outcome(a: EngineView, b: EngineView, ev: EngineEvent) -> bool {
    let cand = a.active.shifted(1, 0);
    let l = next_lock_state(a.lock, LockInput::DownBlocked);
    if !blocked(a.grid, cand) {
        ev == EngineEvent::Moved && b == moved_to(a, cand)
    } else if l == LockState::Locked {
        lock_outcome(a, b, ev)
    } else {
        ev == EngineEvent::Rejected && b == EngineView { lock: l, ..a }
    }
}

/// The piece falls as far as it fits and locks at once.
pub open spec fn hard_drop_outcome(a: EngineView, b: EngineView, ev: EngineEvent) -> bool {
    &&& next_lock_state(a.lock, LockInput::HardDrop) == LockState::Locked
    &&& lock_outcome(EngineView { active: landed(a.grid, a.active), ..a }, b, ev)
}

/// Hold: refused once used until the next lock. An empty slot takes the
/// active kind and the next kind of the bag spawns; a full slot swaps, and
/// the held kind spawns afresh.
pub open spec fn hold_outcome(a: EngineView, b: EngineView, ev: EngineEvent) -> bool {
    if !a.hold_available {
        ev == EngineEvent::Rejected && b == a
    } else {
        &&& ev == EngineEvent::Held
        &&& b.grid == a.grid
        &&& b.held == Some(a.active.kind)
        &&& !b.hold_available
        &&& b.lock == LockState::Falling
        &&& b.lines == a.lines
        &&& b.fall_ticks == a.fall_ticks
        &&& !b.over
        &&& match a.held {
            None => draw_step(a.bag, b.bag, b.active.kind) && b.active == spawn_placement(
                b.active.kind,
            ),
            Some(h) => b.bag == a.bag && b.active == spawn_placement(h),
        }
    }
}

/// What `apply(cmd)` does to `a`. Once the game is over every command is
/// refused.
pub open spec fn apply_outcome(a: EngineView, cmd: Command, b: EngineView, ev: EngineEvent) -> bool {
    if a.over {
        ev == EngineEvent::Rejected && b == a
    } else {
        match cmd {
            Command::MoveLeft => shift_outcome(a, 0, -1, b, ev),
            Command::MoveRight => shift_outcome(a, 0, 1, b, ev),
            Command::SoftDrop => soft_drop_outcome(a, b, ev),
            Command::HardDrop => hard_drop_outcome(a, b, ev),
            Command::RotateCw => turn_outcome(a, Turn::Cw, b, ev),
            Command::RotateCcw => turn_outcome(a, Turn::Ccw, b, ev),
            Command::Hold => hold_outcome(a, b, ev),
        }
    }
}

/// What `tick()` does to `a`. A resting piece counts its lock delay and
/// locks when it runs out. A falling piece counts ticks; when the count
/// reaches the fall interval it is reset and the piece steps down, or
/// starts its lock delay where it cannot.
pub open spec fn tick_outcome(a: EngineView, b: EngineView, ev: EngineEvent) -> bool {
    if a.over {
        ev == EngineEvent::Rejected && b == a
    } else if a.lock is LockDelay {
        let l = next_lock_state(a.lock, LockInput::Tick);
        if l == LockState::Locked {
            lock_outcome(a, b, ev)
        } else {
            ev == EngineEvent::Idle && b == EngineView { lock: l, ..a }
        }
    } else if a.fall_ticks + 1 < fall_interval(a.lines) {
        ev == EngineEvent::Idle && b == EngineView { fall_ticks: (a.fall_ticks + 1) as u64, ..a }
    } else {
        let cand = a.active.shifted(1, 0);
        if !blocked(a.grid, cand) {
            ev == EngineEvent::Moved && b == EngineView { active: cand, fall_ticks: 0, ..a }
        } else {
            &&& ev == EngineEvent::Idle
            &&& b == EngineView {
                lock: next_lock_state(a.lock, LockInput::DownBlocked),
                fall_ticks: 0,
                ..a
            }
        }
    }
}

/// A command is either taken, with the event that says what it did, or
/// refused. A refused command changes nothing but, at most, the lock timer,
/// and the grid changes only when a piece locks.
pub proof fn lemma_grid_changes_only_on_lock(
    a: EngineView,
    cmd: Command,
    b: EngineView,
    ev: EngineEvent,
)
    requires
        apply_outcome(a, cmd, b, ev),
    ensures
        ev != EngineEvent::Idle,
        ev == EngineEvent::Rejected ==> b == (EngineView { lock: b.lock, ..a }),
        b.grid != a.grid ==> is_lock_event(ev),
{
}

/// A hard drop locks the piece in the same command, whatever the lock timer
/// stood at: no tick of lock delay passes.
pub proof fn lemma_hard_drop_locks_at_once(a: EngineView, b: EngineView, ev: EngineEvent)
    requires
        !a.over,
        apply_outcome(a, Command::HardDrop, b, ev),
    ensures
        next_lock_state(a.lock, LockInput::HardDrop) == LockState::Locked,
        is_lock_event(ev),
{
}

/// At a lock, the game ends exactly when the grid, with the piece written
/// into it, has a filled cell in the hidden buffer.
pub proof fn lemma_game_over_iff_top_out(a: EngineView, b: EngineView, ev: EngineEvent)
    requires
        lock_outcome(a, b, ev),
    ensures
        (ev == EngineEvent::GameOver) == hidden_filled(with_piece(a.grid, a.active)),
        (ev == EngineEvent::GameOver) == b.over,
{
}

/// The game-over event comes once: from a running game, which it ends.
/// Afterwards every command and tick is refused and changes nothing.
pub proof fn lemma_game_over_once(a: EngineView, cmd: Command, b: EngineView, ev: EngineEvent)
    requires
        apply_outcome(a, cmd, b, ev),
    ensures
        ev == EngineEvent::GameOver ==> !a.over && b.over,
        a.over ==> ev == EngineEvent::Rejected && b == a,
        forall|b2: EngineView, ev2: EngineEvent|
            a.over && #[trigger] tick_outcome(a, b2, ev2) ==> ev2 == EngineEvent::Rejected && b2 == a,
{
}

/// Turning an O piece in a running game always succeeds and leaves its
/// origin and its cells as they were.
pub proof fn lemma_o_piece_turns_in_place(
    a: EngineView,
    cmd: Command,
    b: EngineView,
    ev: EngineEvent,
)
    requires
        a.wf(),
        !a.over,
        a.active.kind == ShapeKind::O,
        cmd == Command::RotateCw || cmd == Command::RotateCcw,
        apply_outcome(a, cmd, b, ev),
    ensures
        ev == EngineEvent::Rotated,
        b.grid == a.grid,
        b.active.row == a.active.row,
        b.active.col == a.active.col,
        forall|r: int, c: int| #[trigger] b.active.covers(r, c) == a.active.covers(r, c),
{
    let t = if cmd == Command::RotateCw {
        Turn::Cw
    } else {
        Turn::Ccw
    };
    crate::rotation::lemma_o_turns_in_place(a.grid, a.active, t);
}

/// Four clockwise turns of a piece that fits at its origin in every
/// orientation are all taken and bring it back to its orientation and
/// origin.
pub proof fn lemma_four_turns_restore_piece(
    a: EngineView,
    b1: EngineView,
    b2: EngineView,
    b3: EngineView,
    b4: EngineView,
    e1: EngineEvent,
    e2: EngineEvent,
    e3: EngineEvent,
    e4: EngineEvent,
)
    requires
        !a.over,
        forall|o: Orientation| !blocked(a.grid, #[trigger] a.active.oriented(o)),
        apply_outcome(a, Command::RotateCw, b1, e1),
        apply_outcome(b1, Command::RotateCw, b2, e2),
        apply_outcome(b2, Command::RotateCw, b3, e3),
        apply_outcome(b3, Command::RotateCw, b4, e4),
    ensures
        e1 == EngineEvent::Rotated && e2 == EngineEvent::Rotated,
        e3 == EngineEvent::Rotated && e4 == EngineEvent::Rotated,
        b4.active == a.active,
        b4.grid == a.grid,
{
    let p = a.active;
    let o1 = p.orientation.turned(Turn::Cw);
    let o2 = o1.turned(Turn::Cw);
    let o3 = o2.turned(Turn::Cw);
    let o4 = o3.turned(Turn::Cw);
    lemma_turn_in_place(a.grid, p, Turn::Cw);
    assert(b1.active == p.oriented(o1));
    assert(p.oriented(o1).oriented(o2) == p.oriented(o2));
    lemma_turn_in_place(a.grid, p.oriented(o1), Turn::Cw);
    assert(b2.active == p.oriented(o2));
    assert(p.oriented(o2).oriented(o3) == p.oriented(o3));
    lemma_turn_in_place(a.grid, p.oriented(o2), Turn::Cw);
    assert(b3.active == p.oriented(o3));
    assert(p.oriented(o3).oriented(o4) == p.oriented(o4));
    lemma_turn_in_place(a.grid, p.oriented(o3), Turn::Cw);
    assert(b4.active == p.oriented(o4));
    assert(p.oriented(o4) == p);
}

/// Hold with an empty slot stores the active kind and spawns the next kind
/// of the bag, leaving the grid alone; a second hold before any lock is
/// refused and changes nothing.
pub proof fn lemma_hold_once_per_lock(
    a: EngineView,
    b: EngineView,
    c: EngineView,
    ev: EngineEvent,
    ev2: EngineEvent,
)
    requires
        !a.over,
        a.hold_available,
        a.held is None,
        apply_outcome(a, Command::Hold, b, ev),
        apply_outcome(b, Command::Hold, c, ev2),
    ensures
        ev == EngineEvent::Held,
        b.held == Some(a.active.kind),
        draw_step(a.bag, b.bag, b.active.kind),
        b.active == spawn_placement(b.active.kind),
        b.grid == a.grid,
        b.lines == a.lines,
        ev2 == EngineEvent::Rejected,
        c == b,
{
}

/// A piece spawns in the hidden buffer, so it fits while that is empty.
proof fn lemma_spawn_fits(g: Seq<Cell>, k: ShapeKind)
    requires
        g.len() == 400,
        !hidden_filled(g),
    ensures
        !blocked(g, spawn_placement(k)),
{
    let p = spawn_placement(k);
    if blocked(g, p) {
        let (r, c) = choose|r: int, c: int| #[trigger] p.covers(r, c) && !crate::grid::is_open(g, r, c);
        assert(cell_at(g, r, c) == Cell::Empty);
    }
}

/// The falling-block game.
pub struct GameEngine {
    grid: Grid,
    active: PieceState,
    bag: Bag,
    held: Option<ShapeKind>,
    hold_available: bool,
    lock: LockState,
    lines: u64,
    fall_ticks: u64,
    over: bool,
}

impl View for GameEngine {
    type V = EngineView;

    closed spec fn view(&self) -> EngineView {
        EngineView {
            grid: self.grid@,
            active: self.active@,
            bag: self.bag@,
            held: self.held,
            hold_available: self.hold_available,
            lock: self.lock,
            lines: self.lines,
            fall_ticks: self.fall_ticks,
            over: self.over,
        }
    }
}

impl GameEngine {
    /// While the game runs the active piece fits, the hidden buffer is
    /// empty, the piece is not locked and the fall count is below the
    /// interval.
    pub closed spec fn wf(&self) -> bool {
        &&& self.grid.wf()
        &&& self.active.wf()
        &&& self.bag.wf()
        &&& !self.over ==> {
            &&& !blocked(self.grid@, self.active@)
            &&& !hidden_filled(self.grid@)
            &&& self.lock != LockState::Locked
            &&& self.fall_ticks < fall_interval(self.lines)
        }
    }

    /// A game on `grid`, with `bag` as the upcoming kinds; the first kind is
    /// drawn from it.
    fn start(grid: Grid, bag: Bag) -> (e: GameEngine)
        requires
            grid.wf(),
            !hidden_filled(grid@),
            bag.wf(),
        ensures
            e.wf(),
            draw_step(bag@, e@.bag, e@.active.kind),
            e@.active == spawn_placement(e@.active.kind),
            e@.grid == grid@,
            e@.held is None,
            e@.hold_available,
            e@.lock == LockState::Falling,
            e@.lines == 0,
            e@.fall_ticks == 0,
            !e@.over,
    {
        let mut bag = bag;
        let k = bag.draw();
        let active = PieceState::spawn(k);
        proof {
            lemma_spawn_fits(grid@, k);
        }
        GameEngine {
            grid,
            active,
            bag,
            held: None,
            hold_available: true,
            lock: LockState::Falling,
            lines: 0,
            fall_ticks: 0,
            over: false,
        }
    }

    /// A new game on an empty grid with a freshly shuffled bag.
    pub fn new() -> (e: GameEngine)
        ensures
            e.wf(),
            e@.wf(),
            forall|i: int| 0 <= i < 400 ==> e@.grid[i] == Cell::Empty,
            is_full_set(e@.bag.push(e@.active.kind)),
            e@.active == spawn_placement(e@.active.kind),
            e@.held is None,
            e@.hold_available,
            e@.lock == LockState::Falling,
            e@.lines == 0,
            e@.fall_ticks == 0,
            !e@.over,
    {
        let grid = Grid::new();
        let bag = Bag::new();
        let ghost b0 = bag@;
        proof {
            crate::bag::lemma_full_set_len(b0);
        }
        let e = GameEngine::start(grid, bag);
        assert(e@.bag.push(e@.active.kind) =~= b0);
        e
    }

    /// Starts over: a new game on an empty grid with a freshly shuffled bag.
    pub fn reset(&mut self)
        ensures
            final(self).wf(),
            final(self)@.wf(),
            forall|i: int| 0 <= i < 400 ==> final(self)@.grid[i] == Cell::Empty,
            is_full_set(final(self)@.bag.push(final(self)@.active.kind)),
            final(self)@.active == spawn_placement(final(self)@.active.kind),
            final(self)@.held is None,
            final(self)@.hold_available,
            final(self)@.lock == LockState::Falling,
            final(self)@.lines == 0,
            final(self)@.fall_ticks == 0,
            !final(self)@.over,
    {
        *self = GameEngine::new();
    }

    /// A new game on `grid` whose bag starts with `batch`, drawn from its
    /// end.
    pub fn with_grid(grid: Grid, batch: Vec<ShapeKind>) -> (e: GameEngine)
        requires
            grid.wf(),
            !hidden_filled(grid@),
            is_full_set(batch@),
        ensures
            e.wf(),
            e@.wf(),
            e@.grid == grid@,
            e@.active == spawn_placement(batch@.last()),
            e@.bag == batch@.drop_last(),
            e@.held is None,
            e@.hold_available,
            e@.lock == LockState::Falling,
            e@.lines == 0,
            e@.fall_ticks == 0,
            !e@.over,
    {
        let bag = Bag::from_batch(batch);
        proof {
            crate::bag::lemma_full_set_len(batch@);
        }
        GameEngine::start(grid, bag)
    }

    /// A new game on an empty grid whose bag starts with `batch`.
    pub fn with_batch(batch: Vec<ShapeKind>) -> (e: GameEngine)
        requires
            is_full_set(batch@),
        ensures
            e.wf(),
            e@.wf(),
            forall|i: int| 0 <= i < 400 ==> e@.grid[i] == Cell::Empty,
            e@.active == spawn_placement(batch@.last()),
            e@.bag == batch@.drop_last(),
            e@.held is None,
            e@.hold_available,
            e@.lock == LockState::Falling,
            e@.lines == 0,
            e@.fall_ticks == 0,
            !e@.over,
    {
        let grid = Grid::new();
        assert(!hidden_filled(grid@)) by {
            assert forall|r: int, c: int| 0 <= r < 20 && 0 <= c < 10 implies #[trigger] cell_at(
                grid@,
                r,
                c,
            ) == Cell::Empty by {
                assert(grid@[r * 10 + c] == Cell::Empty);
            }
        }
        GameEngine::with_grid(grid, batch)
    }

    /// Writes the active piece into the grid and runs the line-clear pass.
    fn lock_active(&mut self) -> (ev: EngineEvent)
        requires
            old(self).wf(),
            !old(self)@.over,
        ensures
            final(self).wf(),
            lock_outcome(old(self)@, final(self)@, ev),
    {
        let ghost a = self@;
        self.grid.place(&self.active);
        let ghost g1 = self.grid@;
        match self.grid.evaluate() {
            LineClearResult::TopOut => {
                self.lock = LockState::Locked;
                self.over = true;
                EngineEvent::GameOver
            },
            LineClearResult::Cleared(n) => {
                proof {
                    lemma_collapse_keeps_hidden_empty(self.grid@, g1);
                }
                self.lines = self.lines.saturating_add(n as u64);
                let k = self.bag.draw();
                self.active = PieceState::spawn(k);
                proof {
                    lemma_spawn_fits(self.grid@, k);
                }
                self.hold_available = true;
                self.lock = LockState::Falling;
                self.fall_ticks = 0;
                if n == 0 {
                    EngineEvent::Locked
                } else {
                    EngineEvent::LinesCleared(n)
                }
            },
        }
    }

    /// Moves the active piece by (`dr`, `dc`) where it fits.
    fn try_shift(&mut self, dr: i32, dc: i32) -> (ev: EngineEvent)
        requires
            old(self).wf(),
            !old(self)@.over,
            -1 <= dr <= 1,
            -1 <= dc <= 1,
        ensures
            final(self).wf(),
            shift_outcome(old(self)@, dr as int, dc as int, final(self)@, ev),
    {
        proof {
            crate::grid::lemma_unblocked_bounds(self.grid@, self.active@);
        }
        let cand = self.active.shifted(dr, dc);
        if self.grid.collides(&cand) {
            EngineEvent::Rejected
        } else {
            self.active = cand;
            self.lock = self.lock.next(LockInput::MoveAccepted);
            EngineEvent::Moved
        }
    }

    /// Turns the active piece by `t` with wall kicks.
    fn try_turn(&mut self, t: Turn) -> (ev: EngineEvent)
        requires
            old(self).wf(),
            !old(self)@.over,
        ensures
            final(self).wf(),
            turn_outcome(old(self)@, t, final(self)@, ev),
    {
        match rotate(&self.grid, &self.active, t) {
            Some(q) => {
                self.active = q;
                self.lock = self.lock.next(LockInput::MoveAccepted);
                EngineEvent::Rotated
            },
            None => EngineEvent::Rejected,
        }
    }

    /// One step down by the player.
    fn soft_drop(&mut self) -> (ev: EngineEvent)
        requires
            old(self).wf(),
            !old(self)@.over,
        ensures
            final(self).wf(),
            soft_drop_outcome(old(self)@, final(self)@, ev),
    {
        proof {
            crate::grid::lemma_unblocked_bounds(self.grid@, self.active@);
        }
        let cand = self.active.shifted(1, 0);
        if !self.grid.collides(&cand) {
            self.active = cand;
            self.lock = self.lock.next(LockInput::MoveAccepted);
            return EngineEvent::Moved;
        }
        let l = self.lock.next(LockInput::DownBlocked);
        if l == LockState::Locked {
            self.lock_active()
        } else {
            self.lock = l;
            EngineEvent::Rejected
        }
    }

    /// Drops the active piece as far as it fits and locks it at once.
    fn hard_drop(&mut self) -> (ev: EngineEvent)
        requires
            old(self).wf(),
            !old(self)@.over,
        ensures
            final(self).wf(),
            hard_drop_outcome(old(self)@, final(self)@, ev),
    {
        self.active = self.grid.landing(&self.active);
        self.lock_active()
    }

    /// Puts the active kind into the hold slot.
    fn hold(&mut self) -> (ev: EngineEvent)
        requires
            old(self).wf(),
            !old(self)@.over,
        ensures
            final(self).wf(),
            hold_outcome(old(self)@, final(self)@, ev),
    {
        if !self.hold_available {
            return EngineEvent::Rejected;
        }
        let current = self.active.kind();
        match self.held {
            Some(h) => {
                self.active = PieceState::spawn(h);
                proof {
                    lemma_spawn_fits(self.grid@, h);
                }
            },
            None => {
                let k = self.bag.draw();
                self.active = PieceState::spawn(k);
                proof {
                    lemma_spawn_fits(self.grid@, k);
                }
            },
        }
        self.held = Some(current);
        self.hold_available = false;
        self.lock = LockState::Falling;
        EngineEvent::Held
    }

    /// Carries out a player command.
    pub fn apply(&mut self, cmd: Command) -> (ev: EngineEvent)
        requires
            old(self).wf(),
        ensures
            final(self).wf(),
            final(self)@.wf(),
            apply_outcome(old(self)@, cmd, final(self)@, ev),
    {
        if self.over {
            return EngineEvent::Rejected;
        }
        match cmd {
            Command::MoveLeft => self.try_shift(0, -1),
            Command::MoveRight => self.try_shift(0, 1),
            Command::SoftDrop => self.soft_drop(),
            Command::HardDrop => self.hard_drop(),
            Command::RotateCw => self.try_turn(Turn::Cw),
            Command::RotateCcw => self.try_turn(Turn::Ccw),
            Command::Hold => self.hold(),
        }
    }

    /// Advances the game by one tick.
    pub fn tick(&mut self) -> (ev: EngineEvent)
        requires
            old(self).wf(),
        ensures
            final(self).wf(),
            final(self)@.wf(),
            tick_outcome(old(self)@, final(self)@, ev),
    {
        if self.over {
            return EngineEvent::Rejected;
        }
        if let LockState::LockDelay(_) = self.lock {
            let l = self.lock.next(LockInput::Tick);
            if l == LockState::Locked {
                return self.lock_active();
            }
            self.lock = l;
            return EngineEvent::Idle;
        }
        let interval = fall_interval_ticks(self.lines);
        if self.fall_ticks + 1 < interval {
            self.fall_ticks = self.fall_ticks + 1;
            return EngineEvent::Idle;
        }
        self.fall_ticks = 0;
        proof {
            crate::grid::lemma_unblocked_bounds(self.grid@, self.active@);
        }
        let cand = self.active.shifted(1, 0);
        if !self.grid.collides(&cand) {
            self.active = cand;
            EngineEvent::Moved
        } else {
            self.lock = self.lock.next(LockInput::DownBlocked);
            EngineEvent::Idle
        }
    }

    /// The playfield.
    pub fn grid(&self) -> (g: &Grid)
        ensures
            g@ == self@.grid,
            self.wf() ==> g.wf(),
    {
        &self.grid
    }

    /// The active piece.
    pub fn active(&self) -> (p: PieceState)
        requires
            self.wf(),
        ensures
            p.wf(),
            p@ == self@.active,
    {
        self.active
    }

    /// Where the active piece would land if dropped: its lowest place at
    /// its column and orientation.
    pub fn ghost_piece(&self) -> (p: PieceState)
        requires
            self.wf(),
            !self@.over,
        ensures
            p.wf(),
            p@ == landed(self@.grid, self@.active),
    {
        self.grid.landing(&self.active)
    }

    /// The kind in the hold slot, if any.
    pub fn hold_slot(&self) -> (h: Option<ShapeKind>)
        ensures
            h == self@.held,
    {
        self.held
    }

    /// Whether hold may be used before the next lock.
    pub fn hold_available(&self) -> (b: bool)
        ensures
            b == self@.hold_available,
    {
        self.hold_available
    }

    /// The kind that spawns next, without drawing it.
    pub fn next_kind(&self) -> (k: ShapeKind)
        requires
            self.wf(),
        ensures
            k == self@.bag.last(),
    {
        self.bag.peek()
    }

    /// Lines cleared so far.
    pub fn lines(&self) -> (n: u64)
        ensures
            n == self@.lines,
    {
        self.lines
    }

    /// The level: one for every ten lines cleared.
    pub fn level(&self) -> (l: u64)
        ensures
            l == self@.lines / 10,
    {
        self.lines / 10
    }

    /// The lock timer.
    pub fn lock_state(&self) -> (l: LockState)
        ensures
            l == self@.lock,
    {
        self.lock
    }

    /// Whether the game is over.
    pub fn is_over(&self) -> (b: bool)
        ensures
            b == self@.over,
    {
        self.over
    }
}

} // verus!
