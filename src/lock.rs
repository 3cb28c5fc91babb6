//! Lock timing: a piece falls, waits in lock delay once it rests on
//! something, and locks when the delay runs out or on a hard drop.

use vstd::prelude::*;

verus! {

/// Ticks of lock delay after which a resting piece locks.
pub const LOCK_DELAY_TICKS: u32 = 50;

/// Where the active piece stands in its fall.
#[derive(Clone, Copy, Debug, PartialEq, Eq, Structural)]
pub enum LockState {
    /// Gravity applies.
    Falling,
    /// The piece rests; this many ticks of delay have passed.
    LockDelay(u32),
    /// The piece is to be written into the grid.
    Locked,
}

/// What happened to the active piece.
#[derive(Clone, Copy, Debug, PartialEq, Eq, Structural)]
pub enum LockInput {
    /// A move, turn or downward step was accepted.
    MoveAccepted,
    /// A downward step was refused.
    DownBlocked,
    /// A tick passed.
    Tick,
    /// The player dropped the piece to the bottom.
    HardDrop,
}

/// One more tick of lock delay after `n` of them.
pub open spec fn delay_step(n: u32) -> LockState {
    if n + 1 >= LOCK_DELAY_TICKS {
        LockState::Locked
    } else {
        LockState::LockDelay((n + 1) as u32)
    }
}

/// The lock state after `e`. An accepted move puts a resting piece back to
/// falling, with no limit on how often; a refused downward step starts the
/// delay or counts on; the delay also counts on with each tick; a hard drop
/// locks at once; a locked piece stays locked.
pub open spec fn next_lock_state(s: LockState, e: LockInput) -> LockState {
    match (s, e) {
        (LockState::Locked, _) => LockState::Locked,
        (_, LockInput::HardDrop) => LockState::Locked,
        (_, LockInput::MoveAccepted) => LockState::Falling,
        (LockState::Falling, LockInput::DownBlocked) => LockState::LockDelay(0),
        (LockState::Falling, LockInput::Tick) => LockState::Falling,
        (LockState::LockDelay(n), _) => delay_step(n),
    }
}

impl LockState {
    /// The state after `e`.
    pub fn next(self, e: LockInput) -> (r: LockState)
        ensures
            r == next_lock_state(self, e),
            e == LockInput::HardDrop ==> r == LockState::Locked,
    {
        match (self, e) {
            (LockState::Locked, _) => LockState::Locked,
            (_, LockInput::HardDrop) => LockState::Locked,
            (_, LockInput::MoveAccepted) => LockState::Falling,
            (LockState::Falling, LockInput::DownBlocked) => LockState::LockDelay(0),
            (LockState::Falling, LockInput::Tick) => LockState::Falling,
            (LockState::LockDelay(n), _) => {
                if n >= LOCK_DELAY_TICKS - 1 {
                    LockState::Locked
                } else {
                    LockState::LockDelay(n + 1)
                }
            },
        }
    }
}

} // verus!
