//! Game logic of a falling-block puzzle: playfield, pieces, rotation with
//! wall kicks, the seven-piece bag, line clearing, lock timing and hold.

pub mod bag;
pub mod engine;
pub mod gravity;
pub mod grid;
pub mod lock;
pub mod piece;
pub mod rotation;
pub mod shape;

pub use bag::{shuffled_batch, Bag};
pub use engine::{Command, EngineEvent, GameEngine};
pub use gravity::fall_interval_ticks;
pub use grid::{Cell, Grid, LineClearResult};
pub use lock::{LockInput, LockState};
pub use piece::PieceState;
pub use rotation::rotate;
pub use shape::{Orientation, ShapeKind, Turn};
