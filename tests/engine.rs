use tetris::{Cell, Command, EngineEvent, GameEngine, Grid, LockState, Orientation, ShapeKind};

fn batch() -> Vec<ShapeKind> {
    vec![
        ShapeKind::I,
        ShapeKind::O,
        ShapeKind::T,
        ShapeKind::S,
        ShapeKind::Z,
        ShapeKind::J,
        ShapeKind::L,
    ]
}

fn batch_ending_in(last: ShapeKind) -> Vec<ShapeKind> {
    let mut b: Vec<ShapeKind> = batch().into_iter().filter(|k| *k != last).collect();
    b.push(last);
    b
}

fn filled_cells(grid: &Grid) -> usize {
    let mut n = 0;
    for row in 0..40 {
        for col in 0..10 {
            if grid.read(row, col) != Cell::Empty {
                n += 1;
            }
        }
    }
    n
}

#[test]
fn new_game_starts_empty_and_falling() {
    let e = GameEngine::new();
    assert_eq!(filled_cells(e.grid()), 0);
    assert_eq!(e.hold_slot(), None);
    assert!(e.hold_available());
    assert_eq!(e.lock_state(), LockState::Falling);
    assert_eq!(e.lines(), 0);
    assert_eq!(e.level(), 0);
    assert!(!e.is_over());
    let p = e.active();
    assert_eq!((p.row(), p.col(), p.orientation()), (18, 3, Orientation::N));
}

#[test]
fn spawning_i_on_empty_grid_covers_row_19_columns_3_to_6() {
    let e = GameEngine::with_batch(batch_ending_in(ShapeKind::I));
    let p = e.active();
    assert_eq!(p.kind(), ShapeKind::I);
    for row in 0..40 {
        for col in 0..10 {
            let expected = row == 19 && (3..=6).contains(&col);
            assert_eq!(p.occupies(row, col), expected, "({}, {})", row, col);
        }
    }
}

#[test]
fn moves_are_taken_until_a_wall() {
    let mut e = GameEngine::with_batch(batch_ending_in(ShapeKind::O));
    // O covers columns 4 and 5.
    for _ in 0..4 {
        assert_eq!(e.apply(Command::MoveLeft), EngineEvent::Moved);
    }
    assert_eq!(e.apply(Command::MoveLeft), EngineEvent::Rejected);
    assert_eq!(e.active().col(), -1);
    for _ in 0..8 {
        assert_eq!(e.apply(Command::MoveRight), EngineEvent::Moved);
    }
    assert_eq!(e.apply(Command::MoveRight), EngineEvent::Rejected);
    assert_eq!(e.active().col(), 7);
}

#[test]
fn rejected_commands_leave_grid_and_piece_alone() {
    let mut e = GameEngine::with_batch(batch_ending_in(ShapeKind::T));
    while e.apply(Command::MoveLeft) == EngineEvent::Moved {}
    let before = e.active();
    assert_eq!(e.apply(Command::MoveLeft), EngineEvent::Rejected);
    let after = e.active();
    assert_eq!((after.row(), after.col()), (before.row(), before.col()));
    assert_eq!(filled_cells(e.grid()), 0);
    assert_eq!(e.lines(), 0);
}

#[test]
fn four_clockwise_rotations_restore_the_piece() {
    let mut e = GameEngine::with_batch(batch_ending_in(ShapeKind::T));
    for _ in 0..5 {
        e.apply(Command::SoftDrop);
    }
    let start = e.active();
    for _ in 0..4 {
        assert_eq!(e.apply(Command::RotateCw), EngineEvent::Rotated);
    }
    let end = e.active();
    assert_eq!(end.orientation(), start.orientation());
    assert_eq!((end.row(), end.col()), (start.row(), start.col()));
}

#[test]
fn o_rotation_keeps_cells() {
    let mut e = GameEngine::with_batch(batch_ending_in(ShapeKind::O));
    let start = e.active();
    assert_eq!(e.apply(Command::RotateCcw), EngineEvent::Rotated);
    let p = e.active();
    assert_eq!((p.row(), p.col()), (start.row(), start.col()));
    for row in 0..40 {
        for col in 0..10 {
            assert_eq!(p.occupies(row, col), start.occupies(row, col));
        }
    }
}

#[test]
fn hard_drop_locks_at_once() {
    let mut e = GameEngine::with_batch(batch_ending_in(ShapeKind::O));
    let next = e.next_kind();
    assert_eq!(e.apply(Command::HardDrop), EngineEvent::Locked);
    assert_eq!(e.grid().read(38, 4), Cell::Filled(ShapeKind::O));
    assert_eq!(e.grid().read(38, 5), Cell::Filled(ShapeKind::O));
    assert_eq!(e.grid().read(39, 4), Cell::Filled(ShapeKind::O));
    assert_eq!(e.grid().read(39, 5), Cell::Filled(ShapeKind::O));
    assert_eq!(filled_cells(e.grid()), 4);
    assert_eq!(e.active().kind(), next);
    assert_eq!(e.lock_state(), LockState::Falling);
    assert!(e.hold_available());
}

#[test]
fn hard_drop_during_lock_delay_locks_at_once() {
    let mut e = GameEngine::with_batch(batch_ending_in(ShapeKind::O));
    while e.apply(Command::SoftDrop) == EngineEvent::Moved {}
    assert_eq!(e.lock_state(), LockState::LockDelay(0));
    assert_eq!(e.apply(Command::HardDrop), EngineEvent::Locked);
    assert_eq!(e.lock_state(), LockState::Falling);
}

#[test]
fn ghost_piece_is_the_landing_place() {
    let e = GameEngine::with_batch(batch_ending_in(ShapeKind::I));
    let g = e.ghost_piece();
    assert_eq!((g.row(), g.col()), (38, 3));
    assert_eq!(g.orientation(), Orientation::N);
}

#[test]
fn full_bottom_row_is_cleared_when_a_piece_locks() {
    let mut grid = Grid::new();
    for col in 0..10 {
        grid.write(39, col, Cell::Filled(ShapeKind::I));
    }
    let mut e = GameEngine::with_grid(grid, batch_ending_in(ShapeKind::L));
    // L: row 0 column 2 and row 1 columns 0 to 2 of its box; it lands on row 38.
    assert_eq!(e.apply(Command::HardDrop), EngineEvent::LinesCleared(1));
    assert_eq!(e.lines(), 1);
    for col in 0..10 {
        assert_eq!(e.grid().read(0, col), Cell::Empty);
    }
    assert_eq!(e.grid().read(39, 3), Cell::Filled(ShapeKind::L));
    assert_eq!(e.grid().read(39, 4), Cell::Filled(ShapeKind::L));
    assert_eq!(e.grid().read(39, 5), Cell::Filled(ShapeKind::L));
    assert_eq!(e.grid().read(38, 5), Cell::Filled(ShapeKind::L));
    assert_eq!(filled_cells(e.grid()), 4);
    assert_eq!(e.grid().cell_count(), 400);
}

#[test]
fn hold_stores_the_active_kind_and_is_refused_until_a_lock() {
    let mut e = GameEngine::with_batch(batch());
    assert_eq!(e.active().kind(), ShapeKind::L);
    assert_eq!(e.next_kind(), ShapeKind::J);
    assert_eq!(e.apply(Command::Hold), EngineEvent::Held);
    assert_eq!(e.hold_slot(), Some(ShapeKind::L));
    assert_eq!(e.active().kind(), ShapeKind::J);
    assert_eq!(e.next_kind(), ShapeKind::Z);
    assert!(!e.hold_available());
    assert_eq!(e.apply(Command::Hold), EngineEvent::Rejected);
    assert_eq!(e.hold_slot(), Some(ShapeKind::L));
    assert_eq!(e.active().kind(), ShapeKind::J);
}

#[test]
fn hold_swaps_after_a_lock() {
    let mut e = GameEngine::with_batch(batch());
    e.apply(Command::Hold);
    assert_eq!(e.apply(Command::HardDrop), EngineEvent::Locked);
    assert_eq!(e.active().kind(), ShapeKind::Z);
    assert!(e.hold_available());
    assert_eq!(e.apply(Command::Hold), EngineEvent::Held);
    assert_eq!(e.active().kind(), ShapeKind::L);
    assert_eq!(e.hold_slot(), Some(ShapeKind::Z));
    assert_eq!(e.next_kind(), ShapeKind::S);
    let p = e.active();
    assert_eq!((p.row(), p.col(), p.orientation()), (18, 3, Orientation::N));
}

#[test]
fn gravity_steps_after_the_fall_interval() {
    let mut e = GameEngine::with_batch(batch());
    for _ in 0..123 {
        assert_eq!(e.tick(), EngineEvent::Idle);
    }
    assert_eq!(e.active().row(), 18);
    assert_eq!(e.tick(), EngineEvent::Moved);
    assert_eq!(e.active().row(), 19);
}

#[test]
fn lock_delay_runs_fifty_ticks() {
    let mut e = GameEngine::with_batch(batch_ending_in(ShapeKind::O));
    while e.apply(Command::SoftDrop) == EngineEvent::Moved {}
    assert_eq!(e.lock_state(), LockState::LockDelay(0));
    for n in 1..50 {
        assert_eq!(e.tick(), EngineEvent::Idle);
        assert_eq!(e.lock_state(), LockState::LockDelay(n));
    }
    assert_eq!(e.tick(), EngineEvent::Locked);
    assert_eq!(filled_cells(e.grid()), 4);
}

#[test]
fn blocked_soft_drop_counts_the_delay_and_a_move_resets_it() {
    let mut e = GameEngine::with_batch(batch_ending_in(ShapeKind::O));
    while e.apply(Command::SoftDrop) == EngineEvent::Moved {}
    assert_eq!(e.lock_state(), LockState::LockDelay(0));
    assert_eq!(e.apply(Command::SoftDrop), EngineEvent::Rejected);
    assert_eq!(e.lock_state(), LockState::LockDelay(1));
    assert_eq!(e.tick(), EngineEvent::Idle);
    assert_eq!(e.lock_state(), LockState::LockDelay(2));
    assert_eq!(e.apply(Command::MoveLeft), EngineEvent::Moved);
    assert_eq!(e.lock_state(), LockState::Falling);
}

#[test]
fn stacking_in_one_column_ends_the_game_once() {
    let mut e = GameEngine::new();
    let mut over = false;
    for _ in 0..100 {
        match e.apply(Command::HardDrop) {
            EngineEvent::GameOver => {
                over = true;
                break;
            }
            EngineEvent::Locked => {}
            other => panic!("unexpected {:?}", other),
        }
    }
    assert!(over);
    assert!(e.is_over());
    let mut hidden = false;
    for row in 0..20 {
        for col in 0..10 {
            if e.grid().read(row, col) != Cell::Empty {
                hidden = true;
            }
        }
    }
    assert!(hidden);
    assert_eq!(e.apply(Command::MoveLeft), EngineEvent::Rejected);
    assert_eq!(e.apply(Command::HardDrop), EngineEvent::Rejected);
    assert_eq!(e.tick(), EngineEvent::Rejected);
}

#[test]
fn reset_starts_a_fresh_game() {
    let mut e = GameEngine::with_batch(batch());
    e.apply(Command::Hold);
    e.apply(Command::HardDrop);
    e.reset();
    assert_eq!(filled_cells(e.grid()), 0);
    assert_eq!(e.hold_slot(), None);
    assert!(e.hold_available());
    assert_eq!(e.lines(), 0);
    assert!(!e.is_over());
    assert_eq!(e.active().row(), 18);
}
