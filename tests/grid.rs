use tetris::{Cell, Grid, LineClearResult, PieceState, ShapeKind};

fn fill_row(grid: &mut Grid, row: usize) {
    for col in 0..10 {
        grid.write(row, col, Cell::Filled(ShapeKind::T));
    }
}

#[test]
fn new_grid_is_empty_with_400_cells() {
    let grid = Grid::new();
    assert_eq!(grid.cell_count(), 400);
    for row in 0..40 {
        for col in 0..10 {
            assert_eq!(grid.read(row, col), Cell::Empty);
        }
    }
}

#[test]
fn write_then_read() {
    let mut grid = Grid::new();
    grid.write(25, 7, Cell::Filled(ShapeKind::Z));
    assert_eq!(grid.read(25, 7), Cell::Filled(ShapeKind::Z));
    assert_eq!(grid.read(25, 6), Cell::Empty);
    assert_eq!(grid.read(24, 7), Cell::Empty);
}

#[test]
fn spawned_i_lies_on_row_19_columns_3_to_6() {
    let piece = PieceState::spawn(ShapeKind::I);
    let grid = Grid::new();
    assert!(!grid.collides(&piece));
    let mut cells = Vec::new();
    for row in 0..40 {
        for col in 0..10 {
            if piece.occupies(row, col) {
                cells.push((row, col));
            }
        }
    }
    assert_eq!(cells, vec![(19, 3), (19, 4), (19, 5), (19, 6)]);
}

#[test]
fn collides_with_walls_floor_and_filled_cells() {
    let mut grid = Grid::new();
    let piece = PieceState::spawn(ShapeKind::O);
    // O covers columns 4 and 5 of rows 18 and 19.
    assert!(!grid.collides(&piece));
    assert!(grid.collides(&piece.shifted(0, -5)));
    assert!(!grid.collides(&piece.shifted(0, -4)));
    assert!(grid.collides(&piece.shifted(0, 5)));
    assert!(!grid.collides(&piece.shifted(0, 4)));
    assert!(grid.collides(&piece.shifted(21, 0)));
    assert!(!grid.collides(&piece.shifted(20, 0)));
    grid.write(25, 5, Cell::Filled(ShapeKind::L));
    assert!(grid.collides(&piece.shifted(6, 0)));
    assert!(grid.collides(&piece.shifted(7, 0)));
    assert!(!grid.collides(&piece.shifted(5, 0)));
}

#[test]
fn landing_rests_on_the_floor_or_a_filled_cell() {
    let mut grid = Grid::new();
    let piece = PieceState::spawn(ShapeKind::O);
    let landed = grid.landing(&piece);
    assert_eq!(landed.row(), 38);
    assert_eq!(landed.col(), 3);
    grid.write(30, 4, Cell::Filled(ShapeKind::I));
    let landed = grid.landing(&piece);
    assert_eq!(landed.row(), 28);
}

#[test]
fn evaluate_clears_full_bottom_row() {
    let mut grid = Grid::new();
    fill_row(&mut grid, 39);
    grid.write(38, 2, Cell::Filled(ShapeKind::S));
    let res = grid.evaluate();
    assert_eq!(res, LineClearResult::Cleared(1));
    assert_eq!(grid.cell_count(), 400);
    assert_eq!(grid.read(39, 2), Cell::Filled(ShapeKind::S));
    for col in 0..10 {
        if col != 2 {
            assert_eq!(grid.read(39, col), Cell::Empty);
        }
        assert_eq!(grid.read(38, col), Cell::Empty);
        assert_eq!(grid.read(0, col), Cell::Empty);
    }
}

#[test]
fn evaluate_clears_separated_full_rows_and_shifts_the_rest() {
    let mut grid = Grid::new();
    fill_row(&mut grid, 39);
    grid.write(38, 0, Cell::Filled(ShapeKind::J));
    fill_row(&mut grid, 37);
    grid.write(36, 9, Cell::Filled(ShapeKind::L));
    let res = grid.evaluate();
    assert_eq!(res, LineClearResult::Cleared(2));
    assert_eq!(grid.cell_count(), 400);
    assert_eq!(grid.read(39, 0), Cell::Filled(ShapeKind::J));
    assert_eq!(grid.read(38, 9), Cell::Filled(ShapeKind::L));
    let mut filled = 0;
    for row in 0..40 {
        for col in 0..10 {
            if grid.read(row, col) != Cell::Empty {
                filled += 1;
            }
        }
    }
    assert_eq!(filled, 2);
}

#[test]
fn evaluate_without_full_rows_changes_nothing() {
    let mut grid = Grid::new();
    grid.write(39, 0, Cell::Filled(ShapeKind::O));
    let res = grid.evaluate();
    assert_eq!(res, LineClearResult::Cleared(0));
    assert_eq!(grid.read(39, 0), Cell::Filled(ShapeKind::O));
    assert_eq!(grid.cell_count(), 400);
}

#[test]
fn evaluate_reports_top_out_and_keeps_the_grid() {
    let mut grid = Grid::new();
    fill_row(&mut grid, 39);
    grid.write(19, 4, Cell::Filled(ShapeKind::T));
    let res = grid.evaluate();
    assert_eq!(res, LineClearResult::TopOut);
    assert_eq!(grid.read(19, 4), Cell::Filled(ShapeKind::T));
    assert_eq!(grid.read(39, 0), Cell::Filled(ShapeKind::T));
    assert_eq!(grid.cell_count(), 400);
}

#[test]
fn place_writes_the_piece_cells() {
    let mut grid = Grid::new();
    let piece = PieceState::spawn(ShapeKind::T).shifted(10, 0);
    grid.place(&piece);
    // T: row 0 column 1 and row 1 columns 0 to 2 of its box.
    assert_eq!(grid.read(28, 4), Cell::Filled(ShapeKind::T));
    assert_eq!(grid.read(29, 3), Cell::Filled(ShapeKind::T));
    assert_eq!(grid.read(29, 4), Cell::Filled(ShapeKind::T));
    assert_eq!(grid.read(29, 5), Cell::Filled(ShapeKind::T));
    assert_eq!(grid.read(28, 3), Cell::Empty);
    assert_eq!(grid.read(28, 5), Cell::Empty);
}
