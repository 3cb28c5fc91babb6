use tetris::{rotate, Cell, Grid, Orientation, PieceState, ShapeKind, Turn};

const KINDS: [ShapeKind; 7] = [
    ShapeKind::I,
    ShapeKind::O,
    ShapeKind::T,
    ShapeKind::S,
    ShapeKind::Z,
    ShapeKind::J,
    ShapeKind::L,
];

fn cells(p: &PieceState) -> Vec<(i32, i32)> {
    let mut out = Vec::new();
    for row in -4..44 {
        for col in -4..14 {
            if p.occupies(row, col) {
                out.push((row, col));
            }
        }
    }
    out
}

#[test]
fn four_clockwise_turns_in_open_space_restore_the_piece() {
    let grid = Grid::new();
    for kind in KINDS {
        let start = PieceState::spawn(kind).shifted(8, 0);
        let mut p = start;
        for _ in 0..4 {
            p = rotate(&grid, &p, Turn::Cw).expect("open space");
        }
        assert_eq!(p.orientation(), start.orientation());
        assert_eq!(p.row(), start.row());
        assert_eq!(p.col(), start.col());
        assert_eq!(cells(&p), cells(&start));
    }
}

#[test]
fn four_counter_clockwise_turns_in_open_space_restore_the_piece() {
    let grid = Grid::new();
    for kind in KINDS {
        let start = PieceState::spawn(kind).shifted(8, 0);
        let mut p = start;
        for _ in 0..4 {
            p = rotate(&grid, &p, Turn::Ccw).expect("open space");
        }
        assert_eq!(p.orientation(), Orientation::N);
        assert_eq!((p.row(), p.col()), (start.row(), start.col()));
        assert_eq!(cells(&p), cells(&start));
    }
}

#[test]
fn clockwise_then_counter_clockwise_is_identity() {
    let grid = Grid::new();
    for kind in KINDS {
        let start = PieceState::spawn(kind).shifted(8, 0);
        let turned = rotate(&grid, &start, Turn::Cw).unwrap();
        let back = rotate(&grid, &turned, Turn::Ccw).unwrap();
        assert_eq!(cells(&back), cells(&start));
        assert_eq!(back.orientation(), Orientation::N);
    }
}

#[test]
fn orientation_cycle() {
    assert_eq!(Orientation::N.turned(Turn::Cw), Orientation::E);
    assert_eq!(Orientation::E.turned(Turn::Cw), Orientation::S);
    assert_eq!(Orientation::S.turned(Turn::Cw), Orientation::W);
    assert_eq!(Orientation::W.turned(Turn::Cw), Orientation::N);
    assert_eq!(Orientation::N.turned(Turn::Ccw), Orientation::W);
    assert_eq!(Orientation::W.turned(Turn::Ccw), Orientation::S);
}

#[test]
fn o_piece_turns_in_place_even_when_boxed_in() {
    let mut grid = Grid::new();
    for col in 0..10 {
        if col != 4 && col != 5 {
            grid.write(20, col, Cell::Filled(ShapeKind::I));
            grid.write(17, col, Cell::Filled(ShapeKind::I));
        }
    }
    let start = PieceState::spawn(ShapeKind::O);
    for turn in [Turn::Cw, Turn::Ccw] {
        let p = rotate(&grid, &start, turn).expect("O always turns");
        assert_eq!(cells(&p), cells(&start));
        assert_eq!((p.row(), p.col()), (start.row(), start.col()));
    }
}

#[test]
fn t_turns_clockwise_into_east() {
    let grid = Grid::new();
    let start = PieceState::spawn(ShapeKind::T).shifted(10, 0);
    let p = rotate(&grid, &start, Turn::Cw).unwrap();
    assert_eq!(p.orientation(), Orientation::E);
    // Box rows 0 to 2 of column 1, and row 1 of column 2.
    assert_eq!(cells(&p), vec![(28, 4), (29, 4), (29, 5), (30, 4)]);
}

#[test]
fn i_against_left_wall_is_kicked_right() {
    let grid = Grid::new();
    let east = rotate(&grid, &PieceState::spawn(ShapeKind::I), Turn::Cw).unwrap();
    assert_eq!(cells(&east), vec![(18, 5), (19, 5), (20, 5), (21, 5)]);
    let at_wall = east.shifted(0, -5);
    assert!(!grid.collides(&at_wall));
    assert!(grid.collides(&at_wall.shifted(0, -1)));
    let south = rotate(&grid, &at_wall, Turn::Cw).unwrap();
    assert_eq!(south.orientation(), Orientation::S);
    // (0, 0) and (-1, 0) leave the grid; (2, 0) moves two columns right.
    assert_eq!((south.row(), south.col()), (18, 0));
    assert_eq!(cells(&south), vec![(20, 0), (20, 1), (20, 2), (20, 3)]);
}

#[test]
fn turn_with_no_fitting_offset_fails() {
    let mut grid = Grid::new();
    // Below row 20 only column 4 is open.
    for row in 20..40 {
        for col in 0..10 {
            if col != 4 {
                grid.write(row, col, Cell::Filled(ShapeKind::Z));
            }
        }
    }
    let east = rotate(&Grid::new(), &PieceState::spawn(ShapeKind::I), Turn::Cw).unwrap();
    let in_shaft = east.shifted(10, -1);
    assert_eq!(cells(&in_shaft), vec![(28, 4), (29, 4), (30, 4), (31, 4)]);
    assert!(!grid.collides(&in_shaft));
    assert!(rotate(&grid, &in_shaft, Turn::Cw).is_none());
    assert!(rotate(&grid, &in_shaft, Turn::Ccw).is_none());
}
