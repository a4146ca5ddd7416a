use tetris::setting::{mask_cell, EMPTY_COLOR, TETRIS_HEIGHT, TETRIS_WIDTH};
use tetris::{Background, Piece, Tetris};

fn filled_cells(t: &Tetris) -> Vec<(usize, usize)> {
    let mut v = Vec::new();
    for r in 0..TETRIS_HEIGHT {
        for c in 0..TETRIS_WIDTH {
            if t.occupied(r, c) {
                v.push((r, c));
            }
        }
    }
    v
}

fn board_cells(b: &Background) -> Vec<(usize, usize)> {
    let mut v = Vec::new();
    for r in 0..TETRIS_HEIGHT {
        for c in 0..TETRIS_WIDTH {
            if b.occupied(r, c) {
                v.push((r, c));
            }
        }
    }
    v
}

fn same_piece(a: Piece, b: Piece) -> bool {
    a.piece_type == b.piece_type && a.turn == b.turn && a.x == b.x && a.y == b.y && a.color == b.color
}

#[test]
fn each_shape_has_four_cells() {
    for t in 0..7 {
        let mut n = 0;
        for r in 0..4 {
            for c in 0..4 {
                if mask_cell(t, r, c) {
                    n += 1;
                }
            }
        }
        assert_eq!(n, 4, "shape {}", t);
    }
}

#[test]
fn rotate_index_follows_the_quarter_turns() {
    // (col, row) in, (source col, source row) out
    assert_eq!(Piece::new(1, 0, 0, 0, 0).rotate_index(1, 2), (1, 2));
    assert_eq!(Piece::new(1, 1, 0, 0, 0).rotate_index(1, 2), (2, 2));
    assert_eq!(Piece::new(1, 2, 0, 0, 0).rotate_index(1, 2), (2, 1));
    assert_eq!(Piece::new(1, 3, 0, 0, 0).rotate_index(1, 2), (1, 1));
}

#[test]
fn t_shape_turned_once_points_right() {
    let p = Piece::new(1, 1, 0, 0, 0);
    let mut cells = Vec::new();
    for r in 0..4 {
        for c in 0..4 {
            if p.occupies_at(r, c) {
                cells.push((r, c));
            }
        }
    }
    assert_eq!(cells, vec![(1, 1), (2, 1), (2, 2), (3, 1)]);
}

#[test]
fn four_turns_give_back_every_shape() {
    for shape in 0..7 {
        let start = Piece::new(shape, 0, 3, 6, 2);
        let mut t = Tetris::from_parts(Background::new(), start).unwrap();
        for _ in 0..4 {
            let before = t.piece().turn;
            t.turn();
            assert_eq!(t.piece().turn, (before + 1) % 4);
        }
        assert!(same_piece(t.piece(), start));
        for r in 0..4 {
            for c in 0..4 {
                assert_eq!(t.piece().occupies_at(r, c), start.occupies_at(r, c));
            }
        }
    }
}

#[test]
fn piece_fit_checks_board_edges() {
    let p = Piece::spawn(0, 0); // cells on row 1, columns 3..7
    assert!(p.piece_fit(0, 0));
    assert!(p.piece_fit(3, 0));
    assert!(!p.piece_fit(4, 0));
    assert!(p.piece_fit(-3, 0));
    assert!(!p.piece_fit(-4, 0));
    assert!(p.piece_fit(0, -1));
    assert!(!p.piece_fit(0, -2));
    assert!(p.piece_fit(0, 18));
    assert!(!p.piece_fit(0, 19));
}

#[test]
fn move_piece_shifts_without_check() {
    let mut p = Piece::spawn(2, 1);
    p.move_piece(-5, 30);
    assert_eq!((p.x, p.y), (-2, 30));
}

#[test]
fn in_boundary_of_local_cells() {
    let b = Background::new();
    let p = Piece::new(0, 0, -1, 18, 0);
    assert!(!b.in_boundary(p, 0, 0));
    assert!(b.in_boundary(p, 1, 1));
    assert!(!b.in_boundary(p, 2, 1));
    assert!(b.in_boundary(p, 1, 3));
    assert!(!b.in_boundary(Piece::new(0, 0, 8, 0, 0), 0, 2));
}

#[test]
fn new_board_is_empty() {
    let b = Background::new();
    assert!(board_cells(&b).is_empty());
    assert_eq!(b.color_at(0, 0), EMPTY_COLOR);
    assert_eq!(b.color_at(19, 9), EMPTY_COLOR);
}

#[test]
fn store_sets_cells_and_color() {
    let mut b = Background::new();
    b.store(Piece::new(1, 0, 0, 10, 7)); // T: (11,2), (12,1..4)
    assert_eq!(board_cells(&b), vec![(11, 2), (12, 1), (12, 2), (12, 3)]);
    assert_eq!(b.color_at(11, 2), 7);
    assert_eq!(b.color_at(12, 3), 7);
    assert_eq!(b.color_at(11, 1), EMPTY_COLOR);
}

#[test]
fn store_ignores_cells_off_the_board() {
    let mut b = Background::new();
    b.store(Piece::new(0, 0, 8, 18, 3)); // I on row 19, columns 8..12
    assert_eq!(board_cells(&b), vec![(19, 8), (19, 9)]);
}

#[test]
fn finish_line_without_full_row_changes_nothing() {
    let mut b = Background::new();
    b.store(Piece::new(0, 0, 0, 18, 1));
    b.store(Piece::new(4, 0, 4, 10, 2));
    let before = board_cells(&b);
    assert_eq!(b.finish_line(), 0);
    assert_eq!(board_cells(&b), before);
    assert_eq!(b.color_at(19, 0), 1);
    assert_eq!(b.color_at(11, 5), 2);
}

#[test]
fn completing_a_single_row_empties_the_board() {
    let mut b = Background::new();
    // rows 18 and 19 take columns 0..6 from three squares
    b.store(Piece::new(4, 0, -1, 17, 0));
    b.store(Piece::new(4, 0, 1, 17, 0));
    b.store(Piece::new(4, 0, 3, 17, 0));
    // complete row 18, which leaves row 19 alone with columns 0..6
    b.store(Piece::new(0, 0, 6, 17, 0));
    assert_eq!(b.finish_line(), 1);
    let cells = board_cells(&b);
    assert_eq!(cells, vec![(19, 0), (19, 1), (19, 2), (19, 3), (19, 4), (19, 5)]);
    // a bar that exactly fills the rest of row 19
    b.store(Piece::new(0, 0, 6, 18, 4));
    assert_eq!(b.finish_line(), 1);
    assert!(board_cells(&b).is_empty());
    for r in 0..TETRIS_HEIGHT {
        for c in 0..TETRIS_WIDTH {
            assert_eq!(b.color_at(r, c), EMPTY_COLOR);
        }
    }
}

#[test]
fn full_row_clears_and_rows_above_sink() {
    let mut b = Background::new();
    b.store(Piece::new(0, 0, 0, 18, 1)); // row 19, columns 0..4
    b.store(Piece::new(0, 0, 6, 18, 1)); // row 19, columns 6..10
    b.store(Piece::new(0, 1, 2, 16, 2)); // column 4, rows 16..20
    b.store(Piece::new(0, 1, 3, 16, 3)); // column 5, rows 16..20: fills (19, 5)
    assert_eq!(b.finish_line(), 1);
    assert_eq!(
        board_cells(&b),
        vec![(17, 4), (17, 5), (18, 4), (18, 5), (19, 4), (19, 5)]
    );
    assert_eq!(b.color_at(19, 4), 2);
    assert_eq!(b.color_at(19, 5), 3);
    for c in 0..TETRIS_WIDTH {
        assert!(!b.occupied(0, c));
        assert_eq!(b.color_at(0, c), EMPTY_COLOR);
    }
}

#[test]
fn two_full_rows_clear_at_once() {
    let mut b = Background::new();
    for x in [-1, 1, 3, 5, 7] {
        b.store(Piece::new(4, 0, x, 17, 6)); // rows 18 and 19 full
    }
    b.store(Piece::new(1, 0, 0, 14, 2)); // (15, 2), (16, 1..4)
    assert_eq!(b.finish_line(), 2);
    assert_eq!(board_cells(&b), vec![(17, 2), (18, 1), (18, 2), (18, 3)]);
    assert_eq!(b.color_at(18, 1), 2);
}

#[test]
fn piece_falls_to_the_floor_and_locks() {
    let mut t = Tetris::from_parts(Background::new(), Piece::spawn(0, 2)).unwrap();
    let next = Piece::spawn(1, 4);
    for i in 0..18 {
        assert!(!t.update_with(next));
        assert_eq!(t.piece().y, i + 1);
        assert_eq!(t.piece().x, 3);
        assert!(filled_cells(&t).is_empty());
    }
    assert!(!t.fits_at(0, 1));
    assert!(!t.update_with(next));
    assert!(same_piece(t.piece(), next));
    assert_eq!(filled_cells(&t), vec![(19, 3), (19, 4), (19, 5), (19, 6)]);
    assert_eq!(t.color_at(19, 3), 2);
}

#[test]
fn turn_against_left_wall_is_refused() {
    let mut t = Tetris::from_parts(Background::new(), Piece::new(0, 1, 3, 0, 1)).unwrap();
    for _ in 0..8 {
        t.move_piece(-1, 0);
    }
    assert_eq!(t.piece().x, -2);
    assert!(t.fits_at(0, 0));
    t.turn();
    assert_eq!(t.piece().turn, 1);
    assert_eq!(t.piece().x, -2);
    assert!(t.fits_at(0, 0));
}

#[test]
fn blocked_spawn_resets_the_board() {
    let mut b = Background::new();
    b.store(Piece::spawn(0, 5)); // row 1, columns 3..7: the spawn cells
    let mut t = Tetris::from_parts(b, Piece::new(4, 0, 0, 10, 1)).unwrap();
    let next = Piece::spawn(0, 8);
    assert!(t.speed_drop_with(next));
    assert!(same_piece(t.piece(), next));
    assert!(filled_cells(&t).is_empty());
    assert!(t.fits_at(0, 0));
}

#[test]
fn blocked_tick_resets_the_board() {
    let mut b = Background::new();
    b.store(Piece::spawn(0, 5));
    let mut t = Tetris::from_parts(b, Piece::new(4, 0, 0, 17, 1)).unwrap();
    assert!(t.update_with(Piece::spawn(0, 8)));
    assert!(filled_cells(&t).is_empty());
}

#[test]
fn hard_drop_on_empty_board() {
    // T shape: its lowest mask row is 2, so it rests with its box on row 20 - 1 - 2
    let mut t = Tetris::from_parts(Background::new(), Piece::spawn(1, 3)).unwrap();
    assert_eq!(t.ghost_offset(), 17);
    assert!(!t.speed_drop_with(Piece::spawn(4, 0)));
    assert_eq!(filled_cells(&t), vec![(18, 5), (19, 4), (19, 5), (19, 6)]);
    assert_eq!(t.color_at(18, 5), 3);
    assert!(same_piece(t.piece(), Piece::spawn(4, 0)));
}

#[test]
fn hard_drop_stops_on_the_stack() {
    let mut b = Background::new();
    b.store(Piece::new(0, 0, 2, 15, 1)); // row 16, columns 2..6
    let mut t = Tetris::from_parts(b, Piece::spawn(4, 2)).unwrap(); // square on columns 4, 5
    assert_eq!(t.ghost_offset(), 13);
    assert!(!t.speed_drop_with(Piece::spawn(0, 0)));
    assert_eq!(
        filled_cells(&t),
        vec![(14, 4), (14, 5), (15, 4), (15, 5), (16, 2), (16, 3), (16, 4), (16, 5)]
    );
}

#[test]
fn hard_drop_from_the_top_row() {
    // a bar turned twice fills row 2 of its box; with the box at y = -2 it
    // sits on board row 0 and falls all 19 rows
    let mut t = Tetris::from_parts(Background::new(), Piece::new(0, 2, 3, -2, 1)).unwrap();
    assert_eq!(t.ghost_offset(), 19);
    t.speed_drop_with(Piece::spawn(2, 0));
    assert_eq!(filled_cells(&t), vec![(19, 3), (19, 4), (19, 5), (19, 6)]);
}

#[test]
fn moves_keep_the_piece_on_the_board() {
    let mut t = Tetris::from_parts(Background::new(), Piece::spawn(5, 0)).unwrap();
    for _ in 0..10 {
        t.move_piece(1, 0);
        assert!(t.fits_at(0, 0));
    }
    assert_eq!(t.piece().x, 6);
    for _ in 0..30 {
        t.move_piece(0, 1);
        assert!(t.fits_at(0, 0));
    }
    // a refused soft drop does not lock the piece
    assert_eq!(t.piece().y, 17);
    assert!(filled_cells(&t).is_empty());
    t.move_piece(-20, 0);
    assert_eq!(t.piece().x, 6);
    t.turn();
    assert!(t.fits_at(0, 0));
}

#[test]
fn moves_are_blocked_by_settled_cells() {
    let mut b = Background::new();
    b.store(Piece::new(0, 1, 5, 0, 1)); // column 7, rows 0..4
    let mut t = Tetris::from_parts(b, Piece::spawn(0, 2)).unwrap(); // row 1, columns 3..7
    t.move_piece(1, 0);
    assert_eq!(t.piece().x, 3);
    t.move_piece(-1, 0);
    assert_eq!(t.piece().x, 2);
}

#[test]
fn from_parts_refuses_pieces_that_do_not_fit() {
    let mut b = Background::new();
    b.store(Piece::spawn(0, 5));
    assert!(Tetris::from_parts(b, Piece::spawn(0, 1)).is_none());
    assert!(Tetris::from_parts(Background::new(), Piece::new(0, 0, 7, 0, 1)).is_none());
    let bad_turn = Piece { piece_type: 0, turn: 4, x: 3, y: 0, color: 0 };
    assert!(Tetris::from_parts(Background::new(), bad_turn).is_none());
    let bad_shape = Piece { piece_type: 7, turn: 0, x: 3, y: 0, color: 0 };
    assert!(Tetris::from_parts(Background::new(), bad_shape).is_none());
}

#[test]
fn random_pieces_are_valid_spawns() {
    let mut kinds = [false; 7];
    for _ in 0..500 {
        let p = Piece::random_piece();
        assert!(p.piece_type < 7);
        assert!(p.color < 9);
        assert_eq!((p.turn, p.x, p.y), (0, 3, 0));
        kinds[p.piece_type] = true;
    }
    assert!(kinds.iter().filter(|k| **k).count() >= 2);
}

#[test]
fn new_game_starts_empty() {
    let mut t = Tetris::new();
    assert!(filled_cells(&t).is_empty());
    let p = t.piece();
    assert_eq!((p.turn, p.x, p.y), (0, 3, 0));
    assert!(!t.update());
    assert_eq!(t.piece().y, 1);
    assert!(!t.speed_drop());
    assert_eq!(filled_cells(&t).len(), 4);
    assert_eq!(t.piece().y, 0);
    assert!(t.background().occupied(19, 4) || t.background().occupied(19, 5));
}

#[test]
fn cells_lists_covered_board_cells() {
    let p = Piece::new(1, 1, -1, 16, 0); // T turned once: (1,1), (2,1), (2,2), (3,1)
    assert_eq!(p.cells(), vec![(17, 0), (18, 0), (18, 1), (19, 0)]);
    assert_eq!(Piece::spawn(0, 0).cells(), vec![(1, 3), (1, 4), (1, 5), (1, 6)]);
}
