use bevris::game::{Game, InputEvent};
use bevris::pieces::{Piece, PieceType};

/// One gravity period at level 0, in microseconds.
const LEVEL0_DT: u64 = 16666 * 53;

#[test]
fn o_piece_falls_to_the_floor() {
    // Empty grid, an O piece at (4, 18): gravity alone grounds it at
    // anchor y = 0, occupying exactly the O offsets translated by (4, 0).
    let mut g = Game::new(5);
    g.active_type = PieceType::O;
    g.active = Piece { x: 4, y: 18, rot: 0 };
    let no_events: Vec<InputEvent> = Vec::new();
    for _ in 0..18 {
        g.tick(&no_events, false, LEVEL0_DT);
    }
    // Eighteen gravity firings bring the anchor from 18 down to 0; the
    // piece is still falling, drawn at its current position.
    assert_eq!(g.active, Piece { x: 4, y: 0, rot: 0 });
    // The nineteenth would take the anchor below the floor: it grounds.
    g.tick(&no_events, false, LEVEL0_DT);
    let mut expected = [[0u8; 10]; 22];
    expected[2][5] = 7;
    expected[2][6] = 7;
    expected[1][5] = 7;
    expected[1][6] = 7;
    assert_eq!(g.playfield.field, expected);
    // A fresh piece has spawned at the spawn point.
    assert_eq!(g.active, Piece { x: 3, y: 16, rot: 0 });
    assert!(g.transition.is_none());
}

#[test]
fn vertical_i_fills_and_clears_a_row() {
    // Row 5 fully occupied except column 3, with column 3 supported
    // beneath; a vertical I dropped down column 3 plugs the gap, row 5
    // clears, and after the delay everything above falls by one row.
    let mut g = Game::new(11);
    for x in 0..10 {
        if x != 3 {
            g.playfield.field[5][x] = 1;
        }
    }
    for y in 0..5 {
        g.playfield.field[y][3] = 1;
    }
    g.active_type = PieceType::I;
    g.active = Piece { x: 2, y: 18, rot: 1 };
    g.state.lines = 9;
    let no_events: Vec<InputEvent> = Vec::new();
    let mut ticks = 0;
    // Drive the input and gravity systems one gravity period at a time; the
    // clear-delay timer is advanced separately below.
    while g.transition.is_none() {
        g.player_input_system(&no_events);
        g.piece_update_system(LEVEL0_DT, false);
        ticks += 1;
        assert!(ticks < 40, "piece never grounded");
    }
    // The I grounded with its lowest cell in row 5; that row became full.
    assert_eq!(g.playfield.field[5], [1, 1, 1, 2, 1, 1, 1, 1, 1, 1]);
    for y in 6..9 {
        assert_eq!(g.playfield.field[y][3], 2);
    }
    // Ten lines in total: the level rose to 1 and gravity sped up.
    assert_eq!(g.state.lines, 10);
    assert_eq!(g.state.timer.duration, 16666 * 49);
    let lt = g.transition.as_ref().unwrap();
    assert_eq!(lt.to_eliminate, vec![5]);
    // While the clear is pending, input and gravity are suspended.
    let before_piece = g.active.clone();
    let before_grid = g.playfield.field;
    g.tick(&vec![InputEvent::MoveLeft], true, 100);
    assert_eq!(g.active, before_piece);
    assert_eq!(g.playfield.field, before_grid);
    // Just short of the delay nothing collapses yet.
    g.check_lines_system(499899);
    assert!(g.transition.is_some());
    assert_eq!(g.playfield.field, before_grid);
    // Completing the delay collapses the grid: row 5's content is gone,
    // rows above fall by one, the top row is zeroed.
    g.check_lines_system(1);
    assert!(g.transition.is_none());
    let mut expected = [[0u8; 10]; 22];
    for y in 0..5 {
        expected[y][3] = 1;
    }
    for y in 5..8 {
        expected[y][3] = 2;
    }
    assert_eq!(g.playfield.field, expected);
}

#[test]
fn move_left_at_wall_is_rejected() {
    // The O piece's leftmost cells sit at x = 0 when its anchor is -1:
    // MoveLeft would push them off the grid and must leave it unchanged.
    let mut g = Game::new(3);
    g.active_type = PieceType::O;
    g.active = Piece { x: -1, y: 5, rot: 0 };
    g.player_input_system(&vec![InputEvent::MoveLeft]);
    assert_eq!(g.active, Piece { x: -1, y: 5, rot: 0 });
    // A legal move right is accepted.
    g.player_input_system(&vec![InputEvent::MoveRight]);
    assert_eq!(g.active, Piece { x: 0, y: 5, rot: 0 });
}

#[test]
fn rotation_blocked_by_occupied_cells() {
    // A vertical I beside a filled column cannot rotate into it: the
    // wall-kick-free policy discards the candidate.
    let mut g = Game::new(3);
    for y in 0..22 {
        g.playfield.field[y][5] = 4;
    }
    g.active_type = PieceType::I;
    g.active = Piece { x: 2, y: 3, rot: 1 };
    g.player_input_system(&vec![InputEvent::RotateCW]);
    assert_eq!(g.active, Piece { x: 2, y: 3, rot: 1 });
}

#[test]
fn input_applies_events_in_order() {
    let mut g = Game::new(3);
    g.active_type = PieceType::T;
    g.active = Piece { x: 4, y: 10, rot: 0 };
    g.player_input_system(&vec![
        InputEvent::MoveLeft,
        InputEvent::MoveLeft,
        InputEvent::MoveRight,
        InputEvent::RotateCW,
    ]);
    assert_eq!(g.active, Piece { x: 3, y: 10, rot: 1 });
}

#[test]
fn soft_drop_uses_fast_timer() {
    // With the down key held, gravity fires on the (much shorter) soft-drop
    // clock.
    let mut g = Game::new(8);
    g.active_type = PieceType::O;
    g.active = Piece { x: 4, y: 18, rot: 0 };
    let no_events: Vec<InputEvent> = Vec::new();
    g.tick(&no_events, true, 16666 * 3);
    assert_eq!(g.active, Piece { x: 4, y: 17, rot: 0 });
    // The normal clock alone would not have fired yet.
    let mut h = Game::new(8);
    h.active_type = PieceType::O;
    h.active = Piece { x: 4, y: 18, rot: 0 };
    h.tick(&no_events, false, 16666 * 3);
    assert_eq!(h.active, Piece { x: 4, y: 18, rot: 0 });
}

#[test]
fn gravity_waits_for_the_interval() {
    let mut g = Game::new(2);
    g.active_type = PieceType::T;
    g.active = Piece { x: 4, y: 12, rot: 0 };
    let no_events: Vec<InputEvent> = Vec::new();
    g.tick(&no_events, false, LEVEL0_DT - 1);
    assert_eq!(g.active, Piece { x: 4, y: 12, rot: 0 });
    g.tick(&no_events, false, 1);
    assert_eq!(g.active, Piece { x: 4, y: 11, rot: 0 });
}
