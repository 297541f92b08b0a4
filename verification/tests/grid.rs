use bevris::field::Playfield;

fn marked(rows: &[(usize, [u8; 10])]) -> Playfield {
    let mut pf = Playfield::new();
    for (y, row) in rows.iter() {
        pf.field[*y] = *row;
    }
    pf
}

#[test]
fn new_grid_is_empty() {
    let pf = Playfield::new();
    assert_eq!(pf.field, [[0u8; 10]; 22]);
}

#[test]
fn is_occupied_fails_closed_out_of_bounds() {
    let pf = Playfield::new();
    assert!(pf.is_occupied(-1, 0));
    assert!(pf.is_occupied(10, 0));
    assert!(pf.is_occupied(0, -1));
    assert!(pf.is_occupied(0, 22));
    assert!(!pf.is_occupied(0, 0));
    assert!(!pf.is_occupied(9, 21));
}

#[test]
fn place_then_clear_restores_grid() {
    let mut pf = Playfield::new();
    pf.field[0][0] = 3;
    pf.field[10][9] = 5;
    let before = pf.field;
    let cells = [(4, 4, 0), (5, 4, 0), (4, 5, 0), (5, 5, 0)];
    pf.place(&cells, 7);
    assert_eq!(pf.field[4][4], 7);
    assert_eq!(pf.field[4][5], 7);
    assert_eq!(pf.field[5][4], 7);
    assert_eq!(pf.field[5][5], 7);
    pf.clear(&cells);
    assert_eq!(pf.field, before);
}

#[test]
fn full_rows_finds_full_rows_ascending() {
    let pf = marked(&[(5, [1; 10]), (8, [2; 10])]);
    assert_eq!(pf.full_rows(), vec![5, 8]);
    let mut almost = [1u8; 10];
    almost[3] = 0;
    let pf2 = marked(&[(5, almost)]);
    assert_eq!(pf2.full_rows(), Vec::<usize>::new());
}

#[test]
fn collapse_of_compacted_grid_is_noop() {
    // A grid with content but no full rows: collapsing its (empty) list of
    // full rows changes nothing.
    let mut row = [4u8; 10];
    row[0] = 0;
    let mut pf = marked(&[(0, row), (3, row)]);
    pf.field[7][2] = 6;
    let before = pf.field;
    let full = pf.full_rows();
    assert!(full.is_empty());
    pf.collapse(&full);
    assert_eq!(pf.field, before);
}

#[test]
fn collapse_two_nonadjacent_rows() {
    // Rows 5 and 8 eliminated together: rows between them fall by one, rows
    // above row 8 fall by two, and two zero rows appear on top.
    let mut pf = Playfield::new();
    pf.field[5] = [1; 10];
    pf.field[8] = [1; 10];
    let mut r6 = [0u8; 10];
    r6[0] = 6;
    let mut r7 = [0u8; 10];
    r7[1] = 7;
    let mut r9 = [0u8; 10];
    r9[2] = 9;
    let mut r21 = [0u8; 10];
    r21[3] = 2;
    pf.field[6] = r6;
    pf.field[7] = r7;
    pf.field[9] = r9;
    pf.field[21] = r21;
    let mut r4 = [0u8; 10];
    r4[4] = 4;
    pf.field[4] = r4;
    pf.collapse(&vec![5, 8]);
    // Below the lowest eliminated row: unchanged.
    assert_eq!(pf.field[4], r4);
    // Between the eliminated rows: down by one.
    assert_eq!(pf.field[5], r6);
    assert_eq!(pf.field[6], r7);
    // Above the highest eliminated row: down by two.
    assert_eq!(pf.field[7], r9);
    assert_eq!(pf.field[19], r21);
    // The vacated top rows are zeroed.
    assert_eq!(pf.field[20], [0u8; 10]);
    assert_eq!(pf.field[21], [0u8; 10]);
}

#[test]
fn collapse_four_contiguous_rows() {
    // The largest simultaneous clear: four rows at once.
    let mut pf = Playfield::new();
    for y in 2..6 {
        pf.field[y] = [5; 10];
    }
    let mut r0 = [0u8; 10];
    r0[0] = 1;
    let mut r6 = [0u8; 10];
    r6[9] = 2;
    pf.field[0] = r0;
    pf.field[6] = r6;
    let full = pf.full_rows();
    assert_eq!(full, vec![2, 3, 4, 5]);
    pf.collapse(&full);
    assert_eq!(pf.field[0], r0);
    assert_eq!(pf.field[2], r6);
    for y in 3..22 {
        assert_eq!(pf.field[y], [0u8; 10]);
    }
}

#[test]
fn collapse_single_row_shifts_down() {
    let mut pf = Playfield::new();
    pf.field[0] = [3; 10];
    let mut r1 = [0u8; 10];
    r1[5] = 8;
    pf.field[1] = r1;
    pf.collapse(&vec![0]);
    assert_eq!(pf.field[0], r1);
    assert_eq!(pf.field[21], [0u8; 10]);
}
