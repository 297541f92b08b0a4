use bevris::pieces::{get_color, Piece, PieceType, Pieces};

const ALL_TYPES: [PieceType; 7] = [
    PieceType::I,
    PieceType::L,
    PieceType::J,
    PieceType::S,
    PieceType::Z,
    PieceType::T,
    PieceType::O,
];

#[test]
fn absolute_cells_are_four_distinct() {
    let pieces = Pieces::new();
    for t in ALL_TYPES.iter() {
        for rot in 0..4 {
            let cells = pieces.get_solid(t, &Piece { x: 0, y: 0, rot });
            assert_eq!(cells.len(), 4);
            for a in 0..4 {
                for b in 0..4 {
                    if a != b {
                        assert!(
                            cells[a].0 != cells[b].0 || cells[a].1 != cells[b].1,
                            "duplicate cell for {:?} rot {}",
                            t,
                            rot
                        );
                    }
                }
            }
        }
    }
}

#[test]
fn o_piece_translation_exact() {
    let pieces = Pieces::new();
    let cells = pieces.get_solid(&PieceType::O, &Piece { x: 4, y: 0, rot: 0 });
    assert_eq!(cells, [(5, 2, 7), (6, 2, 7), (5, 1, 7), (6, 1, 7)]);
}

#[test]
fn i_piece_vertical_exact() {
    let pieces = Pieces::new();
    let cells = pieces.get_solid(&PieceType::I, &Piece { x: 2, y: 5, rot: 1 });
    assert_eq!(cells, [(3, 8, 12), (3, 7, 13), (3, 6, 13), (3, 5, 14)]);
}

#[test]
fn rotation_wraps_modulo_state_count() {
    let pieces = Pieces::new();
    let p = Piece { x: 3, y: 3, rot: 5 };
    let q = Piece { x: 3, y: 3, rot: 1 };
    // I has two rotation states, so rot 5 selects the same shape as rot 1.
    assert_eq!(
        pieces.get_solid(&PieceType::I, &p),
        pieces.get_solid(&PieceType::I, &q)
    );
    // O has a single state: every rotation gives the same cells.
    let o0 = pieces.get_solid(&PieceType::O, &Piece { x: 0, y: 0, rot: 0 });
    for rot in 1..8 {
        assert_eq!(pieces.get_solid(&PieceType::O, &Piece { x: 0, y: 0, rot }), o0);
    }
}

#[test]
fn base_tables_have_expected_state_counts() {
    let pieces = Pieces::new();
    assert_eq!(pieces.get_solid_base(&PieceType::I).len(), 2);
    assert_eq!(pieces.get_solid_base(&PieceType::L).len(), 4);
    assert_eq!(pieces.get_solid_base(&PieceType::J).len(), 4);
    assert_eq!(pieces.get_solid_base(&PieceType::S).len(), 2);
    assert_eq!(pieces.get_solid_base(&PieceType::Z).len(), 2);
    assert_eq!(pieces.get_solid_base(&PieceType::O).len(), 1);
    assert_eq!(pieces.get_solid_base(&PieceType::T).len(), 4);
    for t in ALL_TYPES.iter() {
        for shape in pieces.get_solid_base(t).iter() {
            assert_eq!(shape.len(), 4);
        }
    }
}

#[test]
fn color_ids_unique_and_in_range() {
    let mut seen = Vec::new();
    for t in ALL_TYPES.iter() {
        let c = get_color(t);
        assert!((1..=8).contains(&c));
        assert!(!seen.contains(&c));
        seen.push(c);
    }
}
