use bevris::bag::PieceBag;
use bevris::pieces::PieceType;

const ALL_TYPES: [PieceType; 7] = [
    PieceType::I,
    PieceType::L,
    PieceType::J,
    PieceType::S,
    PieceType::Z,
    PieceType::T,
    PieceType::O,
];

fn count(v: &[PieceType], t: PieceType) -> usize {
    v.iter().filter(|x| **x == t).count()
}

#[test]
fn seven_consecutive_draws_are_a_permutation() {
    for seed in [0u64, 1, 42, 123456789, u64::MAX] {
        let mut bag = PieceBag::new(seed);
        // Two aligned windows in a row: draws 1-7 and draws 8-14.
        for window in 0..2 {
            let mut outs = Vec::new();
            for _ in 0..7 {
                outs.push(bag.next());
            }
            for t in ALL_TYPES.iter() {
                assert_eq!(
                    count(&outs, *t),
                    1,
                    "seed {} window {}: {:?} not drawn exactly once",
                    seed,
                    window,
                    t
                );
            }
        }
    }
}

#[test]
fn same_seed_gives_same_sequence() {
    let mut a = PieceBag::new(7);
    let mut b = PieceBag::new(7);
    for _ in 0..21 {
        assert_eq!(a.next(), b.next());
    }
}

#[test]
fn peek_preview_does_not_consume() {
    let mut bag = PieceBag::new(99);
    let p1 = bag.peek_preview();
    let p2 = bag.peek_preview();
    assert_eq!(p1, p2);
    assert_eq!(bag.next(), p1);
    let p3 = bag.peek_preview();
    assert_eq!(bag.next(), p3);
}
