use chess_engine::movegen::{
    bishop_attacks, king_attacks, knight_attacks, pawn_attacks, queen_attacks, rook_attacks,
};

fn squares(bb: u64) -> Vec<u8> {
    (0..64u8).filter(|s| bb & (1u64 << s) != 0).collect()
}

#[test]
fn leaper_attacks() {
    assert_eq!(squares(knight_attacks(0)), vec![10, 17]);
    assert_eq!(squares(knight_attacks(63)), vec![46, 53]);
    assert_eq!(squares(knight_attacks(27)), vec![10, 12, 17, 21, 33, 37, 42, 44]);
    assert_eq!(squares(king_attacks(0)), vec![1, 8, 9]);
    assert_eq!(squares(king_attacks(7)), vec![6, 14, 15]);
    assert_eq!(squares(king_attacks(27)), vec![18, 19, 20, 26, 28, 34, 35, 36]);
}

#[test]
fn pawn_attack_squares() {
    assert_eq!(squares(pawn_attacks(12, 0)), vec![19, 21]);
    assert_eq!(squares(pawn_attacks(8, 0)), vec![17]);
    assert_eq!(squares(pawn_attacks(15, 0)), vec![22]);
    assert_eq!(squares(pawn_attacks(60, 0)), Vec::<u8>::new());
    assert_eq!(squares(pawn_attacks(52, 1)), vec![43, 45]);
    assert_eq!(squares(pawn_attacks(48, 1)), vec![41]);
    assert_eq!(squares(pawn_attacks(4, 1)), Vec::<u8>::new());
}

#[test]
fn slider_attacks_stop_at_the_first_piece() {
    assert_eq!(rook_attacks(0, 0), 0x0101_0101_0101_01FE);
    assert_eq!(squares(rook_attacks(0, (1 << 3) | (1 << 16))), vec![1, 2, 3, 8, 16]);
    assert_eq!(squares(rook_attacks(27, 1 << 27)).len(), 14);
    assert_eq!(bishop_attacks(0, 0), 0x8040_2010_0804_0200);
    assert_eq!(squares(bishop_attacks(0, 1 << 18)), vec![9, 18]);
    assert_eq!(squares(bishop_attacks(27, 0)).len(), 13);
    assert_eq!(
        queen_attacks(27, 0),
        rook_attacks(27, 0) | bishop_attacks(27, 0)
    );
    assert_eq!(squares(queen_attacks(63, u64::MAX)), vec![54, 55, 62]);
}
