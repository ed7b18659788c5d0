use chess_engine::utils::{
    bit_at, clear_bit, distance, file_char, file_of, is_set, lsb, msb, parse_square, pop_lsb,
    popcount, rank_char, rank_of, set_bit, square, square_name, Move, MoveParseError,
};

#[test]
fn test_square_conversion() {
    assert_eq!(parse_square("a1"), Some(0));
    assert_eq!(parse_square("h8"), Some(63));
    assert_eq!(parse_square("e4"), Some(28));
    assert_eq!(square_name(0), "a1");
    assert_eq!(square_name(63), "h8");
    assert_eq!(square_name(28), "e4");
}

#[test]
fn test_move_encoding() {
    let m = Move::new(12, 28);
    assert_eq!(m.from(), 12);
    assert_eq!(m.to(), 28);

    let m2 = Move::with_promotion(52, 60, 4);
    assert!(m2.is_promotion());
    assert_eq!(m2.promotion(), 4);
}

#[test]
fn test_bitboard_ops() {
    assert_eq!(popcount(0xFF), 8);
    assert_eq!(lsb(0x8), 3);
    assert_eq!(msb(0x8), 3);
    assert_eq!(msb(0x80), 7);
}

#[test]
fn bit_helpers_on_edge_values() {
    assert_eq!(popcount(0), 0);
    assert_eq!(popcount(u64::MAX), 64);
    assert_eq!(lsb(0), 64);
    assert_eq!(msb(0), 64);
    assert_eq!(lsb(u64::MAX), 0);
    assert_eq!(msb(u64::MAX), 63);
    assert_eq!(bit_at(0), 1);
    assert_eq!(bit_at(63), 0x8000_0000_0000_0000);
    assert!(is_set(0x10, 4));
    assert!(!is_set(0x10, 5));
    assert_eq!(set_bit(0, 9), 0x200);
    assert_eq!(clear_bit(0x300, 9), 0x100);
    let mut bb = 0b1011_0000u64;
    assert_eq!(pop_lsb(&mut bb), 4);
    assert_eq!(bb, 0b1010_0000);
    assert_eq!(pop_lsb(&mut bb), 5);
    assert_eq!(pop_lsb(&mut bb), 7);
    assert_eq!(bb, 0);
}

#[test]
fn square_geometry() {
    assert_eq!(file_of(28), 4);
    assert_eq!(rank_of(28), 3);
    assert_eq!(square(3, 4), 28);
    assert_eq!(square(7, 7), 63);
    assert_eq!(distance(0, 63), 7);
    assert_eq!(distance(12, 28), 2);
    assert_eq!(distance(4, 5), 1);
    assert_eq!(distance(9, 9), 0);
    assert_eq!(distance(0, 7), 7);
    assert_eq!(file_char(0), 'a');
    assert_eq!(file_char(7), 'h');
    assert_eq!(rank_char(0), '1');
    assert_eq!(rank_char(7), '8');
}

#[test]
fn parse_square_rejects_what_is_no_square() {
    assert_eq!(parse_square(""), None);
    assert_eq!(parse_square("e"), None);
    assert_eq!(parse_square("e44"), None);
    assert_eq!(parse_square("i1"), None);
    assert_eq!(parse_square("a9"), None);
    assert_eq!(parse_square("a0"), None);
    assert_eq!(parse_square("4e"), None);
    assert_eq!(parse_square("E4"), Some(28));
    assert_eq!(parse_square("H8"), Some(63));
}

#[test]
fn move_fields_and_flags() {
    let m = Move::new(12, 28);
    assert_eq!(m.0, (28 << 6) | 12);
    assert_eq!(m.flags(), 0);
    assert!(!m.is_castle() && !m.is_en_passant() && !m.is_promotion());
    let c = Move::with_flags(4, 6, 1);
    assert!(c.is_castle());
    assert_eq!(c.from(), 4);
    assert_eq!(c.to(), 6);
    let e = Move::with_flags(36, 43, 2);
    assert!(e.is_en_passant());
    let f = Move::with_flags(1, 2, 7);
    assert_eq!(f.flags(), 3);
    let p = Move::with_promotion(52, 60, 1);
    assert_eq!(p.promotion(), 1);
    assert_eq!(p.flags(), 3);
    assert_eq!(p.0, (3 << 14) | (60 << 6) | 52);
}

#[test]
fn move_text() {
    assert_eq!(Move::new(12, 28).to_string(), "e2e4");
    assert_eq!(Move::with_promotion(52, 60, 4).to_string(), "e7e8q");
    assert_eq!(Move::with_promotion(52, 60, 1).to_string(), "e7e8n");
    assert_eq!(Move::with_promotion(52, 61, 2).to_string(), "e7f8b");
    assert_eq!(Move::with_promotion(8, 0, 3).to_string(), "a2a1r");
    assert_eq!(Move::with_flags(4, 6, 1).to_string(), "e1g1");
    assert_eq!(Move::from_string("e2e4"), Some(Move::new(12, 28)));
    assert_eq!(Move::from_string("e7e8q"), Some(Move::with_promotion(52, 60, 4)));
    assert_eq!(Move::from_string("E7E8N"), Some(Move::with_promotion(52, 60, 1)));
    assert_eq!(Move::from_string("e7e8k"), None);
    assert_eq!(Move::from_string("e2e"), None);
    assert_eq!(Move::from_string("e2e4qq"), None);
    assert_eq!(Move::from_string("z2e4"), None);
    assert_eq!(Move::from_string(""), None);
}

#[test]
fn move_text_round_trip_on_every_faithful_move() {
    for from in 0..64u8 {
        for to in 0..64u8 {
            let m = Move::new(from, to);
            assert_eq!(Move::from_string(&m.to_string()), Some(m));
            for p in 1..=4u8 {
                let q = Move::with_promotion(from, to, p);
                assert_eq!(Move::from_string(&q.to_string()), Some(q));
            }
        }
    }
    let castle = Move::with_flags(4, 6, 1);
    assert_eq!(Move::from_string(&castle.to_string()), Some(Move::new(4, 6)));
}

#[test]
fn move_parse_errors() {
    assert_eq!(Move::parse("e2e4"), Ok(Move::new(12, 28)));
    assert_eq!(Move::parse("a7a8r"), Ok(Move::with_promotion(48, 56, 3)));
    assert_eq!(Move::parse(""), Err(MoveParseError::Length));
    assert_eq!(Move::parse("e2e"), Err(MoveParseError::Length));
    assert_eq!(Move::parse("e2e4qq"), Err(MoveParseError::Length));
    assert_eq!(Move::parse("e9e4"), Err(MoveParseError::Square));
    assert_eq!(Move::parse("e2x4"), Err(MoveParseError::Square));
    assert_eq!(Move::parse("e9e4x"), Err(MoveParseError::Square));
    assert_eq!(Move::parse("e7e8k"), Err(MoveParseError::Promotion));
    for text in ["e2e4", "a7a8r", "", "e2e", "e9e4", "e7e8k", "E2E4", "h7h8Q"] {
        assert_eq!(Move::from_string(text), Move::parse(text).ok());
    }
}
