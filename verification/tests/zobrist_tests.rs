use chess_engine::zobrist::{Lcg, Zobrist};

#[test]
fn test_zobrist_deterministic() {
    let z1 = Zobrist::new();
    let z2 = Zobrist::new();
    assert_eq!(z1.side, z2.side);
    assert_eq!(z1.pieces[0][0], z2.pieces[0][0]);
    assert_eq!(z1.castling[0], z2.castling[0]);
}

#[test]
fn test_zobrist_unique() {
    let z = Zobrist::new();
    assert_ne!(z.pieces[0][0], z.pieces[0][1]);
    assert_ne!(z.side, z.castling[0]);
}

#[test]
fn zobrist_keys_follow_the_generator() {
    let seed: u64 = 0x123456789ABCDEF0;
    let step = |x: u64| {
        x.wrapping_mul(6364136223846793005)
            .wrapping_add(1442695040888963407)
    };
    let z = Zobrist::new();
    let mut x = seed;
    for piece in 0..12 {
        for sq in 0..64 {
            x = step(x);
            assert_eq!(z.pieces[piece][sq], x);
        }
    }
    x = step(x);
    assert_eq!(z.side, x);
    for i in 0..4 {
        x = step(x);
        assert_eq!(z.castling[i], x);
    }
    for i in 0..8 {
        x = step(x);
        assert_eq!(z.en_passant[i], x);
    }
    assert_eq!(z.pieces[0][0], 0xA1B9_65F4_4BDF_C9DF_u64.wrapping_mul(0).wrapping_add(step(seed)));
}

#[test]
fn lcg_steps() {
    let mut g = Lcg::new(0);
    assert_eq!(g.next(), 1442695040888963407);
    let mut h = Lcg::new(1);
    assert_eq!(h.next(), 6364136223846793005u64.wrapping_add(1442695040888963407));
    assert_eq!(Zobrist::piece_index(0, 0), 0);
    assert_eq!(Zobrist::piece_index(5, 1), 11);
    assert_eq!(Zobrist::piece_index(3, 1), 9);
}
