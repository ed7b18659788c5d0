use chess_engine::board::Board;
use chess_engine::fen::FenParseError;
use chess_engine::movegen::{
    generate_captures, generate_legal_captures, generate_legal_moves, generate_moves, in_check,
    is_square_attacked,
};
use chess_engine::position::{
    BISHOP, BLACK, CASTLE_BK, CASTLE_BQ, CASTLE_WK, CASTLE_WQ, KING, KNIGHT, PAWN, QUEEN, ROOK,
    WHITE,
};
use chess_engine::utils::Move;

const START: &str = "rnbqkbnr/pppppppp/8/8/8/8/PPPPPPPP/RNBQKBNR w KQkq - 0 1";

fn same_position(a: &Board, b: &Board) -> bool {
    a.pieces == b.pieces
        && a.occupancy == b.occupancy
        && a.side == b.side
        && a.castling == b.castling
        && a.en_passant == b.en_passant
        && a.halfmove == b.halfmove
        && a.fullmove == b.fullmove
        && a.hash == b.hash
        && a.history.len() == b.history.len()
}

fn find(board: &mut Board, text: &str) -> Move {
    let legal = generate_legal_moves(board);
    for m in legal {
        if m.to_string() == text {
            return m;
        }
    }
    panic!("no legal move {}", text);
}

#[test]
fn starting_position_is_the_standard_text() {
    let a = Board::starting_position();
    let b = Board::from_fen(START).unwrap();
    assert!(same_position(&a, &b));
    assert_eq!(a.pieces[WHITE as usize][PAWN as usize], 0xFF00);
    assert_eq!(a.pieces[BLACK as usize][KING as usize], 0x1000_0000_0000_0000);
    assert_eq!(a.occupancy[0], 0xFFFF);
    assert_eq!(a.occupancy[1], 0xFFFF_0000_0000_0000);
    assert_eq!(a.all_occupancy(), 0xFFFF_0000_0000_FFFF);
    assert_eq!(a.side, WHITE);
    assert_eq!(a.castling, CASTLE_WK | CASTLE_WQ | CASTLE_BK | CASTLE_BQ);
    assert_eq!(a.en_passant, None);
    assert_eq!(a.halfmove, 0);
    assert_eq!(a.fullmove, 1);
    assert_eq!(a.hash, a.calculate_hash());
    assert_eq!(a.to_fen(), START);
}

#[test]
fn empty_board() {
    let b = Board::new();
    assert_eq!(b.pieces, [[0u64; 6]; 2]);
    assert_eq!(b.occupancy, [0u64; 2]);
    assert_eq!(b.side, WHITE);
    assert_eq!(b.castling, 0);
    assert_eq!(b.en_passant, None);
    assert_eq!(b.halfmove, 0);
    assert_eq!(b.fullmove, 1);
    assert_eq!(b.hash, 0);
    assert_eq!(b.hash, b.calculate_hash());
    assert!(b.history.is_empty());
    assert_eq!(b.to_fen(), "8/8/8/8/8/8/8/8 w - - 0 1");
}

#[test]
fn piece_at_finds_kind_and_colour() {
    let b = Board::starting_position();
    assert_eq!(b.piece_at(0), Some((ROOK, WHITE)));
    assert_eq!(b.piece_at(1), Some((KNIGHT, WHITE)));
    assert_eq!(b.piece_at(2), Some((BISHOP, WHITE)));
    assert_eq!(b.piece_at(3), Some((QUEEN, WHITE)));
    assert_eq!(b.piece_at(4), Some((KING, WHITE)));
    assert_eq!(b.piece_at(12), Some((PAWN, WHITE)));
    assert_eq!(b.piece_at(28), None);
    assert_eq!(b.piece_at(52), Some((PAWN, BLACK)));
    assert_eq!(b.piece_at(59), Some((QUEEN, BLACK)));
    assert_eq!(b.piece_at(63), Some((ROOK, BLACK)));
}

#[test]
fn starting_position_has_twenty_legal_moves() {
    let mut board = Board::starting_position();
    let legal = generate_legal_moves(&mut board);
    assert_eq!(legal.len(), 20);
    let texts: Vec<String> = legal.iter().map(|m| m.to_string()).collect();
    assert!(texts.contains(&"e2e4".to_string()));
    assert!(texts.contains(&"g1f3".to_string()));
    assert!(!texts.contains(&"e2e5".to_string()));
    let mut pseudo = Vec::new();
    generate_moves(&board, &mut pseudo);
    assert_eq!(pseudo.len(), 20);
    let mut captures = Vec::new();
    generate_captures(&board, &mut captures);
    assert!(captures.is_empty());
    assert!(generate_legal_captures(&mut board).is_empty());
}

#[test]
fn make_then_unmake_restores_the_board() {
    let fen = "4k3/8/8/8/8/8/4P3/4K3 w - - 0 1";
    let mut board = Board::from_fen(fen).unwrap();
    let first = Board::from_fen(fen).unwrap();
    let m = find(&mut board, "e2e4");
    board.make_move(m);
    assert_eq!(board.history.len(), 1);
    assert_eq!(board.side, BLACK);
    assert_eq!(board.en_passant, Some(20));
    assert_eq!(board.halfmove, 0);
    assert_eq!(board.fullmove, 1);
    assert_eq!(board.piece_at(28), Some((PAWN, WHITE)));
    assert_eq!(board.piece_at(12), None);
    assert_eq!(board.hash, board.calculate_hash());
    assert_eq!(board.to_fen(), "4k3/8/8/8/4P3/8/8/4K3 b - e3 0 1");
    board.unmake_move();
    assert!(same_position(&board, &first));
    assert_eq!(board.hash, first.hash);
    assert_eq!(board.to_fen(), fen);
}

#[test]
fn capture_clears_the_en_passant_square() {
    let mut board =
        Board::from_fen("rnbqkbnr/ppp1pppp/8/3p4/4P3/8/PPPP1PPP/PPPP1PPP b KQkq e3 0 1").unwrap();
    assert_eq!(board.en_passant, Some(20));
    let mut pseudo = Vec::new();
    generate_moves(&board, &mut pseudo);
    let capture = Move::new(35, 28);
    assert!(pseudo.contains(&capture));
    assert_eq!(capture.to_string(), "d5e4");
    assert_eq!(board.piece_at(35), Some((PAWN, BLACK)));
    assert_eq!(board.piece_at(28), Some((PAWN, WHITE)));
    let with_key = board.hash;
    let key = board.keys.en_passant[4];
    board.make_move(capture);
    assert_eq!(board.en_passant, None);
    assert_eq!(board.hash, board.calculate_hash());
    assert_eq!(board.halfmove, 0);
    assert_eq!(board.piece_at(28), Some((PAWN, BLACK)));
    let mut without = Board::from_fen(&board.to_fen()).unwrap();
    assert_eq!(without.hash, board.hash);
    without.en_passant = Some(20);
    assert_eq!(without.calculate_hash(), board.hash ^ key);
    assert_ne!(with_key, board.hash);
}

#[test]
fn castling_moves_king_and_rook() {
    let mut board = Board::from_fen("r3k2r/8/8/8/8/8/8/R3K2R w KQkq - 0 1").unwrap();
    let castle = find(&mut board, "e1g1");
    assert!(castle.is_castle());
    assert_eq!(castle, Move::with_flags(4, 6, 1));
    board.make_move(castle);
    assert_eq!(board.piece_at(6), Some((KING, WHITE)));
    assert_eq!(board.piece_at(5), Some((ROOK, WHITE)));
    assert_eq!(board.piece_at(4), None);
    assert_eq!(board.piece_at(7), None);
    assert_eq!(board.castling, CASTLE_BK | CASTLE_BQ);
    assert_eq!(board.hash, board.calculate_hash());
    assert_eq!(board.to_fen(), "r3k2r/8/8/8/8/8/8/R4RK1 b kq - 1 1");
    let long = find(&mut board, "e8c8");
    assert!(long.is_castle());
    board.make_move(long);
    assert_eq!(board.piece_at(58), Some((KING, BLACK)));
    assert_eq!(board.piece_at(59), Some((ROOK, BLACK)));
    assert_eq!(board.castling, 0);
    assert_eq!(board.fullmove, 2);
    assert_eq!(board.hash, board.calculate_hash());
    board.unmake_move();
    board.unmake_move();
    assert_eq!(board.to_fen(), "r3k2r/8/8/8/8/8/8/R3K2R w KQkq - 0 1");
    assert_eq!(board.hash, board.calculate_hash());
}

#[test]
fn castling_is_refused_through_attack_or_without_pieces() {
    let mut attacked = Board::from_fen("r3k2r/8/8/8/8/5r2/8/R3K2R w KQkq - 0 1").unwrap();
    let legal: Vec<String> = generate_legal_moves(&mut attacked)
        .iter()
        .map(|m| m.to_string())
        .collect();
    assert!(!legal.contains(&"e1g1".to_string()));
    assert!(legal.contains(&"e1c1".to_string()));
    let mut no_rook = Board::from_fen("4k3/8/8/8/8/8/8/4K3 w KQ - 0 1").unwrap();
    let legal = generate_legal_moves(&mut no_rook);
    assert!(legal.iter().all(|m| !m.is_castle()));
    assert_eq!(legal.len(), 5);
}

#[test]
fn en_passant_capture_and_back() {
    let fen = "4k3/8/8/3pP3/8/8/8/4K3 w - d6 0 1";
    let mut board = Board::from_fen(fen).unwrap();
    let ep = find(&mut board, "e5d6");
    assert!(ep.is_en_passant());
    board.make_move(ep);
    assert_eq!(board.piece_at(43), Some((PAWN, WHITE)));
    assert_eq!(board.piece_at(35), None);
    assert_eq!(board.piece_at(36), None);
    assert_eq!(board.hash, board.calculate_hash());
    assert_eq!(board.history[0].captured, None);
    board.unmake_move();
    assert_eq!(board.to_fen(), fen);
    assert_eq!(board.hash, board.calculate_hash());
    let mut captures = Vec::new();
    generate_captures(&board, &mut captures);
    assert_eq!(captures, vec![Move::with_flags(36, 43, 2)]);
    let mut stray = Board::from_fen("4k3/8/8/4P3/8/8/8/4K3 w - d6 0 1").unwrap();
    assert!(generate_legal_moves(&mut stray).iter().all(|m| !m.is_en_passant()));
}

#[test]
fn promotion_and_back() {
    let fen = "1r2k3/P7/8/8/8/8/8/4K3 w - - 3 9";
    let mut board = Board::from_fen(fen).unwrap();
    let legal = generate_legal_moves(&mut board);
    let promotions: Vec<&Move> = legal.iter().filter(|m| m.is_promotion()).collect();
    assert_eq!(promotions.len(), 8);
    let capture = find(&mut board, "a7b8q");
    board.make_move(capture);
    assert_eq!(board.piece_at(57), Some((QUEEN, WHITE)));
    assert_eq!(board.piece_at(48), None);
    assert_eq!(board.history[0].captured, Some(ROOK));
    assert_eq!(board.halfmove, 0);
    assert_eq!(board.hash, board.calculate_hash());
    board.unmake_move();
    assert_eq!(board.to_fen(), fen);
    let under = find(&mut board, "a7a8n");
    board.make_move(under);
    assert_eq!(board.piece_at(56), Some((KNIGHT, WHITE)));
    assert_eq!(board.halfmove, 0);
    board.unmake_move();
    assert_eq!(board.to_fen(), fen);
    let captures = generate_legal_captures(&mut board);
    assert_eq!(captures, vec![Move::with_promotion(48, 57, 4)]);
}

#[test]
fn rook_moves_and_captures_give_up_rights() {
    let mut board = Board::from_fen("r3k2r/8/8/8/8/8/8/R3K2R w KQkq - 0 1").unwrap();
    let m = find(&mut board, "a1a8");
    board.make_move(m);
    assert_eq!(board.castling, CASTLE_WK | CASTLE_BK);
    assert_eq!(board.hash, board.calculate_hash());
    board.unmake_move();
    assert_eq!(board.castling, 15);
    let k = find(&mut board, "e1e2");
    board.make_move(k);
    assert_eq!(board.castling, CASTLE_BK | CASTLE_BQ);
    assert_eq!(board.halfmove, 1);
    assert_eq!(board.hash, board.calculate_hash());
}

#[test]
fn clocks_count_and_reset() {
    let mut board = Board::starting_position();
    for text in ["g1f3", "g8f6", "f3g1", "f6g8"] {
        let m = find(&mut board, text);
        board.make_move(m);
    }
    assert_eq!(board.halfmove, 4);
    assert_eq!(board.fullmove, 3);
    assert_eq!(board.history.len(), 4);
    let m = find(&mut board, "e2e4");
    board.make_move(m);
    assert_eq!(board.halfmove, 0);
    assert_eq!(board.fullmove, 3);
    for _ in 0..5 {
        board.unmake_move();
    }
    assert!(same_position(&board, &Board::starting_position()));
}

#[test]
fn hash_follows_every_move_of_a_game() {
    let mut board = Board::starting_position();
    let mut hashes = vec![board.hash];
    let line = [
        "e2e4", "c7c5", "g1f3", "d7d6", "d2d4", "c5d4", "f3d4", "g8f6", "b1c3", "a7a6", "c1e3",
        "e7e5", "d4b3", "c8e6", "f2f3", "f8e7", "d1d2", "e8g8", "e1c1", "b8d7", "g2g4", "b7b5",
        "g4g5", "b5b4", "c3e2", "f6e8", "f3f4", "a6a5", "f4f5", "a5a4", "b3d4", "e5d4",
    ];
    for text in line {
        let m = find(&mut board, text);
        board.make_move(m);
        assert_eq!(board.hash, board.calculate_hash(), "after {}", text);
        let again = Board::from_fen(&board.to_fen()).unwrap();
        assert_eq!(again.hash, board.hash, "after {}", text);
        assert_eq!(again.pieces, board.pieces);
        assert_eq!(again.occupancy, board.occupancy);
        assert_eq!(again.side, board.side);
        assert_eq!(again.castling, board.castling);
        assert_eq!(again.en_passant, board.en_passant);
        assert_eq!(again.halfmove, board.halfmove);
        assert_eq!(again.fullmove, board.fullmove);
        hashes.push(board.hash);
    }
    for i in (0..line.len()).rev() {
        board.unmake_move();
        assert_eq!(board.hash, hashes[i]);
        assert_eq!(board.hash, board.calculate_hash());
    }
    assert!(same_position(&board, &Board::starting_position()));
}

#[test]
fn legal_moves_are_the_pseudo_legal_moves_that_keep_the_king_safe() {
    let fens = [
        START,
        "r3k2r/p1ppqpb1/bn2pnp1/3PN3/1p2P3/2N2Q1p/PPPBBPPP/R3K2R w KQkq - 0 1",
        "8/2p5/3p4/KP5r/1R3p1k/8/4P1P1/8 w - - 0 1",
        "rnbq1k1r/pp1Pbppp/2p5/8/2B5/8/PPP1NnPP/RNBQK2R w KQ - 1 8",
        "4k3/8/8/8/8/8/4r3/4K3 w - - 0 1",
    ];
    for fen in fens {
        let mut board = Board::from_fen(fen).unwrap();
        let mover = board.side;
        let legal = generate_legal_moves(&mut board);
        let mut pseudo = Vec::new();
        generate_moves(&board, &mut pseudo);
        for (i, a) in pseudo.iter().enumerate() {
            for b in &pseudo[i + 1..] {
                assert_ne!(a, b);
            }
        }
        for m in &pseudo {
            board.make_move(*m);
            board.side = mover;
            let exposed = in_check(&board);
            board.side = 1 - mover;
            board.unmake_move();
            assert_eq!(legal.contains(m), !exposed, "{} in {}", m.to_string(), fen);
        }
        for m in &legal {
            assert!(pseudo.contains(m));
        }
        let mut captures = Vec::new();
        generate_captures(&board, &mut captures);
        for m in &captures {
            assert!(pseudo.contains(m));
            assert!(board.piece_at(m.to()).is_some() || m.is_en_passant());
        }
    }
}

#[test]
fn attacks_and_check() {
    let board = Board::from_fen("4k3/8/8/8/8/8/4r3/4K3 w - - 0 1").unwrap();
    assert!(in_check(&board));
    assert!(is_square_attacked(&board, 4, BLACK));
    assert!(is_square_attacked(&board, 12, WHITE));
    assert!(!is_square_attacked(&board, 0, BLACK));
    assert!(is_square_attacked(&board, 8, BLACK));
    let start = Board::starting_position();
    assert!(!in_check(&start));
    assert!(is_square_attacked(&start, 16, WHITE));
    assert!(is_square_attacked(&start, 21, WHITE));
    assert!(!is_square_attacked(&start, 28, WHITE));
    assert!(is_square_attacked(&start, 44, BLACK));
    let no_king = Board::from_fen("8/8/8/8/8/8/8/R7 b - - 0 1").unwrap();
    assert!(!in_check(&no_king));
}

#[test]
fn checkmate_has_no_legal_move() {
    let mut board = Board::from_fen("7k/5Q2/6K1/8/8/8/8/8 b - - 0 1").unwrap();
    assert!(generate_legal_moves(&mut board).is_empty());
    assert!(!in_check(&board));
    let mut mate = Board::from_fen("7k/6Q1/6K1/8/8/8/8/8 b - - 0 1").unwrap();
    assert!(generate_legal_moves(&mut mate).is_empty());
    assert!(in_check(&mate));
}

#[test]
fn fen_missing_fields_take_defaults() {
    let b = Board::from_fen("4k3/8/8/8/8/8/8/4K3").unwrap();
    assert_eq!(b.side, WHITE);
    assert_eq!(b.castling, 0);
    assert_eq!(b.en_passant, None);
    assert_eq!(b.halfmove, 0);
    assert_eq!(b.fullmove, 1);
    let c = Board::from_fen("  4k3/8/8/8/8/8/8/4K3   b  ").unwrap();
    assert_eq!(c.side, BLACK);
    assert_eq!(c.fullmove, 1);
    let d = Board::from_fen("4k3/8/8/8/8/8/8/4K3 w - - x y").unwrap();
    assert_eq!(d.halfmove, 0);
    assert_eq!(d.fullmove, 1);
    let e = Board::from_fen("4k3/8/8/8/8/8/8/4K3 w Kq-k - +17 65535").unwrap();
    assert_eq!(e.castling, CASTLE_WK | CASTLE_BQ | CASTLE_BK);
    assert_eq!(e.halfmove, 17);
    assert_eq!(e.fullmove, 65535);
    assert_eq!(e.to_fen(), "4k3/8/8/8/8/8/8/4K3 w Kkq - 17 65535");
}

#[test]
fn fen_errors() {
    let err = |s: &str| Board::from_fen(s).err();
    assert_eq!(err(""), Some(FenParseError::Empty));
    assert_eq!(err("   "), Some(FenParseError::Empty));
    assert_eq!(err("8/8/8/8/8/8/8"), Some(FenParseError::RankCount));
    assert_eq!(err("8/8/8/8/8/8/8/8/8"), Some(FenParseError::RankCount));
    assert_eq!(err("8/8/8/8/8/8/8/7x"), Some(FenParseError::InvalidPiece('x')));
    assert_eq!(err("8/8/8/8/8/8/8/8P"), Some(FenParseError::TooManyPieces));
    assert_eq!(err("8/8/8/8/8/8/8/7"), Some(FenParseError::RankLength));
    assert_eq!(err("9/8/8/8/8/8/8/8"), Some(FenParseError::RankLength));
    assert_eq!(err("7/8/8/8/8/8/8/8"), Some(FenParseError::RankLength));
    assert_eq!(err("8/8/8/8/8/8/8/8 x"), Some(FenParseError::InvalidSide));
    assert_eq!(err("8/8/8/8/8/8/8/8 ww"), Some(FenParseError::InvalidSide));
    assert_eq!(err("8/8/8/8/8/8/8/8 w KX"), Some(FenParseError::InvalidCastling('X')));
    assert_eq!(err("8/8/8/8/8/8/8/8 w - z9"), Some(FenParseError::InvalidEnPassant));
    assert_eq!(err("8/8/8/8/8/8/8/8 w - e4"), Some(FenParseError::InvalidEnPassant));
    assert_eq!(err("8/8/8/8/8/8/8/8 w - e33"), Some(FenParseError::InvalidEnPassant));
    assert_eq!(err("8/8/8/8/8/8/8/8 w - - 65536 1"), Some(FenParseError::Overflow));
    assert_eq!(err("8/8/8/8/8/8/8/8 w - - 0 99999999999999999999"), Some(FenParseError::Overflow));
    assert_eq!(err("8/8/8/8/8/8/8/x w q"), Some(FenParseError::InvalidPiece('x')));
    assert!(Board::from_fen("8/8/8/8/8/8/8/8 w - e3 0 1").is_ok());
    assert!(Board::from_fen("8/8/8/8/8/8/8/8 b - e6 0 1").is_ok());
}

#[test]
fn fen_round_trip_on_reference_positions() {
    let fens = [
        START,
        "r3k2r/p1ppqpb1/bn2pnp1/3PN3/1p2P3/2N2Q1p/PPPBBPPP/R3K2R w KQkq - 0 1",
        "8/2p5/3p4/KP5r/1R3p1k/8/4P1P1/8 w - - 0 1",
        "r3k2r/Pppp1ppp/1b3nbN/nP6/BBP1P3/q4N2/Pp1P2PP/R2Q1RK1 w kq - 0 1",
        "rnbq1k1r/pp1Pbppp/2p5/8/2B5/8/PPP1NnPP/RNBQK2R w KQ - 1 8",
        "rnbqkbnr/ppp1pppp/8/3p4/4P3/8/PPPP1PPP/PPPP1PPP b KQkq e3 0 1",
        "4k3/8/8/3pP3/8/8/8/4K3 w - d6 12 345",
        "8/8/8/8/8/8/8/8 b - - 100 0",
    ];
    for fen in fens {
        let board = Board::from_fen(fen).unwrap();
        assert_eq!(board.to_fen(), fen);
        let again = Board::from_fen(&board.to_fen()).unwrap();
        assert!(same_position(&board, &again));
        assert_eq!(board.hash, board.calculate_hash());
    }
}

#[test]
fn moves_come_in_the_order_of_generation() {
    let board = Board::starting_position();
    let mut pseudo = Vec::new();
    generate_moves(&board, &mut pseudo);
    let texts: Vec<String> = pseudo.iter().map(|m| m.to_string()).collect();
    assert_eq!(
        texts,
        vec![
            "a2a3", "a2a4", "b2b3", "b2b4", "c2c3", "c2c4", "d2d3", "d2d4", "e2e3", "e2e4",
            "f2f3", "f2f4", "g2g3", "g2g4", "h2h3", "h2h4", "b1a3", "b1c3", "g1f3", "g1h3",
        ]
    );
    let mut out = vec![Move::new(0, 0)];
    generate_moves(&board, &mut out);
    assert_eq!(out[0], Move::new(0, 0));
    assert_eq!(&out[1..], &pseudo[..]);
    let promo = Board::from_fen("1r2k3/P7/8/8/8/8/8/R3K2R w KQ - 0 1").unwrap();
    let mut moves = Vec::new();
    generate_moves(&promo, &mut moves);
    let texts: Vec<String> = moves.iter().map(|m| m.to_string()).collect();
    assert_eq!(&texts[..8], ["a7a8n", "a7a8b", "a7a8r", "a7a8q", "a7b8n", "a7b8b", "a7b8r", "a7b8q"]);
    assert_eq!(&texts[texts.len() - 2..], ["e1g1", "e1c1"]);
    assert!(moves[moves.len() - 1].is_castle());
    let mut captures = Vec::new();
    generate_captures(&promo, &mut captures);
    assert_eq!(captures, vec![Move::with_promotion(48, 57, 4)]);
}
