use chess_engine::board::Board;
use chess_engine::eval::{evaluate, is_insufficient_material};
use chess_engine::movegen::{generate_legal_moves, in_check};
use chess_engine::ordering::MoveScorer;
use chess_engine::search::{
    over_limit, table_cutoff, SearchLimits, Searcher, MATE_SCORE, MAX_DEPTH,
};
use chess_engine::tt::{Bound, TTEntry, TranspositionTable};
use chess_engine::utils::{Move, Timer};

fn depth(d: u8) -> SearchLimits {
    SearchLimits { depth: Some(d), movetime: None, nodes: None }
}

#[test]
fn evaluation_of_known_positions() {
    assert_eq!(evaluate(&Board::starting_position()), 0);
    let white = Board::from_fen("4k3/8/8/8/8/8/4P3/4K3 w - - 0 1").unwrap();
    assert_eq!(evaluate(&white), 150);
    let black = Board::from_fen("4k3/8/8/8/8/8/4P3/4K3 b - - 0 1").unwrap();
    assert_eq!(evaluate(&black), -150);
    let after = Board::from_fen("rnbqkbnr/pppppppp/8/8/4P3/8/PPPP1PPP/RNBQKBNR b KQkq e3 0 1")
        .unwrap();
    assert_eq!(evaluate(&after), -5);
    let rook = Board::from_fen("4k3/8/8/8/8/8/8/R3K3 w - - 0 1").unwrap();
    assert_eq!(evaluate(&rook), 500 + 5 * 10);
    let knight = Board::from_fen("4k3/8/8/8/3n4/8/8/4K3 w - - 0 1").unwrap();
    assert_eq!(evaluate(&knight), -(320 + 20) - 5 * 8);
}

#[test]
fn insufficient_material() {
    let kings = Board::from_fen("4k3/8/8/8/8/8/8/4K3 w - - 0 1").unwrap();
    assert!(is_insufficient_material(&kings));
    let knight = Board::from_fen("4k3/8/8/8/8/8/8/4KN2 w - - 0 1").unwrap();
    assert!(is_insufficient_material(&knight));
    let bishop = Board::from_fen("4kb2/8/8/8/8/8/8/4K3 w - - 0 1").unwrap();
    assert!(is_insufficient_material(&bishop));
    let pawn = Board::from_fen("4k3/8/8/8/8/8/4P3/4K3 w - - 0 1").unwrap();
    assert!(!is_insufficient_material(&pawn));
    let rook = Board::from_fen("4k3/8/8/8/8/8/8/4KR2 w - - 0 1").unwrap();
    assert!(!is_insufficient_material(&rook));
    let two = Board::from_fen("4k3/8/8/8/8/8/8/3NKN2 w - - 0 1").unwrap();
    assert!(!is_insufficient_material(&two));
    assert!(!is_insufficient_material(&Board::starting_position()));
}

#[test]
fn table_size_is_a_power_of_two_within_the_budget() {
    let one = TranspositionTable::new(1);
    assert_eq!(one.len(), 32768);
    let none = TranspositionTable::new(0);
    assert_eq!(none.len(), 1);
    let four = TranspositionTable::new(4);
    assert_eq!(four.len(), 131072);
    assert_eq!(one.used_entries(), 0);
}

#[test]
fn table_store_and_probe() {
    let mut t = TranspositionTable::new(1);
    let h: u64 = 0xDEAD_BEEF_0000_1234;
    assert_eq!(t.index(h), (h as usize) & 32767);
    assert!(t.probe(h).is_none());
    t.store(h, 3, 25, Some(Move::new(12, 28)), Bound::Exact);
    let e = *t.probe(h).unwrap();
    assert_eq!((e.hash, e.depth, e.score), (h, 3, 25));
    assert_eq!(e.best_move, Some(Move::new(12, 28)));
    assert_eq!(e.bound, Bound::Exact);
    assert_eq!(t.used_entries(), 1);
    t.store(h, 2, -7, None, Bound::Upper);
    let e = *t.probe(h).unwrap();
    assert_eq!((e.depth, e.score), (3, 25));
    t.store(h, 3, 40, None, Bound::Lower);
    let e = *t.probe(h).unwrap();
    assert_eq!((e.depth, e.score, e.bound), (3, 40, Bound::Lower));
    assert_eq!(e.best_move, None);
    t.store(h, 9, 41, None, Bound::Exact);
    assert_eq!(t.probe(h).unwrap().depth, 9);
    let other = h ^ (1 << 40);
    assert_eq!(t.index(other), t.index(h));
    t.store(other, 1, 5, None, Bound::Exact);
    assert!(t.probe(h).is_none());
    assert_eq!(t.probe(other).unwrap().depth, 1);
    assert_eq!(t.used_entries(), 1);
    t.clear();
    assert!(t.probe(other).is_none());
    assert_eq!(t.used_entries(), 0);
    let blank = TTEntry::empty();
    assert_eq!((blank.hash, blank.depth, blank.score), (0, 0, 0));
    assert_eq!(blank.best_move, None);
    assert_eq!(blank.bound, Bound::Exact);
    assert_eq!(t.probe(0).unwrap().depth, 0);
}

#[test]
fn table_cutoff_rules() {
    let e = |depth, score, bound| {
        Some(TTEntry { hash: 1, depth, score, best_move: None, bound })
    };
    assert_eq!(table_cutoff(None, 1, -10, 10, false), None);
    assert_eq!(table_cutoff(e(3, 7, Bound::Exact), 3, -10, 10, false), Some(7));
    assert_eq!(table_cutoff(e(3, 7, Bound::Exact), 4, -10, 10, false), None);
    assert_eq!(table_cutoff(e(3, 7, Bound::Exact), 3, -10, 10, true), None);
    assert_eq!(table_cutoff(e(3, 10, Bound::Lower), 2, -10, 10, false), Some(10));
    assert_eq!(table_cutoff(e(3, 9, Bound::Lower), 2, -10, 10, false), None);
    assert_eq!(table_cutoff(e(3, -10, Bound::Upper), 2, -10, 10, false), Some(-10));
    assert_eq!(table_cutoff(e(3, -9, Bound::Upper), 2, -10, 10, false), None);
}

#[test]
fn limits() {
    let none = SearchLimits { depth: None, movetime: None, nodes: None };
    assert!(!over_limit(&none, u64::MAX, Some(u128::MAX)));
    let nodes = SearchLimits { depth: None, movetime: None, nodes: Some(100) };
    assert!(!over_limit(&nodes, 99, None));
    assert!(over_limit(&nodes, 100, None));
    let time = SearchLimits { depth: None, movetime: Some(50), nodes: None };
    assert!(!over_limit(&time, 0, Some(49)));
    assert!(over_limit(&time, 0, Some(50)));
    assert!(!over_limit(&time, 0, None));
}

#[test]
fn move_scores() {
    let board = Board::from_fen("1r2k3/P7/8/3p4/4P3/8/8/4K3 w - - 0 1").unwrap();
    let mut scorer = MoveScorer::new();
    let capture = Move::new(28, 35);
    let quiet = Move::new(4, 5);
    let promotion = Move::with_promotion(48, 56, 4);
    let promotion_capture = Move::with_promotion(48, 57, 4);
    assert_eq!(scorer.score_move(&board, capture, Some(capture), 0), 10_000_000);
    assert_eq!(scorer.score_move(&board, capture, None, 0), 1_000_000);
    assert_eq!(scorer.score_move(&board, promotion_capture, None, 0), 1_000_000 + 300);
    assert_eq!(scorer.score_move(&board, promotion, None, 0), 900_000 + 400);
    assert_eq!(scorer.score_move(&board, quiet, None, 0), 0);
    scorer.update_killer(quiet, 3);
    assert_eq!(scorer.score_move(&board, quiet, None, 3), 800_000);
    assert_eq!(scorer.score_move(&board, quiet, None, 2), 0);
    let other = Move::new(4, 3);
    scorer.update_killer(other, 3);
    assert_eq!(scorer.score_move(&board, other, None, 3), 800_000);
    assert_eq!(scorer.score_move(&board, quiet, None, 3), 700_000);
    scorer.update_killer(other, 3);
    assert_eq!(scorer.killer_moves[3], [Some(other), Some(quiet)]);
    scorer.update_killer(quiet, 500);
    let third = Move::new(4, 13);
    scorer.update_history(0, third, 5);
    scorer.update_history(0, third, 3);
    assert_eq!(scorer.score_move(&board, third, None, 0), 34);
    assert_eq!(scorer.history[0][4][13], 34);
    assert_eq!(scorer.history[1][4][13], 0);
    scorer.history[0][4][13] = i32::MAX - 3;
    scorer.update_history(0, third, 2);
    assert_eq!(scorer.history[0][4][13], i32::MAX);
    scorer.clear();
    assert_eq!(scorer.score_move(&board, quiet, None, 3), 0);
    assert_eq!(scorer.score_move(&board, third, None, 0), 0);
}

#[test]
fn ordering_sorts_by_score_and_keeps_ties_in_order() {
    let mut board = Board::from_fen("1r2k3/P7/8/3p4/4P3/8/8/4K3 w - - 0 1").unwrap();
    let searcher = Searcher::new(1);
    let mut moves = generate_legal_moves(&mut board);
    let before = moves.clone();
    let tt_move = Move::new(4, 5);
    searcher.order_moves(&board, &mut moves, Some(tt_move), 0);
    assert_eq!(moves.len(), before.len());
    for m in &before {
        assert!(moves.contains(m));
    }
    assert_eq!(moves[0], tt_move);
    let scores: Vec<i32> = moves
        .iter()
        .map(|m| searcher.scorer.score_move(&board, *m, Some(tt_move), 0))
        .collect();
    for w in scores.windows(2) {
        assert!(w[0] >= w[1]);
    }
    let quiet: Vec<Move> = before
        .iter()
        .copied()
        .filter(|m| searcher.scorer.score_move(&board, *m, Some(tt_move), 0) == 0)
        .collect();
    let quiet_after: Vec<Move> = moves
        .iter()
        .copied()
        .filter(|m| searcher.scorer.score_move(&board, *m, Some(tt_move), 0) == 0)
        .collect();
    assert_eq!(quiet, quiet_after);
}

#[test]
fn search_finds_the_mate_in_one() {
    let mut board = Board::from_fen("6k1/5ppp/8/8/8/8/5PPP/4R1K1 w - - 0 1").unwrap();
    let fen = board.to_fen();
    let mut searcher = Searcher::new(1);
    let best = searcher.search(&mut board, depth(2));
    assert_eq!(board.to_fen(), fen);
    assert!(generate_legal_moves(&mut board).contains(&best));
    assert_eq!(best.to_string(), "e1e8");
    assert_eq!(searcher.info.score, MATE_SCORE - 1);
    assert_eq!(searcher.info.pv[0], best);
    assert!(!searcher.lines.is_empty());
    assert!(searcher.lines.len() <= 2);
}

#[test]
fn mated_position_scores_mate_at_its_ply() {
    let mut board = Board::from_fen("7k/6Q1/6K1/8/8/8/8/8 b - - 0 1").unwrap();
    assert!(generate_legal_moves(&mut board).is_empty());
    assert!(in_check(&board));
    let mut searcher = Searcher::new(1);
    assert_eq!(
        searcher.alpha_beta(&mut board, 2, 0, -MATE_SCORE, MATE_SCORE, true),
        -MATE_SCORE
    );
    assert_eq!(
        searcher.alpha_beta(&mut board, 2, 3, -MATE_SCORE, MATE_SCORE, true),
        -MATE_SCORE + 3
    );
    let mut stale = Board::from_fen("7k/5Q2/6K1/8/8/8/8/8 b - - 0 1").unwrap();
    assert_eq!(
        searcher.alpha_beta(&mut stale, 2, 1, -MATE_SCORE, MATE_SCORE, true),
        0
    );
    let best = searcher.search(&mut board, depth(3));
    assert_eq!(best, Move::new(0, 0));
    assert!(searcher.info.pv.is_empty());
}

#[test]
fn fifty_quiet_moves_are_a_draw() {
    let mut board = Board::from_fen("4k3/8/8/8/8/8/8/R3K3 w - - 100 80").unwrap();
    let mut searcher = Searcher::new(1);
    assert_eq!(
        searcher.alpha_beta(&mut board, 3, 0, -MATE_SCORE, MATE_SCORE, true),
        0
    );
    let mut fresh = Board::from_fen("4k3/8/8/8/8/8/8/R3K3 w - - 98 80").unwrap();
    assert_ne!(
        searcher.alpha_beta(&mut fresh, 1, 0, -MATE_SCORE, MATE_SCORE, true),
        0
    );
    let mut last = Board::from_fen("4k3/8/8/8/8/8/8/R3K3 w - - 99 80").unwrap();
    searcher.tt.clear();
    assert_eq!(
        searcher.alpha_beta(&mut last, 1, 0, -MATE_SCORE, MATE_SCORE, true),
        0
    );
}

#[test]
fn stopped_search_returns_the_evaluation_below_the_root() {
    let mut board = Board::starting_position();
    let mut searcher = Searcher::new(1);
    searcher.stop();
    assert!(searcher.is_stopped());
    assert_eq!(
        searcher.alpha_beta(&mut board, 4, 1, -MATE_SCORE, MATE_SCORE, false),
        evaluate(&board)
    );
    let far = searcher.alpha_beta(&mut board, 4, 128, -MATE_SCORE, MATE_SCORE, false);
    assert_eq!(far, evaluate(&board));
}

#[test]
fn quiescence_stands_pat_without_captures() {
    let mut board = Board::starting_position();
    let mut searcher = Searcher::new(1);
    assert_eq!(searcher.quiescence(&mut board, 0, -50, 50), 0);
    assert_eq!(searcher.quiescence(&mut board, 0, 10, 50), 10);
    assert_eq!(searcher.quiescence(&mut board, 0, -50, -20), -20);
    let mut hanging = Board::from_fen("4k3/8/8/3q4/4P3/8/8/4K3 w - - 0 1").unwrap();
    let stand = evaluate(&hanging);
    let q = searcher.quiescence(&mut hanging, 0, -MATE_SCORE, MATE_SCORE);
    assert!(q > stand);
    assert_eq!(hanging.to_fen(), "4k3/8/8/3q4/4P3/8/8/4K3 w - - 0 1");
}

#[test]
fn search_does_not_depend_on_earlier_searches_once_the_table_is_cleared() {
    let fen = "r3k2r/p1ppqpb1/bn2pnp1/3PN3/1p2P3/2N2Q1p/PPPBBPPP/R3K2R w KQkq - 0 1";
    let mut board = Board::from_fen(fen).unwrap();
    let mut fresh = Searcher::new(1);
    let first = fresh.search(&mut board, depth(3));
    let first_score = fresh.info.score;
    let mut used = Searcher::new(1);
    let mut other = Board::starting_position();
    used.search(&mut other, depth(3));
    used.tt.clear();
    let second = used.search(&mut board, depth(3));
    assert_eq!(first, second);
    assert_eq!(first_score, used.info.score);
    fresh.tt.clear();
    let third = fresh.search(&mut board, depth(3));
    assert_eq!(first, third);
    assert_eq!(board.to_fen(), fen);
}

#[test]
fn search_respects_the_move_time() {
    let mut board = Board::starting_position();
    let mut searcher = Searcher::new(1);
    let clock = Timer::new();
    let best = searcher.search(
        &mut board,
        SearchLimits { depth: None, movetime: Some(50), nodes: None },
    );
    let elapsed = clock.elapsed_ms();
    assert!(elapsed < 2000, "took {} ms", elapsed);
    assert!(generate_legal_moves(&mut board).contains(&best));
    assert_eq!(board.to_fen(), Board::starting_position().to_fen());
    assert!(searcher.info.depth <= MAX_DEPTH);
}

#[test]
fn search_respects_the_node_limit() {
    let mut board = Board::starting_position();
    let mut searcher = Searcher::new(1);
    let best = searcher.search(
        &mut board,
        SearchLimits { depth: None, movetime: None, nodes: Some(2000) },
    );
    assert!(searcher.is_stopped());
    assert!(searcher.info.nodes >= 2000);
    assert!(searcher.info.nodes < 200_000);
    assert!(best == Move::new(0, 0) || generate_legal_moves(&mut board).contains(&best));
    let zero = searcher.search(
        &mut board,
        SearchLimits { depth: Some(5), movetime: None, nodes: Some(0) },
    );
    assert_eq!(zero, Move::new(0, 0));
    assert!(searcher.lines.is_empty());
}

#[test]
fn principal_variation_is_a_line_of_legal_moves() {
    let mut board = Board::from_fen(
        "r3k2r/p1ppqpb1/bn2pnp1/3PN3/1p2P3/2N2Q1p/PPPBBPPP/R3K2R w KQkq - 0 1",
    )
    .unwrap();
    let mut searcher = Searcher::new(1);
    let best = searcher.search(&mut board, depth(3));
    let pv = searcher.info.pv.clone();
    assert!(!pv.is_empty());
    assert!(pv.len() <= 3);
    assert_eq!(pv[0], best);
    for m in &pv {
        assert!(generate_legal_moves(&mut board).contains(m));
        board.make_move(*m);
    }
    for _ in &pv {
        board.unmake_move();
    }
    let again = searcher.extract_pv(&mut board, 3);
    assert_eq!(again, pv);
    assert!(searcher.extract_pv(&mut board, 0).is_empty());
}

#[test]
fn info_line_has_the_stable_shape() {
    let mut searcher = Searcher::new(1);
    searcher.info.depth = 3;
    searcher.info.seldepth = 5;
    searcher.info.score = -42;
    searcher.info.nodes = 1500;
    searcher.info.time_ms = 30;
    searcher.info.pv = vec![Move::new(12, 28), Move::with_promotion(52, 60, 4)];
    assert_eq!(
        searcher.info_line(),
        "info depth 3 seldepth 5 score cp -42 nodes 1500 time 30 nps 50000 pv e2e4 e7e8q"
    );
    searcher.info.pv.clear();
    searcher.info.time_ms = 0;
    searcher.info.score = 0;
    assert_eq!(
        searcher.info_line(),
        "info depth 3 seldepth 5 score cp 0 nodes 1500 time 0 nps 0"
    );
    let mut board = Board::starting_position();
    searcher.search(&mut board, depth(2));
    assert_eq!(searcher.lines.len(), 2);
    assert!(searcher.lines[0].starts_with("info depth 1 seldepth "));
    assert!(searcher.lines[1].starts_with("info depth 2 seldepth "));
    assert!(searcher.lines[1].contains(" pv "));
}
