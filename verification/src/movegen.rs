//! Move generation: pseudo-legal moves, captures, and legal moves.

pub use crate::attacks::{
    bishop_attacks, in_check, is_square_attacked, king_attacks, knight_attacks, pawn_attacks,
    queen_attacks, rook_attacks,
};
use crate::attacks::piece_hits;
use crate::bits::{count_below, group_bit_lemmas, lemma_count_clear};
use crate::board::Board;
use crate::listing::{grows, lemma_lists_push, lemma_lists_same, lemma_rounds, lists, tail};
use crate::pawns::{gen_pawn_moves, is_move, lemma_tail_steps, pawn_listed, push_flagged, push_new};
use crate::position::{
    playable, BoardView, BISHOP, CASTLE_BK, CASTLE_BQ, CASTLE_WK, CASTLE_WQ, KING, KNIGHT, QUEEN,
    ROOK, WHITE,
};
use crate::rules::{
    capture_shape, castle_path, castle_rule, king_safe_after, legal, legal_capture, piece_gen,
    plain, pseudo_capture, pseudo_legal,
};
use crate::sequences::{
    capture_moves_seq, castle_seq, legal_captures_seq, legal_seq, lemma_piece_moves_skip,
    lemma_targets_reach, lemma_targets_skip, pawn_moves_upto, piece_moves_upto, pseudo_seq,
    reach_upto, safe_upto, targets_upto,
};
use crate::soundness::{lemma_kinds_apart, lemma_pseudo_playable, lemma_sides_apart};
use crate::utils::{is_set, lemma_move_ranges, lsb, pop_lsb, spec_is_set, Move};
use vstd::prelude::*;

verus! {

/// Appends one ordinary move from `from` to each square of `targets`, by
/// rising square.
pub(crate) fn push_targets(moves: &mut Vec<Move>, from: u8, targets: u64)
    requires
        from < 64,
    ensures
        grows(old(moves)@, final(moves)@),
        lists(
            tail(old(moves)@, final(moves)@),
            |m: Move| plain(m) && m.spec_from() == from && spec_is_set(targets, m.spec_to()),
        ),
        tail(old(moves)@, final(moves)@) == targets_upto(from, targets, 64),
{
    let mut rest: u64 = targets;
    let ghost o = moves@;
    let ghost mut done: nat = 0;
    while rest != 0
        invariant
            from < 64,
            grows(o, moves@),
            done <= 64,
            forall|t: u8| t < 64 ==> (spec_is_set(rest, t) <==> spec_is_set(targets, t) && t >= done),
            tail(o, moves@) == targets_upto(from, targets, done),
            lists(
                tail(o, moves@),
                |m: Move|
                    plain(m) && m.spec_from() == from && spec_is_set(targets, m.spec_to())
                        && !spec_is_set(rest, m.spec_to()),
            ),
        decreases count_below(rest, 64),
    {
        let ghost before = rest;
        let ghost mid = moves@;
        let to = pop_lsb(&mut rest);
        push_new(moves, from, to);
        proof {
            broadcast use group_bit_lemmas;

            lemma_count_clear(before, to, 64);
            let p = |m: Move|
                plain(m) && m.spec_from() == from && spec_is_set(targets, m.spec_to())
                    && !spec_is_set(before, m.spec_to());
            let q = |m: Move| is_move(m, from, to, 0, 1);
            let r = |m: Move|
                plain(m) && m.spec_from() == from && spec_is_set(targets, m.spec_to())
                    && !spec_is_set(rest, m.spec_to());
            assert forall|m: Move| #[trigger] r(m) <==> (p(m) || q(m)) by {
                lemma_move_ranges(m);
            }
            lemma_rounds(o, mid, moves@, p, q, r);
            lemma_targets_skip(from, targets, done, to as nat);
            lemma_tail_steps(
                o,
                mid,
                moves@,
                targets_upto(from, targets, to as nat),
                seq![Move::spec_new(from, to)],
            );
            done = (to + 1) as nat;
        }
    }
    proof {
        broadcast use group_bit_lemmas;

        lemma_lists_same(
            tail(o, moves@),
            |m: Move|
                plain(m) && m.spec_from() == from && spec_is_set(targets, m.spec_to())
                    && !spec_is_set(rest, m.spec_to()),
            |m: Move| plain(m) && m.spec_from() == from && spec_is_set(targets, m.spec_to()),
        );
        lemma_targets_skip(from, targets, done, 64);
    }
}

/// Squares that a piece of the given kind on `from` attacks.
pub(crate) fn attacks_of(kind: u8, from: u8, occupied: u64) -> (bb: u64)
    requires
        1 <= kind <= 5,
        from < 64,
    ensures
        forall|t: u8|
            t < 64 ==> (#[trigger] spec_is_set(bb, t) <==> piece_hits(kind, from, t, occupied)),
{
    if kind == KNIGHT {
        knight_attacks(from)
    } else if kind == BISHOP {
        bishop_attacks(from, occupied)
    } else if kind == ROOK {
        rook_attacks(from, occupied)
    } else if kind == QUEEN {
        queen_attacks(from, occupied)
    } else {
        king_attacks(from)
    }
}

/// `m` is a move of a piece of the given kind; with `captures_only`, a capture.
pub open spec fn piece_listed(v: BoardView, kind: u8, captures_only: bool, m: Move) -> bool {
    piece_gen(v, kind, m) && (captures_only ==> capture_shape(v, m))
}

/// Appends the moves of every piece of the given kind of the side to
/// move, by rising square of origin and of destination.
pub(crate) fn gen_piece_moves(board: &Board, kind: u8, captures_only: bool, moves: &mut Vec<Move>)
    requires
        board.wf(),
        1 <= kind <= 5,
    ensures
        grows(old(moves)@, final(moves)@),
        lists(
            tail(old(moves)@, final(moves)@),
            |m: Move| piece_listed(board@, kind, captures_only, m),
        ),
        tail(old(moves)@, final(moves)@) == piece_moves_upto(board@, kind, captures_only, 64),
{
    let color = board.side;
    let occupied = board.all_occupancy();
    let own = board.occupancy[color as usize];
    let their = board.occupancy[1 - color as usize];
    let mask: u64 = if captures_only {
        their
    } else {
        !own
    };
    let pieces: u64 = board.pieces[color as usize][kind as usize];
    let mut rest: u64 = pieces;
    let ghost o = moves@;
    let ghost v = board@;
    let ghost mut done: nat = 0;
    while rest != 0
        invariant
            board.wf(),
            1 <= kind <= 5,
            v == board@,
            color == v.side,
            v.bb(v.side, kind) == pieces,
            occupied == v.all_occupancy(),
            own == v.occupancy[color as int],
            their == v.occupancy[1 - color as int],
            mask == (if captures_only {
                their
            } else {
                !own
            }),
            grows(o, moves@),
            done <= 64,
            forall|t: u8| t < 64 ==> (spec_is_set(rest, t) <==> spec_is_set(pieces, t) && t >= done),
            tail(o, moves@) == piece_moves_upto(v, kind, captures_only, done),
            lists(
                tail(o, moves@),
                |m: Move|
                    piece_listed(v, kind, captures_only, m) && !spec_is_set(rest, m.spec_from()),
            ),
        decreases count_below(rest, 64),
    {
        let ghost before = rest;
        let ghost mid = moves@;
        let from = pop_lsb(&mut rest);
        let attacks = attacks_of(kind, from, occupied);
        let targets = attacks & mask;
        push_targets(moves, from, targets);
        proof {
            broadcast use group_bit_lemmas;

            lemma_count_clear(before, from, 64);
            let p = |m: Move|
                piece_listed(v, kind, captures_only, m) && !spec_is_set(before, m.spec_from());
            let q = |m: Move|
                plain(m) && m.spec_from() == from && spec_is_set(targets, m.spec_to());
            let r = |m: Move|
                piece_listed(v, kind, captures_only, m) && !spec_is_set(rest, m.spec_from());
            assert forall|m: Move| #[trigger] r(m) <==> (p(m) || q(m)) by {
                lemma_move_ranges(m);
                lemma_sides_apart(v, m.spec_to());
            }
            lemma_rounds(o, mid, moves@, p, q, r);
            lemma_targets_reach(v, kind, from, captures_only, targets, 64);
            lemma_piece_moves_skip(v, kind, captures_only, done, from as nat);
            lemma_tail_steps(
                o,
                mid,
                moves@,
                piece_moves_upto(v, kind, captures_only, from as nat),
                reach_upto(v, kind, from, captures_only, 64),
            );
            done = (from + 1) as nat;
        }
    }
    proof {
        broadcast use group_bit_lemmas;

        lemma_lists_same(
            tail(o, moves@),
            |m: Move| piece_listed(v, kind, captures_only, m) && !spec_is_set(rest, m.spec_from()),
            |m: Move| piece_listed(v, kind, captures_only, m),
        );
        lemma_piece_moves_skip(v, kind, captures_only, done, 64);
    }
}

/// Whether the side to move may castle along the given squares.
pub(crate) fn can_castle(
    board: &Board,
    right: u8,
    from: u8,
    pass: u8,
    to: u8,
    rook: u8,
    extra: u8,
) -> (r: bool)
    requires
        board.side <= 1,
        from < 64,
        pass < 64,
        to < 64,
        rook < 64,
        extra < 64,
    ensures
        r == castle_path(board@, right, from, pass, to, rook, extra),
{
    let color = board.side as usize;
    let enemy = 1 - board.side;
    let occupied = board.all_occupancy();
    board.castling & right != 0 && is_set(board.pieces[color][5], from) && is_set(
        board.pieces[color][3],
        rook,
    ) && !is_set(occupied, pass) && !is_set(occupied, to) && !is_set(occupied, extra)
        && !is_square_attacked(board, from, enemy) && !is_square_attacked(board, pass, enemy)
        && !is_square_attacked(board, to, enemy)
}

/// Appends the castling moves of the side to move: the short one, then
/// the long one.
pub(crate) fn gen_castles(board: &Board, moves: &mut Vec<Move>)
    requires
        board.side <= 1,
    ensures
        grows(old(moves)@, final(moves)@),
        lists(tail(old(moves)@, final(moves)@), |m: Move| castle_rule(board@, m)),
        tail(old(moves)@, final(moves)@) == castle_seq(board@),
{
    let ghost o = moves@;
    let ghost v = board@;
    let ghost target = |m: Move| castle_rule(v, m);
    let king: u8 = if board.side == WHITE {
        4
    } else {
        60
    };
    let short = if board.side == WHITE {
        can_castle(board, CASTLE_WK, 4, 5, 6, 7, 6)
    } else {
        can_castle(board, CASTLE_BK, 60, 61, 62, 63, 62)
    };
    let long = if board.side == WHITE {
        can_castle(board, CASTLE_WQ, 4, 3, 2, 0, 1)
    } else {
        can_castle(board, CASTLE_BQ, 60, 59, 58, 56, 57)
    };
    let ghost mut acc: spec_fn(Move) -> bool = |m: Move| false;
    let ghost mut line: Seq<Move> = Seq::<Move>::empty();
    proof {
        assert(tail(o, o) =~= Seq::<Move>::empty());
    }
    if short {
        let ghost s0 = moves@;
        push_flagged(moves, king, king + 2, 1);
        proof {
            let g = |m: Move| is_move(m, king, (king + 2) as u8, 1, 1);
            let prev = acc;
            let r = |m: Move| prev(m) || g(m);
            lemma_rounds(o, s0, moves@, prev, g, r);
            lemma_tail_steps(
                o,
                s0,
                moves@,
                line,
                seq![Move::spec_with_flags(king, (king + 2) as u8, 1)],
            );
            acc = r;
            line = line + seq![Move::spec_with_flags(king, (king + 2) as u8, 1)];
        }
    }
    if long {
        let ghost s1 = moves@;
        push_flagged(moves, king, king - 2, 1);
        proof {
            let g = |m: Move| is_move(m, king, (king - 2) as u8, 1, 1);
            let prev = acc;
            let r = |m: Move| prev(m) || g(m);
            lemma_rounds(o, s1, moves@, prev, g, r);
            lemma_tail_steps(
                o,
                s1,
                moves@,
                line,
                seq![Move::spec_with_flags(king, (king - 2) as u8, 1)],
            );
            acc = r;
            line = line + seq![Move::spec_with_flags(king, (king - 2) as u8, 1)];
        }
    }
    proof {
        assert forall|m: Move| #[trigger] target(m) <==> acc(m) by {
            lemma_move_ranges(m);
        }
        lemma_lists_same(tail(o, moves@), acc, target);
    }
}

/// Appends every pseudo-legal move of the side to move, each once: pawn
/// moves with promotions and en-passant captures, the moves of knights,
/// bishops, rooks, queens and kings, and castling, in that order.
pub fn generate_moves(board: &Board, moves: &mut Vec<Move>)
    requires
        board.wf(),
    ensures
        grows(old(moves)@, final(moves)@),
        lists(tail(old(moves)@, final(moves)@), |m: Move| pseudo_legal(board@, m)),
        tail(old(moves)@, final(moves)@) == pseudo_seq(board@),
{
    let ghost o = moves@;
    let ghost v = board@;
    gen_pawn_moves(board, false, moves);
    let ghost s1 = moves@;
    let ghost a1 = |m: Move| pawn_listed(v, false, m);
    let ghost l1 = pawn_moves_upto(v, false, 64);
    gen_piece_moves(board, KNIGHT, false, moves);
    let ghost s2 = moves@;
    let ghost a2 = |m: Move| a1(m) || piece_listed(v, KNIGHT, false, m);
    let ghost l2 = l1 + piece_moves_upto(v, KNIGHT, false, 64);
    proof {
        assert forall|m: Move| !(#[trigger] a1(m) && piece_listed(v, KNIGHT, false, m)) by {
            lemma_move_ranges(m);
            lemma_kinds_apart(v, m.spec_from());
        }
        lemma_rounds(o, s1, s2, a1, |m: Move| piece_listed(v, KNIGHT, false, m), a2);
        lemma_tail_steps(o, s1, s2, l1, piece_moves_upto(v, KNIGHT, false, 64));
    }
    gen_piece_moves(board, BISHOP, false, moves);
    let ghost s3 = moves@;
    let ghost a3 = |m: Move| a2(m) || piece_listed(v, BISHOP, false, m);
    let ghost l3 = l2 + piece_moves_upto(v, BISHOP, false, 64);
    proof {
        assert forall|m: Move| !(#[trigger] a2(m) && piece_listed(v, BISHOP, false, m)) by {
            lemma_move_ranges(m);
            lemma_kinds_apart(v, m.spec_from());
        }
        lemma_rounds(o, s2, s3, a2, |m: Move| piece_listed(v, BISHOP, false, m), a3);
        lemma_tail_steps(o, s2, s3, l2, piece_moves_upto(v, BISHOP, false, 64));
    }
    gen_piece_moves(board, ROOK, false, moves);
    let ghost s4 = moves@;
    let ghost a4 = |m: Move| a3(m) || piece_listed(v, ROOK, false, m);
    let ghost l4 = l3 + piece_moves_upto(v, ROOK, false, 64);
    proof {
        assert forall|m: Move| !(#[trigger] a3(m) && piece_listed(v, ROOK, false, m)) by {
            lemma_move_ranges(m);
            lemma_kinds_apart(v, m.spec_from());
        }
        lemma_rounds(o, s3, s4, a3, |m: Move| piece_listed(v, ROOK, false, m), a4);
        lemma_tail_steps(o, s3, s4, l3, piece_moves_upto(v, ROOK, false, 64));
    }
    gen_piece_moves(board, QUEEN, false, moves);
    let ghost s5 = moves@;
    let ghost a5 = |m: Move| a4(m) || piece_listed(v, QUEEN, false, m);
    let ghost l5 = l4 + piece_moves_upto(v, QUEEN, false, 64);
    proof {
        assert forall|m: Move| !(#[trigger] a4(m) && piece_listed(v, QUEEN, false, m)) by {
            lemma_move_ranges(m);
            lemma_kinds_apart(v, m.spec_from());
        }
        lemma_rounds(o, s4, s5, a4, |m: Move| piece_listed(v, QUEEN, false, m), a5);
        lemma_tail_steps(o, s4, s5, l4, piece_moves_upto(v, QUEEN, false, 64));
    }
    gen_piece_moves(board, KING, false, moves);
    let ghost s6 = moves@;
    let ghost a6 = |m: Move| a5(m) || piece_listed(v, KING, false, m);
    let ghost l6 = l5 + piece_moves_upto(v, KING, false, 64);
    proof {
        assert forall|m: Move| !(#[trigger] a5(m) && piece_listed(v, KING, false, m)) by {
            lemma_move_ranges(m);
            lemma_kinds_apart(v, m.spec_from());
        }
        lemma_rounds(o, s5, s6, a5, |m: Move| piece_listed(v, KING, false, m), a6);
        lemma_tail_steps(o, s5, s6, l5, piece_moves_upto(v, KING, false, 64));
    }
    gen_castles(board, moves);
    let ghost s7 = moves@;
    let ghost a7 = |m: Move| a6(m) || castle_rule(v, m);
    proof {
        assert forall|m: Move| !(#[trigger] a6(m) && castle_rule(v, m)) by {
            lemma_move_ranges(m);
        }
        lemma_rounds(o, s6, s7, a6, |m: Move| castle_rule(v, m), a7);
        lemma_tail_steps(o, s6, s7, l6, castle_seq(v));
        reveal(pseudo_legal);
        lemma_lists_same(tail(o, s7), a7, |m: Move| pseudo_legal(v, m));
    }
}

/// Appends every pseudo-legal capture of the side to move, each once:
/// moves onto a square held by the other side and en-passant captures;
/// of the capturing promotions only the one to a queen. The order is that
/// of `generate_moves`.
pub fn generate_captures(board: &Board, moves: &mut Vec<Move>)
    requires
        board.wf(),
    ensures
        grows(old(moves)@, final(moves)@),
        lists(tail(old(moves)@, final(moves)@), |m: Move| pseudo_capture(board@, m)),
        tail(old(moves)@, final(moves)@) == capture_moves_seq(board@),
{
    let ghost o = moves@;
    let ghost v = board@;
    gen_pawn_moves(board, true, moves);
    let ghost s1 = moves@;
    let ghost a1 = |m: Move| pawn_listed(v, true, m);
    let ghost l1 = pawn_moves_upto(v, true, 64);
    gen_piece_moves(board, KNIGHT, true, moves);
    let ghost s2 = moves@;
    let ghost a2 = |m: Move| a1(m) || piece_listed(v, KNIGHT, true, m);
    let ghost l2 = l1 + piece_moves_upto(v, KNIGHT, true, 64);
    proof {
        assert forall|m: Move| !(#[trigger] a1(m) && piece_listed(v, KNIGHT, true, m)) by {
            lemma_move_ranges(m);
            lemma_kinds_apart(v, m.spec_from());
        }
        lemma_rounds(o, s1, s2, a1, |m: Move| piece_listed(v, KNIGHT, true, m), a2);
        lemma_tail_steps(o, s1, s2, l1, piece_moves_upto(v, KNIGHT, true, 64));
    }
    gen_piece_moves(board, BISHOP, true, moves);
    let ghost s3 = moves@;
    let ghost a3 = |m: Move| a2(m) || piece_listed(v, BISHOP, true, m);
    let ghost l3 = l2 + piece_moves_upto(v, BISHOP, true, 64);
    proof {
        assert forall|m: Move| !(#[trigger] a2(m) && piece_listed(v, BISHOP, true, m)) by {
            lemma_move_ranges(m);
            lemma_kinds_apart(v, m.spec_from());
        }
        lemma_rounds(o, s2, s3, a2, |m: Move| piece_listed(v, BISHOP, true, m), a3);
        lemma_tail_steps(o, s2, s3, l2, piece_moves_upto(v, BISHOP, true, 64));
    }
    gen_piece_moves(board, ROOK, true, moves);
    let ghost s4 = moves@;
    let ghost a4 = |m: Move| a3(m) || piece_listed(v, ROOK, true, m);
    let ghost l4 = l3 + piece_moves_upto(v, ROOK, true, 64);
    proof {
        assert forall|m: Move| !(#[trigger] a3(m) && piece_listed(v, ROOK, true, m)) by {
            lemma_move_ranges(m);
            lemma_kinds_apart(v, m.spec_from());
        }
        lemma_rounds(o, s3, s4, a3, |m: Move| piece_listed(v, ROOK, true, m), a4);
        lemma_tail_steps(o, s3, s4, l3, piece_moves_upto(v, ROOK, true, 64));
    }
    gen_piece_moves(board, QUEEN, true, moves);
    let ghost s5 = moves@;
    let ghost a5 = |m: Move| a4(m) || piece_listed(v, QUEEN, true, m);
    let ghost l5 = l4 + piece_moves_upto(v, QUEEN, true, 64);
    proof {
        assert forall|m: Move| !(#[trigger] a4(m) && piece_listed(v, QUEEN, true, m)) by {
            lemma_move_ranges(m);
            lemma_kinds_apart(v, m.spec_from());
        }
        lemma_rounds(o, s4, s5, a4, |m: Move| piece_listed(v, QUEEN, true, m), a5);
        lemma_tail_steps(o, s4, s5, l4, piece_moves_upto(v, QUEEN, true, 64));
    }
    gen_piece_moves(board, KING, true, moves);
    let ghost s6 = moves@;
    let ghost a6 = |m: Move| a5(m) || piece_listed(v, KING, true, m);
    proof {
        assert forall|m: Move| !(#[trigger] a5(m) && piece_listed(v, KING, true, m)) by {
            lemma_move_ranges(m);
            lemma_kinds_apart(v, m.spec_from());
        }
        lemma_rounds(o, s5, s6, a5, |m: Move| piece_listed(v, KING, true, m), a6);
        lemma_tail_steps(o, s5, s6, l5, piece_moves_upto(v, KING, true, 64));
        reveal(pseudo_legal);
        assert forall|m: Move| #[trigger] pseudo_capture(v, m) <==> a6(m) by {
            lemma_move_ranges(m);
            lemma_sides_apart(v, m.spec_to());
            broadcast use group_bit_lemmas;

        }
        lemma_lists_same(tail(o, s6), a6, |m: Move| pseudo_capture(v, m));
    }
}

/// Keeps of `candidates` the moves that do not leave the mover's king
/// attacked, in their order. Each is made, tested and taken back.
pub fn keep_safe(board: &mut Board, candidates: &Vec<Move>) -> (kept: Vec<Move>)
    requires
        old(board).wf(),
        candidates@.no_duplicates(),
        forall|i: int| 0 <= i < candidates@.len() ==> playable(old(board)@, #[trigger] candidates@[i]),
    ensures
        final(board).wf(),
        final(board)@ == old(board)@,
        final(board).keys == old(board).keys,
        kept@.no_duplicates(),
        forall|m: Move|
            #[trigger] kept@.contains(m) <==> candidates@.contains(m) && king_safe_after(
                old(board)@,
                m,
            ),
        kept@ == safe_upto(old(board)@, candidates@, candidates@.len()),
{
    let ghost v = board@;
    let side = board.side;
    let mut kept: Vec<Move> = Vec::new();
    let mut i: usize = 0;
    let ghost all = candidates@;
    while i < candidates.len()
        invariant
            i <= candidates.len(),
            all == candidates@,
            all.no_duplicates(),
            forall|j: int| 0 <= j < all.len() ==> playable(v, #[trigger] all[j]),
            board.wf(),
            board@ == v,
            board.keys == old(board).keys,
            side == v.side,
            kept@ == safe_upto(v, all, i as nat),
            lists(
                kept@,
                |m: Move| all.subrange(0, i as int).contains(m) && king_safe_after(v, m),
            ),
        decreases candidates.len() - i,
    {
        let mov = candidates[i];
        let ghost before = kept@;
        board.make_move(mov);
        let king_sq = lsb(board.pieces[side as usize][5]);
        let safe = if king_sq < 64 {
            !is_square_attacked(board, king_sq, board.side)
        } else {
            false
        };
        assert(safe == king_safe_after(v, mov)) by {
            reveal(king_safe_after);
        }
        board.unmake_move();
        let ghost p = |m: Move| all.subrange(0, i as int).contains(m) && king_safe_after(v, m);
        let ghost r = |m: Move|
            all.subrange(0, i as int + 1).contains(m) && king_safe_after(v, m);
        proof {
            assert forall|m: Move|
                all.subrange(0, i as int + 1).contains(m) <==> (all.subrange(
                    0,
                    i as int,
                ).contains(m) || m == mov) by {
                let b = all.subrange(0, i as int + 1);
                if m == mov {
                    assert(b[i as int] == m);
                }
            }
        }
        if safe {
            kept.push(mov);
            proof {
                lemma_lists_push(before, mov, p, r);
            }
        } else {
            proof {
                lemma_lists_same(before, p, r);
            }
        }
        i += 1;
    }
    proof {
        assert(all.subrange(0, i as int) =~= all);
    }
    kept
}

/// Every legal move of the side to move, each once, in the order of
/// `generate_moves`. The board is left as it was found.
pub fn generate_legal_moves(board: &mut Board) -> (moves: Vec<Move>)
    requires
        old(board).wf(),
    ensures
        final(board).wf(),
        final(board)@ == old(board)@,
        final(board).keys == old(board).keys,
        lists(moves@, |m: Move| legal(old(board)@, m)),
        moves@ == legal_seq(old(board)@),
{
    let ghost v = board@;
    let mut pseudo: Vec<Move> = Vec::new();
    generate_moves(board, &mut pseudo);
    proof {
        assert(tail(Seq::<Move>::empty(), pseudo@) =~= pseudo@);
        assert forall|i: int| 0 <= i < pseudo@.len() implies playable(v, #[trigger] pseudo@[i]) by {
            assert(pseudo@.contains(pseudo@[i]));
            lemma_pseudo_playable(v, pseudo@[i]);
        }
    }
    let kept = keep_safe(board, &pseudo);
    kept
}

/// Every legal capture of the side to move, each once, in the order of
/// `generate_captures`; of the capturing promotions only the one to a
/// queen. The board is left as it was found.
pub fn generate_legal_captures(board: &mut Board) -> (moves: Vec<Move>)
    requires
        old(board).wf(),
    ensures
        final(board).wf(),
        final(board)@ == old(board)@,
        final(board).keys == old(board).keys,
        lists(moves@, |m: Move| legal_capture(old(board)@, m)),
        moves@ == legal_captures_seq(old(board)@),
{
    let ghost v = board@;
    let mut pseudo: Vec<Move> = Vec::new();
    generate_captures(board, &mut pseudo);
    proof {
        assert(tail(Seq::<Move>::empty(), pseudo@) =~= pseudo@);
        assert forall|i: int| 0 <= i < pseudo@.len() implies playable(v, #[trigger] pseudo@[i]) by {
            assert(pseudo@.contains(pseudo@[i]));
            lemma_pseudo_playable(v, pseudo@[i]);
        }
    }
    let kept = keep_safe(board, &pseudo);
    kept
}

} // verus!
