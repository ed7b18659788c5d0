//! Generation of pawn moves.

use crate::attacks::rank_i;
use crate::bits::{count_below, group_bit_lemmas, lemma_count_clear, lemma_file_rank};
use crate::board::Board;
use crate::listing::{
    grows, lemma_lists_same, lemma_round_push, lemma_rounds, lemma_tail_concat, lists, tail,
};
use crate::position::{en_passant_victim, BoardView, PAWN, WHITE};
use crate::rules::{capture_shape, forward, pawn_gen, pawn_rule, plain, start_rank};
use crate::sequences::{arrival_seq, capture_seq, lemma_pawn_moves_skip, pawn_moves_upto, pawn_seq};
use crate::utils::{
    file_of, is_set, lemma_move_ext, lemma_move_pack, lemma_move_ranges, pop_lsb, rank_of,
    spec_is_set, Move,
};
use vstd::prelude::*;

verus! {

/// `m` is the move with the given fields.
pub open spec fn is_move(m: Move, from: u8, to: u8, flags: u8, promotion: u8) -> bool {
    m.spec_from() == from && m.spec_to() == to && m.spec_flags() == flags && m.spec_promotion()
        == promotion
}

/// `m` goes from `from` to `to`; it is a promotion if `last` (to a queen if
/// `queen_only`) and an ordinary move if not.
pub open spec fn arrival(m: Move, from: u8, to: u8, last: bool, queen_only: bool) -> bool {
    &&& m.spec_from() == from
    &&& m.spec_to() == to
    &&& if last {
        m.spec_is_promotion() && (queen_only ==> m.spec_promotion() == 4)
    } else {
        plain(m)
    }
}

/// A move equals a freshly packed ordinary or flagged move exactly if it
/// has its fields.
pub proof fn lemma_is_move(m: Move, from: u8, to: u8)
    requires
        from < 64,
        to < 64,
    ensures
        (m == Move::spec_new(from, to)) <==> is_move(m, from, to, 0, 1),
        (m == Move::spec_with_flags(from, to, 1)) <==> is_move(m, from, to, 1, 1),
        (m == Move::spec_with_flags(from, to, 2)) <==> is_move(m, from, to, 2, 1),
{
    lemma_move_pack(from, to, 1, 1);
    lemma_move_pack(from, to, 1, 2);
    assert(1u16 & 3 == 1 && 2u16 & 3 == 2) by (bit_vector);
    if is_move(m, from, to, 0, 1) {
        lemma_move_ext(m, Move::spec_new(from, to));
    }
    if is_move(m, from, to, 1, 1) {
        lemma_move_ext(m, Move::spec_with_flags(from, to, 1));
    }
    if is_move(m, from, to, 2, 1) {
        lemma_move_ext(m, Move::spec_with_flags(from, to, 2));
    }
}

/// A move equals a freshly packed promotion exactly if it has its fields.
pub proof fn lemma_is_promotion(m: Move, from: u8, to: u8, p: u8)
    requires
        from < 64,
        to < 64,
        1 <= p <= 4,
    ensures
        (m == Move::spec_with_promotion(from, to, p)) <==> is_move(m, from, to, 3, p),
{
    lemma_move_pack(from, to, p, 0);
    if is_move(m, from, to, 3, p) {
        lemma_move_ext(m, Move::spec_with_promotion(from, to, p));
    }
}

/// A list grown by one move lists the rule that holds of that move alone.
pub proof fn lemma_single(o: Seq<Move>, mv: Move, r: spec_fn(Move) -> bool)
    requires
        forall|m: Move| #[trigger] r(m) <==> m == mv,
    ensures
        grows(o, o.push(mv)),
        lists(tail(o, o.push(mv)), r),
        tail(o, o.push(mv)) == seq![mv],
{
    let p = |m: Move| false;
    lemma_round_push(o, o, mv, p, r);
}

/// What was appended in two rounds is the one appended after the other.
pub proof fn lemma_tail_steps(
    old: Seq<Move>,
    mid: Seq<Move>,
    new: Seq<Move>,
    a: Seq<Move>,
    b: Seq<Move>,
)
    requires
        grows(old, mid),
        grows(mid, new),
        tail(old, mid) == a,
        tail(mid, new) == b,
    ensures
        tail(old, new) == a + b,
{
    lemma_tail_concat(old, mid, new);
}

/// Appends the ordinary move from `from` to `to`.
pub(crate) fn push_new(moves: &mut Vec<Move>, from: u8, to: u8)
    requires
        from < 64,
        to < 64,
    ensures
        grows(old(moves)@, final(moves)@),
        lists(tail(old(moves)@, final(moves)@), |m: Move| is_move(m, from, to, 0, 1)),
        tail(old(moves)@, final(moves)@) == seq![Move::spec_new(from, to)],
{
    let mv = Move::new(from, to);
    proof {
        let r = |m: Move| is_move(m, from, to, 0, 1);
        assert forall|m: Move| #[trigger] r(m) <==> m == mv by {
            lemma_is_move(m, from, to);
        }
        lemma_single(moves@, mv, r);
    }
    moves.push(mv);
}

/// Appends the move from `from` to `to` with flag 1 (castle) or 2 (en passant).
pub(crate) fn push_flagged(moves: &mut Vec<Move>, from: u8, to: u8, flags: u8)
    requires
        from < 64,
        to < 64,
        flags == 1 || flags == 2,
    ensures
        grows(old(moves)@, final(moves)@),
        lists(tail(old(moves)@, final(moves)@), |m: Move| is_move(m, from, to, flags, 1)),
        tail(old(moves)@, final(moves)@) == seq![Move::spec_with_flags(from, to, flags as u16)],
{
    let mv = Move::with_flags(from, to, flags as u16);
    proof {
        let r = |m: Move| is_move(m, from, to, flags, 1);
        assert forall|m: Move| #[trigger] r(m) <==> m == mv by {
            lemma_is_move(m, from, to);
        }
        lemma_single(moves@, mv, r);
    }
    moves.push(mv);
}

/// Appends the promotion from `from` to `to` to piece `p`.
pub(crate) fn push_promotion(moves: &mut Vec<Move>, from: u8, to: u8, p: u8)
    requires
        from < 64,
        to < 64,
        1 <= p <= 4,
    ensures
        grows(old(moves)@, final(moves)@),
        lists(tail(old(moves)@, final(moves)@), |m: Move| is_move(m, from, to, 3, p)),
        tail(old(moves)@, final(moves)@) == seq![Move::spec_with_promotion(from, to, p)],
{
    let mv = Move::with_promotion(from, to, p);
    proof {
        let r = |m: Move| is_move(m, from, to, 3, p);
        assert forall|m: Move| #[trigger] r(m) <==> m == mv by {
            lemma_is_promotion(m, from, to, p);
        }
        lemma_single(moves@, mv, r);
    }
    moves.push(mv);
}

/// Appends the moves of a pawn that arrives on `to`: the four promotions
/// (or only the one to a queen) on the last rank, one ordinary move
/// elsewhere.
pub(crate) fn push_pawn(moves: &mut Vec<Move>, from: u8, to: u8, last: bool, queen_only: bool)
    requires
        from < 64,
        to < 64,
    ensures
        grows(old(moves)@, final(moves)@),
        lists(
            tail(old(moves)@, final(moves)@),
            |m: Move| arrival(m, from, to, last, queen_only),
        ),
        tail(old(moves)@, final(moves)@) == arrival_seq(from, to, last, queen_only),
{
    let ghost o = moves@;
    let ghost target = |m: Move| arrival(m, from, to, last, queen_only);
    if last {
        if !queen_only {
            let ghost g1 = |m: Move| is_move(m, from, to, 3, 1);
            let ghost g2 = |m: Move| is_move(m, from, to, 3, 2);
            let ghost g3 = |m: Move| is_move(m, from, to, 3, 3);
            let ghost g4 = |m: Move| is_move(m, from, to, 3, 4);
            push_promotion(moves, from, to, 1);
            let ghost s1 = moves@;
            push_promotion(moves, from, to, 2);
            let ghost s2 = moves@;
            let ghost a2 = |m: Move| g1(m) || g2(m);
            proof {
                lemma_rounds(o, s1, s2, g1, g2, a2);
                lemma_tail_steps(o, s1, s2, tail(o, s1), tail(s1, s2));
            }
            push_promotion(moves, from, to, 3);
            let ghost s3 = moves@;
            let ghost a3 = |m: Move| a2(m) || g3(m);
            proof {
                lemma_rounds(o, s2, s3, a2, g3, a3);
                lemma_tail_steps(o, s2, s3, tail(o, s2), tail(s2, s3));
            }
            push_promotion(moves, from, to, 4);
            let ghost s4 = moves@;
            let ghost a4 = |m: Move| a3(m) || g4(m);
            proof {
                lemma_rounds(o, s3, s4, a3, g4, a4);
                lemma_tail_steps(o, s3, s4, tail(o, s3), tail(s3, s4));
                assert forall|m: Move| #[trigger] target(m) <==> a4(m) by {
                    lemma_move_ranges(m);
                }
                lemma_lists_same(tail(o, s4), a4, target);
            }
        } else {
            push_promotion(moves, from, to, 4);
            proof {
                lemma_lists_same(tail(o, moves@), |m: Move| is_move(m, from, to, 3, 4), target);
            }
        }
    } else {
        push_new(moves, from, to);
        proof {
            lemma_lists_same(tail(o, moves@), |m: Move| is_move(m, from, to, 0, 1), target);
        }
    }
}

/// `m` is a capture by the pawn on `from` towards `to`: of what stands
/// there, or en passant.
pub open spec fn capture_group(
    v: BoardView,
    m: Move,
    from: u8,
    to: u8,
    last: bool,
    queen_only: bool,
) -> bool {
    let enemy = (1 - v.side) as u8;
    if spec_is_set(v.occupancy[enemy as int], to) {
        arrival(m, from, to, last, queen_only)
    } else {
        &&& v.en_passant == Some(to)
        &&& !spec_is_set(v.all_occupancy(), to)
        &&& spec_is_set(v.bb(enemy, PAWN), en_passant_victim(from, to))
        &&& is_move(m, from, to, 2, 1)
    }
}

/// Appends the captures of the pawn on `from` towards the square `to`.
pub(crate) fn gen_pawn_capture(
    board: &Board,
    from: u8,
    to: u8,
    last: bool,
    queen_only: bool,
    moves: &mut Vec<Move>,
)
    requires
        board.side <= 1,
        from < 64,
        to < 64,
    ensures
        grows(old(moves)@, final(moves)@),
        lists(
            tail(old(moves)@, final(moves)@),
            |m: Move| capture_group(board@, m, from, to, last, queen_only),
        ),
        tail(old(moves)@, final(moves)@) == capture_seq(board@, from, to, last, queen_only),
{
    let enemy = 1 - board.side;
    let their = board.occupancy[enemy as usize];
    let ghost o = moves@;
    let ghost v = board@;
    let ghost target = |m: Move| capture_group(v, m, from, to, last, queen_only);
    if is_set(their, to) {
        push_pawn(moves, from, to, last, queen_only);
        proof {
            lemma_lists_same(
                tail(o, moves@),
                |m: Move| arrival(m, from, to, last, queen_only),
                target,
            );
        }
    } else {
        let is_target = match board.en_passant {
            Some(ep) => ep == to,
            None => false,
        };
        let victim: u8 = rank_of(from) * 8 + file_of(to);
        if is_target && !is_set(board.all_occupancy(), to) && is_set(
            board.pieces[enemy as usize][0],
            victim,
        ) {
            push_flagged(moves, from, to, 2);
            proof {
                lemma_lists_same(tail(o, moves@), |m: Move| is_move(m, from, to, 2, 1), target);
            }
        }
    }
}

/// `m` is a move of the pawn on `from`; with `captures_only`, a capture.
pub open spec fn pawn_from(v: BoardView, from: u8, captures_only: bool, m: Move) -> bool {
    m.spec_from() == from && pawn_rule(v, m) && (captures_only ==> capture_shape(v, m))
}

/// Squares and conditions of the moves of one pawn, as the generator sees
/// them, give the rule for that pawn.
pub proof fn lemma_pawn_groups(v: BoardView, from: u8, captures_only: bool, m: Move)
    requires
        v.side <= 1,
        from < 64,
        v.occupancy.len() == 2,
    ensures
        pawn_from(v, from, captures_only, m) <==> ({
            let white = v.side == WHITE;
            let rank = rank_i(from);
            let file = from as int % 8;
            let can_advance = if white {
                rank < 7
            } else {
                rank > 0
            };
            let one = (from as int + 8 * forward(v.side)) as u8;
            let two = (from as int + 16 * forward(v.side)) as u8;
            let left = (from as int + 8 * forward(v.side) - 1) as u8;
            let right = (from as int + 8 * forward(v.side) + 1) as u8;
            let last = if white {
                rank == 6
            } else {
                rank == 1
            };
            let start = rank == start_rank(v.side);
            let occ = v.all_occupancy();
            can_advance && ({
                ||| (!captures_only && !spec_is_set(occ, one) && arrival(m, from, one, last, false))
                ||| (!captures_only && !spec_is_set(occ, one) && start && !spec_is_set(occ, two)
                    && is_move(m, from, two, 0, 1))
                ||| (file > 0 && capture_group(v, m, from, left, last, captures_only))
                ||| (file < 7 && capture_group(v, m, from, right, last, captures_only))
            })
        }),
{
    broadcast use group_bit_lemmas;

    lemma_move_ranges(m);
}

/// Appends the moves of the pawn on `from`; with `captures_only`, only its
/// captures, and of the promotions only those to a queen.
pub(crate) fn gen_pawn(board: &Board, from: u8, captures_only: bool, moves: &mut Vec<Move>)
    requires
        board.side <= 1,
        from < 64,
    ensures
        grows(old(moves)@, final(moves)@),
        lists(
            tail(old(moves)@, final(moves)@),
            |m: Move| pawn_from(board@, from, captures_only, m),
        ),
        tail(old(moves)@, final(moves)@) == pawn_seq(board@, from, captures_only),
{
    let color = board.side;
    let white = color == WHITE;
    let occupied = board.all_occupancy();
    let rank = rank_of(from);
    let file = file_of(from);
    let ghost o = moves@;
    let ghost v = board@;
    let ghost target = |m: Move| pawn_from(v, from, captures_only, m);
    let ghost mut acc: spec_fn(Move) -> bool = |m: Move| false;
    let ghost mut line: Seq<Move> = Seq::<Move>::empty();
    proof {
        lemma_file_rank(from);
        assert(tail(o, o) =~= Seq::<Move>::empty());
    }
    let can_advance = if white {
        rank < 7
    } else {
        rank > 0
    };
    if can_advance {
        let one: u8 = if white {
            from + 8
        } else {
            from - 8
        };
        let last = if white {
            rank == 6
        } else {
            rank == 1
        };
        if !captures_only && !is_set(occupied, one) {
            let ghost s0 = moves@;
            push_pawn(moves, from, one, last, false);
            proof {
                let g = |m: Move| arrival(m, from, one, last, false);
                let prev = acc;
                let r = |m: Move| prev(m) || g(m);
                lemma_rounds(o, s0, moves@, prev, g, r);
                lemma_tail_steps(o, s0, moves@, line, arrival_seq(from, one, last, false));
                acc = r;
                line = line + arrival_seq(from, one, last, false);
            }
            let start = if white {
                rank == 1
            } else {
                rank == 6
            };
            if start {
                let two: u8 = if white {
                    from + 16
                } else {
                    from - 16
                };
                if !is_set(occupied, two) {
                    let ghost s1 = moves@;
                    push_new(moves, from, two);
                    proof {
                        let g = |m: Move| is_move(m, from, two, 0, 1);
                        let prev = acc;
                        let r = |m: Move| prev(m) || g(m);
                        lemma_rounds(o, s1, moves@, prev, g, r);
                        lemma_tail_steps(o, s1, moves@, line, seq![Move::spec_new(from, two)]);
                        acc = r;
                        line = line + seq![Move::spec_new(from, two)];
                    }
                }
            }
        }
        if file > 0 {
            let to: u8 = one - 1;
            let ghost s2 = moves@;
            gen_pawn_capture(board, from, to, last, captures_only, moves);
            proof {
                let g = |m: Move| capture_group(v, m, from, to, last, captures_only);
                let prev = acc;
                let r = |m: Move| prev(m) || g(m);
                lemma_rounds(o, s2, moves@, prev, g, r);
                lemma_tail_steps(o, s2, moves@, line, capture_seq(v, from, to, last, captures_only));
                acc = r;
                line = line + capture_seq(v, from, to, last, captures_only);
            }
        }
        if file < 7 {
            let to: u8 = one + 1;
            let ghost s3 = moves@;
            gen_pawn_capture(board, from, to, last, captures_only, moves);
            proof {
                let g = |m: Move| capture_group(v, m, from, to, last, captures_only);
                let prev = acc;
                let r = |m: Move| prev(m) || g(m);
                lemma_rounds(o, s3, moves@, prev, g, r);
                lemma_tail_steps(o, s3, moves@, line, capture_seq(v, from, to, last, captures_only));
                acc = r;
                line = line + capture_seq(v, from, to, last, captures_only);
            }
        }
    }
    proof {
        assert forall|m: Move| #[trigger] target(m) <==> acc(m) by {
            lemma_pawn_groups(v, from, captures_only, m);
        }
        lemma_lists_same(tail(o, moves@), acc, target);
    }
}

/// `m` is a move of a pawn of the side to move; with `captures_only`, a
/// capture.
pub open spec fn pawn_listed(v: BoardView, captures_only: bool, m: Move) -> bool {
    pawn_gen(v, m) && (captures_only ==> capture_shape(v, m))
}

/// Appends the moves of every pawn of the side to move, by rising square.
pub(crate) fn gen_pawn_moves(board: &Board, captures_only: bool, moves: &mut Vec<Move>)
    requires
        board.side <= 1,
    ensures
        grows(old(moves)@, final(moves)@),
        lists(
            tail(old(moves)@, final(moves)@),
            |m: Move| pawn_listed(board@, captures_only, m),
        ),
        tail(old(moves)@, final(moves)@) == pawn_moves_upto(board@, captures_only, 64),
{
    let pawns: u64 = board.pieces[board.side as usize][0];
    let mut rest: u64 = pawns;
    let ghost o = moves@;
    let ghost v = board@;
    let ghost mut done: nat = 0;
    while rest != 0
        invariant
            board.side <= 1,
            v == board@,
            v.bb(v.side, PAWN) == pawns,
            grows(o, moves@),
            done <= 64,
            forall|t: u8| t < 64 ==> (spec_is_set(rest, t) <==> spec_is_set(pawns, t) && t >= done),
            tail(o, moves@) == pawn_moves_upto(v, captures_only, done),
            lists(
                tail(o, moves@),
                |m: Move| pawn_listed(v, captures_only, m) && !spec_is_set(rest, m.spec_from()),
            ),
        decreases count_below(rest, 64),
    {
        let ghost before = rest;
        let ghost mid = moves@;
        let from = pop_lsb(&mut rest);
        gen_pawn(board, from, captures_only, moves);
        proof {
            broadcast use group_bit_lemmas;

            lemma_count_clear(before, from, 64);
            let p = |m: Move| pawn_listed(v, captures_only, m) && !spec_is_set(before, m.spec_from());
            let q = |m: Move| pawn_from(v, from, captures_only, m);
            let r = |m: Move| pawn_listed(v, captures_only, m) && !spec_is_set(rest, m.spec_from());
            assert forall|m: Move| #[trigger] r(m) <==> (p(m) || q(m)) by {
                lemma_move_ranges(m);
            }
            lemma_rounds(o, mid, moves@, p, q, r);
            lemma_pawn_moves_skip(v, captures_only, done, from as nat);
            lemma_tail_steps(
                o,
                mid,
                moves@,
                pawn_moves_upto(v, captures_only, from as nat),
                pawn_seq(v, from, captures_only),
            );
            done = (from + 1) as nat;
        }
    }
    proof {
        broadcast use group_bit_lemmas;

        lemma_lists_same(
            tail(o, moves@),
            |m: Move| pawn_listed(v, captures_only, m) && !spec_is_set(rest, m.spec_from()),
            |m: Move| pawn_listed(v, captures_only, m),
        );
        lemma_pawn_moves_skip(v, captures_only, done, 64);
    }
}

} // verus!
