//! The order in which moves are generated: for each kind of move, the
//! sequence that the generator appends.

use crate::attacks::{piece_hits, rank_i};
use crate::position::{
    en_passant_victim, BoardView, BISHOP, CASTLE_BK, CASTLE_BQ, CASTLE_WK, CASTLE_WQ, KING, KNIGHT,
    PAWN, QUEEN, ROOK, WHITE,
};
use crate::rules::{castle_path, forward, king_safe_after, start_rank};
use crate::utils::{spec_is_set, Move};
use vstd::prelude::*;

verus! {

/// The ordinary moves from `from` to the squares of `bb` below `n`, by
/// rising square.
pub open spec fn targets_upto(from: u8, bb: u64, n: nat) -> Seq<Move>
    decreases n,
{
    if n == 0 {
        Seq::<Move>::empty()
    } else {
        targets_upto(from, bb, (n - 1) as nat) + if spec_is_set(bb, (n - 1) as u8) {
            seq![Move::spec_new(from, (n - 1) as u8)]
        } else {
            Seq::<Move>::empty()
        }
    }
}

/// Whether a piece of the side to move may land on `t`: with
/// `captures_only` on a square of the other side, else on any square that
/// its own side does not hold.
pub open spec fn may_land(v: BoardView, captures_only: bool, t: u8) -> bool {
    if captures_only {
        spec_is_set(v.occupancy[1 - v.side as int], t)
    } else {
        !spec_is_set(v.occupancy[v.side as int], t)
    }
}

/// The moves of a piece of the given kind on `from` to squares below `n`,
/// by rising square.
pub open spec fn reach_upto(v: BoardView, kind: u8, from: u8, captures_only: bool, n: nat) -> Seq<
    Move,
>
    decreases n,
{
    if n == 0 {
        Seq::<Move>::empty()
    } else {
        reach_upto(v, kind, from, captures_only, (n - 1) as nat) + if piece_hits(
            kind,
            from,
            (n - 1) as u8,
            v.all_occupancy(),
        ) && may_land(v, captures_only, (n - 1) as u8) {
            seq![Move::spec_new(from, (n - 1) as u8)]
        } else {
            Seq::<Move>::empty()
        }
    }
}

/// The moves of the pieces of the given kind on squares below `n`, by
/// rising square of origin and of destination.
pub open spec fn piece_moves_upto(v: BoardView, kind: u8, captures_only: bool, n: nat) -> Seq<Move>
    decreases n,
{
    if n == 0 {
        Seq::<Move>::empty()
    } else {
        piece_moves_upto(v, kind, captures_only, (n - 1) as nat) + if spec_is_set(
            v.bb(v.side, kind),
            (n - 1) as u8,
        ) {
            reach_upto(v, kind, (n - 1) as u8, captures_only, 64)
        } else {
            Seq::<Move>::empty()
        }
    }
}

/// The moves of a pawn that arrives on `to`: on the last rank the
/// promotions to knight, bishop, rook and queen in that order (or only the
/// one to a queen), elsewhere the ordinary move.
pub open spec fn arrival_seq(from: u8, to: u8, last: bool, queen_only: bool) -> Seq<Move> {
    if last {
        if queen_only {
            seq![Move::spec_with_promotion(from, to, 4)]
        } else {
            seq![
                Move::spec_with_promotion(from, to, 1),
                Move::spec_with_promotion(from, to, 2),
                Move::spec_with_promotion(from, to, 3),
                Move::spec_with_promotion(from, to, 4),
            ]
        }
    } else {
        seq![Move::spec_new(from, to)]
    }
}

/// The captures of the pawn on `from` towards `to`.
pub open spec fn capture_seq(v: BoardView, from: u8, to: u8, last: bool, queen_only: bool) -> Seq<
    Move,
> {
    let enemy = (1 - v.side) as u8;
    if spec_is_set(v.occupancy[enemy as int], to) {
        arrival_seq(from, to, last, queen_only)
    } else if v.en_passant == Some(to) && !spec_is_set(v.all_occupancy(), to) && spec_is_set(
        v.bb(enemy, PAWN),
        en_passant_victim(from, to),
    ) {
        seq![Move::spec_with_flags(from, to, 2)]
    } else {
        Seq::<Move>::empty()
    }
}

/// The moves of the pawn on `from`: the advance by one, the advance by
/// two, the capture towards the lower file, the capture towards the
/// higher file.
pub open spec fn pawn_seq(v: BoardView, from: u8, captures_only: bool) -> Seq<Move> {
    let white = v.side == WHITE;
    let rank = rank_i(from);
    let file = from as int % 8;
    let can_advance = if white {
        rank < 7
    } else {
        rank > 0
    };
    let one = (from as int + 8 * forward(v.side)) as u8;
    let two = (from as int + 16 * forward(v.side)) as u8;
    let last = if white {
        rank == 6
    } else {
        rank == 1
    };
    let occ = v.all_occupancy();
    if !can_advance {
        Seq::<Move>::empty()
    } else {
        (if !captures_only && !spec_is_set(occ, one) {
            arrival_seq(from, one, last, false) + if rank == start_rank(v.side) && !spec_is_set(
                occ,
                two,
            ) {
                seq![Move::spec_new(from, two)]
            } else {
                Seq::<Move>::empty()
            }
        } else {
            Seq::<Move>::empty()
        }) + (if file > 0 {
            capture_seq(v, from, (one - 1) as u8, last, captures_only)
        } else {
            Seq::<Move>::empty()
        }) + (if file < 7 {
            capture_seq(v, from, (one + 1) as u8, last, captures_only)
        } else {
            Seq::<Move>::empty()
        })
    }
}

/// The moves of the pawns on squares below `n`, by rising square.
pub open spec fn pawn_moves_upto(v: BoardView, captures_only: bool, n: nat) -> Seq<Move>
    decreases n,
{
    if n == 0 {
        Seq::<Move>::empty()
    } else {
        pawn_moves_upto(v, captures_only, (n - 1) as nat) + if spec_is_set(
            v.bb(v.side, PAWN),
            (n - 1) as u8,
        ) {
            pawn_seq(v, (n - 1) as u8, captures_only)
        } else {
            Seq::<Move>::empty()
        }
    }
}

/// The castling moves: the short one before the long one.
pub open spec fn castle_seq(v: BoardView) -> Seq<Move> {
    let king: u8 = if v.side == WHITE {
        4
    } else {
        60
    };
    let short = if v.side == WHITE {
        castle_path(v, CASTLE_WK, 4, 5, 6, 7, 6)
    } else {
        castle_path(v, CASTLE_BK, 60, 61, 62, 63, 62)
    };
    let long = if v.side == WHITE {
        castle_path(v, CASTLE_WQ, 4, 3, 2, 0, 1)
    } else {
        castle_path(v, CASTLE_BQ, 60, 59, 58, 56, 57)
    };
    (if short {
        seq![Move::spec_with_flags(king, (king + 2) as u8, 1)]
    } else {
        Seq::<Move>::empty()
    }) + (if long {
        seq![Move::spec_with_flags(king, (king - 2) as u8, 1)]
    } else {
        Seq::<Move>::empty()
    })
}

/// The pseudo-legal moves in the order of their generation: pawns,
/// knights, bishops, rooks, queens, kings, castling.
pub open spec fn pseudo_seq(v: BoardView) -> Seq<Move> {
    pawn_moves_upto(v, false, 64) + piece_moves_upto(v, KNIGHT, false, 64) + piece_moves_upto(
        v,
        BISHOP,
        false,
        64,
    ) + piece_moves_upto(v, ROOK, false, 64) + piece_moves_upto(v, QUEEN, false, 64)
        + piece_moves_upto(v, KING, false, 64) + castle_seq(v)
}

/// The pseudo-legal captures in the order of their generation.
pub open spec fn capture_moves_seq(v: BoardView) -> Seq<Move> {
    pawn_moves_upto(v, true, 64) + piece_moves_upto(v, KNIGHT, true, 64) + piece_moves_upto(
        v,
        BISHOP,
        true,
        64,
    ) + piece_moves_upto(v, ROOK, true, 64) + piece_moves_upto(v, QUEEN, true, 64)
        + piece_moves_upto(v, KING, true, 64)
}

/// Of the first `n` moves of a list, those that do not leave the mover's
/// king attacked, in their order.
pub open spec fn safe_upto(v: BoardView, moves: Seq<Move>, n: nat) -> Seq<Move>
    decreases n,
{
    if n == 0 {
        Seq::<Move>::empty()
    } else {
        safe_upto(v, moves, (n - 1) as nat) + if king_safe_after(v, moves[n - 1]) {
            seq![moves[n - 1]]
        } else {
            Seq::<Move>::empty()
        }
    }
}

/// The legal moves in the order of their generation.
pub open spec fn legal_seq(v: BoardView) -> Seq<Move> {
    safe_upto(v, pseudo_seq(v), pseudo_seq(v).len())
}

/// The legal captures in the order of their generation.
pub open spec fn legal_captures_seq(v: BoardView) -> Seq<Move> {
    safe_upto(v, capture_moves_seq(v), capture_moves_seq(v).len())
}

/// Squares without a piece add no ordinary move.
pub proof fn lemma_targets_skip(from: u8, bb: u64, a: nat, b: nat)
    requires
        a <= b <= 64,
        forall|t: u8| a <= t < b ==> !spec_is_set(bb, t),
    ensures
        targets_upto(from, bb, b) == targets_upto(from, bb, a),
    decreases b,
{
    if a < b {
        lemma_targets_skip(from, bb, a, (b - 1) as nat);
    }
}

/// The moves to the squares of a bitboard that holds what a piece
/// attacks and may land on are the moves of the piece.
pub proof fn lemma_targets_reach(v: BoardView, kind: u8, from: u8, captures_only: bool, bb: u64, n: nat)
    requires
        n <= 64,
        forall|t: u8|
            t < 64 ==> (#[trigger] spec_is_set(bb, t) <==> piece_hits(kind, from, t, v.all_occupancy())
                && may_land(v, captures_only, t)),
    ensures
        targets_upto(from, bb, n) == reach_upto(v, kind, from, captures_only, n),
    decreases n,
{
    if n > 0 {
        lemma_targets_reach(v, kind, from, captures_only, bb, (n - 1) as nat);
    }
}

/// Squares without a piece of the kind add no move.
pub proof fn lemma_piece_moves_skip(v: BoardView, kind: u8, captures_only: bool, a: nat, b: nat)
    requires
        a <= b <= 64,
        forall|t: u8| a <= t < b ==> !spec_is_set(v.bb(v.side, kind), t),
    ensures
        piece_moves_upto(v, kind, captures_only, b) == piece_moves_upto(v, kind, captures_only, a),
    decreases b,
{
    if a < b {
        lemma_piece_moves_skip(v, kind, captures_only, a, (b - 1) as nat);
    }
}

/// Squares without a pawn add no move.
pub proof fn lemma_pawn_moves_skip(v: BoardView, captures_only: bool, a: nat, b: nat)
    requires
        a <= b <= 64,
        forall|t: u8| a <= t < b ==> !spec_is_set(v.bb(v.side, PAWN), t),
    ensures
        pawn_moves_upto(v, captures_only, b) == pawn_moves_upto(v, captures_only, a),
    decreases b,
{
    if a < b {
        lemma_pawn_moves_skip(v, captures_only, a, (b - 1) as nat);
    }
}

} // verus!
