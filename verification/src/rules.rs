//! The rules of movement: which moves are pseudo-legal in a position, which
//! of them are captures, and which are legal.

use crate::attacks::{attacked, king_square, pawn_hits, piece_hits, rank_i, step_to};
use crate::position::{
    en_passant_victim, make_spec, BoardView, BISHOP, CASTLE_BK, CASTLE_BQ, CASTLE_WK, CASTLE_WQ,
    KING, KNIGHT, PAWN, QUEEN, ROOK, WHITE,
};
use crate::utils::{spec_is_set, Move};
use vstd::prelude::*;

verus! {

/// An ordinary move: normal flag, no promotion bits.
pub open spec fn plain(m: Move) -> bool {
    m.spec_flags() == 0 && m.spec_promotion() == 1
}

/// Direction in which the pawns of a colour advance.
pub open spec fn forward(color: u8) -> int {
    if color == WHITE {
        1
    } else {
        -1
    }
}

/// Rank on which the pawns of a colour promote.
pub open spec fn last_rank(color: u8) -> int {
    if color == WHITE {
        7
    } else {
        0
    }
}

/// Rank from which the pawns of a colour may advance two squares.
pub open spec fn start_rank(color: u8) -> int {
    if color == WHITE {
        1
    } else {
        6
    }
}

/// A pawn move that arrives on the last rank is a promotion, to any of the
/// four pieces; any other pawn move is ordinary.
pub open spec fn pawn_shape(m: Move, color: u8) -> bool {
    if rank_i(m.spec_to()) == last_rank(color) {
        m.spec_is_promotion()
    } else {
        plain(m)
    }
}

/// The square a pawn of `color` on `from` passes over when it advances two.
pub open spec fn passed_square(from: u8, color: u8) -> u8 {
    (from as int + 8 * forward(color)) as u8
}

/// `m` moves a pawn of the side to move as pawns move: one square forward
/// to an empty square; two squares from the start rank over an empty square
/// to an empty square; diagonally forward to a square held by the other
/// side; or diagonally forward to the empty en-passant square, past a pawn
/// of the other side.
pub open spec fn pawn_rule(v: BoardView, m: Move) -> bool {
    let from = m.spec_from();
    let to = m.spec_to();
    let color = v.side;
    let enemy = (1 - color) as u8;
    let occ = v.all_occupancy();
    let their = v.occupancy[enemy as int];
    ||| (step_to(from, forward(color), 0, to) && !spec_is_set(occ, to) && pawn_shape(m, color))
    ||| (step_to(from, 2 * forward(color), 0, to) && rank_i(from) == start_rank(color)
        && !spec_is_set(occ, passed_square(from, color)) && !spec_is_set(occ, to) && plain(m))
    ||| (pawn_hits(from, color, to) && spec_is_set(their, to) && pawn_shape(m, color))
    ||| (pawn_hits(from, color, to) && v.en_passant == Some(to) && !spec_is_set(occ, to)
        && spec_is_set(v.bb(enemy, PAWN), en_passant_victim(from, to)) && m.spec_is_en_passant()
        && m.spec_promotion() == 1)
}

/// `m` moves a piece of the given kind as that kind moves, to a square not
/// held by its own side.
pub open spec fn piece_rule(v: BoardView, kind: u8, m: Move) -> bool {
    &&& plain(m)
    &&& piece_hits(kind, m.spec_from(), m.spec_to(), v.all_occupancy())
    &&& !spec_is_set(v.occupancy[v.side as int], m.spec_to())
}

/// The side to move may castle with its king going from `from` over `pass`
/// to `to`: it holds the right, the king stands on `from` and a rook of
/// its own on `rook`, the squares `pass`, `to` and `extra` are empty
/// (`extra` is the third square between king and rook on the queen's
/// side and repeats `to` on the king's side), and none of `from`, `pass`
/// and `to` is attacked by the other side.
pub open spec fn castle_path(
    v: BoardView,
    right: u8,
    from: u8,
    pass: u8,
    to: u8,
    rook: u8,
    extra: u8,
) -> bool {
    let color = v.side;
    let enemy = (1 - color) as u8;
    let occ = v.all_occupancy();
    &&& v.castling & right != 0
    &&& spec_is_set(v.bb(color, KING), from)
    &&& spec_is_set(v.bb(color, ROOK), rook)
    &&& !spec_is_set(occ, pass)
    &&& !spec_is_set(occ, to)
    &&& !spec_is_set(occ, extra)
    &&& !attacked(v, from, enemy)
    &&& !attacked(v, pass, enemy)
    &&& !attacked(v, to, enemy)
}

/// `m` is a castling move that the side to move may make.
pub open spec fn castle_rule(v: BoardView, m: Move) -> bool {
    let from = m.spec_from();
    let to = m.spec_to();
    &&& m.spec_is_castle()
    &&& m.spec_promotion() == 1
    &&& if v.side == WHITE {
        ||| (from == 4 && to == 6 && castle_path(v, CASTLE_WK, 4, 5, 6, 7, 6))
        ||| (from == 4 && to == 2 && castle_path(v, CASTLE_WQ, 4, 3, 2, 0, 1))
    } else {
        ||| (from == 60 && to == 62 && castle_path(v, CASTLE_BK, 60, 61, 62, 63, 62))
        ||| (from == 60 && to == 58 && castle_path(v, CASTLE_BQ, 60, 59, 58, 56, 57))
    }
}

/// `m` is a move of a pawn of the side to move.
pub open spec fn pawn_gen(v: BoardView, m: Move) -> bool {
    spec_is_set(v.bb(v.side, PAWN), m.spec_from()) && pawn_rule(v, m)
}

/// `m` is a move of a piece of the given kind of the side to move.
pub open spec fn piece_gen(v: BoardView, kind: u8, m: Move) -> bool {
    spec_is_set(v.bb(v.side, kind), m.spec_from()) && piece_rule(v, kind, m)
}

/// `m` is pseudo-legal: it follows the rules of movement for the side to
/// move, whether or not it leaves that side's king attacked.
#[verifier::opaque]
pub open spec fn pseudo_legal(v: BoardView, m: Move) -> bool {
    ||| pawn_gen(v, m)
    ||| piece_gen(v, KNIGHT, m)
    ||| piece_gen(v, BISHOP, m)
    ||| piece_gen(v, ROOK, m)
    ||| piece_gen(v, QUEEN, m)
    ||| piece_gen(v, KING, m)
    ||| castle_rule(v, m)
}

/// `m` takes something: it lands on a square held by the other side or is
/// an en-passant capture. Of the promotions only the one to a queen counts.
pub open spec fn capture_shape(v: BoardView, m: Move) -> bool {
    &&& spec_is_set(v.occupancy[1 - v.side as int], m.spec_to()) || m.spec_is_en_passant()
    &&& m.spec_is_promotion() ==> m.spec_promotion() == 4
}

/// `m` is a pseudo-legal capture.
pub open spec fn pseudo_capture(v: BoardView, m: Move) -> bool {
    pseudo_legal(v, m) && capture_shape(v, m)
}

/// After `m` the king of the side that moved stands on the board and is
/// not attacked.
#[verifier::opaque]
pub open spec fn king_safe_after(v: BoardView, m: Move) -> bool {
    let w = make_spec(v, m);
    king_square(w, v.side) < 64 && !attacked(w, king_square(w, v.side), w.side)
}

/// `m` is legal: pseudo-legal, and it does not leave the mover's king
/// attacked.
pub open spec fn legal(v: BoardView, m: Move) -> bool {
    pseudo_legal(v, m) && king_safe_after(v, m)
}

/// `m` is a legal capture.
pub open spec fn legal_capture(v: BoardView, m: Move) -> bool {
    pseudo_capture(v, m) && king_safe_after(v, m)
}

} // verus!
