//! Proofs that tie the rules of movement to what the board can carry out:
//! every pseudo-legal move of a valid position is playable.

use crate::attacks::piece_hits;
use crate::bits::group_bit_lemmas;
use crate::hashing::{lemma_kind_on, lemma_union_of};
use crate::position::{
    castle_rook_to, disjoint, kind_on, playable, vacant, BoardView, BISHOP, KING, KNIGHT, PAWN,
    QUEEN, ROOK,
};
use crate::rules::{castle_rule, pawn_gen, piece_gen, pseudo_legal};
use crate::undo::lemma_census;
use crate::utils::{lemma_move_ranges, spec_is_set, Move};
use vstd::prelude::*;

verus! {

/// No square is held by both sides.
pub proof fn lemma_sides_apart(v: BoardView, t: u8)
    requires
        v.position_ok(),
        t < 64,
    ensures
        !(spec_is_set(v.occupancy[0], t) && spec_is_set(v.occupancy[1], t)),
        spec_is_set(v.all_occupancy(), t) <==> (spec_is_set(v.occupancy[0], t) || spec_is_set(
            v.occupancy[1],
            t,
        )),
        spec_is_set(v.occupancy[0], t) <==> kind_on(v.pieces, 0, t) is Some,
        spec_is_set(v.occupancy[1], t) <==> kind_on(v.pieces, 1, t) is Some,
        vacant(v.pieces, t) <==> !spec_is_set(v.all_occupancy(), t),
{
    broadcast use group_bit_lemmas;

    lemma_union_of(v.pieces, 0, t);
    lemma_union_of(v.pieces, 1, t);
    lemma_census(v.pieces, t);
}

/// No square is held by two kinds of one colour.
pub proof fn lemma_kinds_apart(v: BoardView, t: u8)
    requires
        v.position_ok(),
        t < 64,
    ensures
        forall|c: u8, j: u8, k: u8|
            c <= 1 && j <= 5 && k <= 5 && j != k ==> !(#[trigger] spec_is_set(v.bb(c, j), t)
                && #[trigger] spec_is_set(v.bb(c, k), t)),
{
    reveal(disjoint);
}

/// A piece never attacks the square it stands on.
pub proof fn lemma_hits_elsewhere(kind: u8, a: u8, b: u8, occ: u64)
    requires
        a < 64,
        b < 64,
        piece_hits(kind, a, b, occ),
    ensures
        a != b,
{
}

/// A pseudo-legal pawn move of a valid position is playable.
pub proof fn lemma_pawn_playable(v: BoardView, m: Move)
    requires
        v.position_ok(),
        pawn_gen(v, m),
    ensures
        playable(v, m),
{
    reveal(playable);
    lemma_move_ranges(m);
    let from = m.spec_from();
    let to = m.spec_to();
    let color = v.side;
    lemma_sides_apart(v, to);
    lemma_sides_apart(v, from);
    lemma_kind_on(v.pieces, color, PAWN, from);
}

/// A pseudo-legal piece move of a valid position is playable.
pub proof fn lemma_piece_playable(v: BoardView, kind: u8, m: Move)
    requires
        v.position_ok(),
        1 <= kind <= 5,
        piece_gen(v, kind, m),
    ensures
        playable(v, m),
{
    reveal(playable);
    lemma_move_ranges(m);
    let from = m.spec_from();
    let to = m.spec_to();
    let color = v.side;
    lemma_sides_apart(v, to);
    lemma_kind_on(v.pieces, color, kind, from);
    lemma_hits_elsewhere(kind, from, to, v.all_occupancy());
}

/// A castling move that the rules allow in a valid position is playable.
pub proof fn lemma_castle_playable(v: BoardView, m: Move)
    requires
        v.position_ok(),
        castle_rule(v, m),
    ensures
        playable(v, m),
{
    reveal(playable);
    lemma_move_ranges(m);
    let from = m.spec_from();
    let to = m.spec_to();
    let color = v.side;
    lemma_sides_apart(v, to);
    lemma_sides_apart(v, castle_rook_to(to));
    lemma_kind_on(v.pieces, color, KING, from);
}

/// Every pseudo-legal move of a valid position is playable: the board can
/// make it and take it back.
pub proof fn lemma_pseudo_playable(v: BoardView, m: Move)
    requires
        v.position_ok(),
        pseudo_legal(v, m),
    ensures
        playable(v, m),
{
    reveal(pseudo_legal);
    if pawn_gen(v, m) {
        lemma_pawn_playable(v, m);
    } else if piece_gen(v, KNIGHT, m) {
        lemma_piece_playable(v, KNIGHT, m);
    } else if piece_gen(v, BISHOP, m) {
        lemma_piece_playable(v, BISHOP, m);
    } else if piece_gen(v, ROOK, m) {
        lemma_piece_playable(v, ROOK, m);
    } else if piece_gen(v, QUEEN, m) {
        lemma_piece_playable(v, QUEEN, m);
    } else if piece_gen(v, KING, m) {
        lemma_piece_playable(v, KING, m);
    } else {
        lemma_castle_playable(v, m);
    }
}

} // verus!
