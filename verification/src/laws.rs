//! Laws that relate the rules of movement, check and the board.

use crate::attacks::{attacked, attacker_on, in_check_spec, king_square};
use crate::position::{make_spec, playable, BoardView};
use crate::rules::{king_safe_after, legal, pseudo_legal};
use crate::soundness::lemma_pseudo_playable;
use crate::undo::lemma_make_unmake;
use crate::utils::Move;
use vstd::prelude::*;

verus! {

/// The position after `m` with the move handed back to the side that made it.
pub open spec fn after_for_mover(v: BoardView, m: Move) -> BoardView {
    BoardView { side: v.side, ..make_spec(v, m) }
}

/// Whether a square is attacked depends on the bitboards and the
/// occupancy alone.
pub proof fn lemma_attacked_same(a: BoardView, b: BoardView, sq: u8, by: u8)
    requires
        a.pieces == b.pieces,
        a.occupancy == b.occupancy,
    ensures
        attacked(a, sq, by) == attacked(b, sq, by),
{
    assert forall|t: u8| attacker_on(a, sq, by, t) == attacker_on(b, sq, by, t) by {}
}

/// Where the side that moves still has a king after the move, the move
/// is legal exactly if it is pseudo-legal and that side is not in check
/// once the move is made.
pub proof fn lemma_legal_iff_not_in_check(v: BoardView, m: Move)
    requires
        v.position_ok(),
        king_square(make_spec(v, m), v.side) < 64,
    ensures
        legal(v, m) <==> pseudo_legal(v, m) && !in_check_spec(after_for_mover(v, m)),
{
    reveal(king_safe_after);
    reveal(make_spec);
    let w = make_spec(v, m);
    let u = after_for_mover(v, m);
    if pseudo_legal(v, m) {
        lemma_pseudo_playable(v, m);
        reveal(playable);
        lemma_attacked_same(w, u, king_square(w, v.side), w.side);
    }
}

/// Making a legal move and taking it back leaves every field of the
/// board as it was.
pub proof fn lemma_legal_round_trip(v: BoardView, m: Move)
    requires
        v.position_ok(),
        legal(v, m),
    ensures
        crate::position::unmake_spec(make_spec(v, m)) == v,
{
    lemma_pseudo_playable(v, m);
    lemma_make_unmake(v, m);
}

} // verus!
