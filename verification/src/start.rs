//! The position from which a game starts.

use crate::bits::group_bit_lemmas;
use crate::board::{pieces_view, Board};
use crate::position::{disjoint, WHITE};
use crate::utils::spec_is_set;
use vstd::prelude::*;

verus! {

/// The twelve bitboards of the starting position: white pawns, knights,
/// bishops, rooks, queen, king, and the same for Black.
pub open spec fn start_pieces() -> Seq<u64> {
    seq![
        0x0000_0000_0000_FF00u64,
        0x0000_0000_0000_0042u64,
        0x0000_0000_0000_0024u64,
        0x0000_0000_0000_0081u64,
        0x0000_0000_0000_0008u64,
        0x0000_0000_0000_0010u64,
        0x00FF_0000_0000_0000u64,
        0x4200_0000_0000_0000u64,
        0x2400_0000_0000_0000u64,
        0x8100_0000_0000_0000u64,
        0x0800_0000_0000_0000u64,
        0x1000_0000_0000_0000u64,
    ]
}

/// Two boards with an empty intersection share no square.
pub proof fn lemma_apart(a: u64, b: u64, t: u8)
    requires
        a & b == 0,
        t < 64,
    ensures
        !(spec_is_set(a, t) && spec_is_set(b, t)),
{
    broadcast use group_bit_lemmas;

    assert(spec_is_set(a & b, t) == (spec_is_set(a, t) && spec_is_set(b, t)));
}

/// No two bitboards of the starting position share a square.
pub proof fn lemma_start_disjoint()
    ensures
        disjoint(start_pieces()),
{
    let ps = start_pieces();
    reveal(disjoint);
    assert forall|i: int, j: int, t: u8|
        0 <= i < 12 && 0 <= j < 12 && i != j && t < 64 implies !(#[trigger] spec_is_set(ps[i], t)
        && #[trigger] spec_is_set(ps[j], t)) by {
        assert(ps[i] & ps[j] == 0) by {
            if i < j {
                lemma_start_pair(i, j);
            } else {
                lemma_start_pair(j, i);
            }
        }
        lemma_apart(ps[i], ps[j], t);
    }
}

/// Any two bitboards of the starting position have an empty intersection.
pub proof fn lemma_start_pair(i: int, j: int)
    requires
        0 <= i < j < 12,
    ensures
        start_pieces()[i] & start_pieces()[j] == 0,
        start_pieces()[j] & start_pieces()[i] == 0,
{
    assert(0x0000_0000_0000_FF00u64 & 0x0000_0000_0000_0042u64 == 0 && 0x0000_0000_0000_FF00u64 & 0x0000_0000_0000_0024u64 == 0 && 0x0000_0000_0000_FF00u64 & 0x0000_0000_0000_0081u64 == 0 && 0x0000_0000_0000_FF00u64 & 0x0000_0000_0000_0008u64 == 0 && 0x0000_0000_0000_FF00u64 & 0x0000_0000_0000_0010u64 == 0 && 0x0000_0000_0000_FF00u64 & 0x00FF_0000_0000_0000u64 == 0 && 0x0000_0000_0000_FF00u64 & 0x4200_0000_0000_0000u64 == 0 && 0x0000_0000_0000_FF00u64 & 0x2400_0000_0000_0000u64 == 0 && 0x0000_0000_0000_FF00u64 & 0x8100_0000_0000_0000u64 == 0 && 0x0000_0000_0000_FF00u64 & 0x0800_0000_0000_0000u64 == 0 && 0x0000_0000_0000_FF00u64 & 0x1000_0000_0000_0000u64 == 0 && 0x0000_0000_0000_0042u64 & 0x0000_0000_0000_0024u64 == 0 && 0x0000_0000_0000_0042u64 & 0x0000_0000_0000_0081u64 == 0 && 0x0000_0000_0000_0042u64 & 0x0000_0000_0000_0008u64 == 0 && 0x0000_0000_0000_0042u64 & 0x0000_0000_0000_0010u64 == 0 && 0x0000_0000_0000_0042u64 & 0x00FF_0000_0000_0000u64 == 0 && 0x0000_0000_0000_0042u64 & 0x4200_0000_0000_0000u64 == 0 && 0x0000_0000_0000_0042u64 & 0x2400_0000_0000_0000u64 == 0 && 0x0000_0000_0000_0042u64 & 0x8100_0000_0000_0000u64 == 0 && 0x0000_0000_0000_0042u64 & 0x0800_0000_0000_0000u64 == 0 && 0x0000_0000_0000_0042u64 & 0x1000_0000_0000_0000u64 == 0 && 0x0000_0000_0000_0024u64 & 0x0000_0000_0000_0081u64 == 0 && 0x0000_0000_0000_0024u64 & 0x0000_0000_0000_0008u64 == 0 && 0x0000_0000_0000_0024u64 & 0x0000_0000_0000_0010u64 == 0 && 0x0000_0000_0000_0024u64 & 0x00FF_0000_0000_0000u64 == 0 && 0x0000_0000_0000_0024u64 & 0x4200_0000_0000_0000u64 == 0 && 0x0000_0000_0000_0024u64 & 0x2400_0000_0000_0000u64 == 0 && 0x0000_0000_0000_0024u64 & 0x8100_0000_0000_0000u64 == 0 && 0x0000_0000_0000_0024u64 & 0x0800_0000_0000_0000u64 == 0 && 0x0000_0000_0000_0024u64 & 0x1000_0000_0000_0000u64 == 0 && 0x0000_0000_0000_0081u64 & 0x0000_0000_0000_0008u64 == 0 && 0x0000_0000_0000_0081u64 & 0x0000_0000_0000_0010u64 == 0 && 0x0000_0000_0000_0081u64 & 0x00FF_0000_0000_0000u64 == 0 && 0x0000_0000_0000_0081u64 & 0x4200_0000_0000_0000u64 == 0 && 0x0000_0000_0000_0081u64 & 0x2400_0000_0000_0000u64 == 0 && 0x0000_0000_0000_0081u64 & 0x8100_0000_0000_0000u64 == 0 && 0x0000_0000_0000_0081u64 & 0x0800_0000_0000_0000u64 == 0 && 0x0000_0000_0000_0081u64 & 0x1000_0000_0000_0000u64 == 0 && 0x0000_0000_0000_0008u64 & 0x0000_0000_0000_0010u64 == 0 && 0x0000_0000_0000_0008u64 & 0x00FF_0000_0000_0000u64 == 0 && 0x0000_0000_0000_0008u64 & 0x4200_0000_0000_0000u64 == 0 && 0x0000_0000_0000_0008u64 & 0x2400_0000_0000_0000u64 == 0 && 0x0000_0000_0000_0008u64 & 0x8100_0000_0000_0000u64 == 0 && 0x0000_0000_0000_0008u64 & 0x0800_0000_0000_0000u64 == 0 && 0x0000_0000_0000_0008u64 & 0x1000_0000_0000_0000u64 == 0 && 0x0000_0000_0000_0010u64 & 0x00FF_0000_0000_0000u64 == 0 && 0x0000_0000_0000_0010u64 & 0x4200_0000_0000_0000u64 == 0 && 0x0000_0000_0000_0010u64 & 0x2400_0000_0000_0000u64 == 0 && 0x0000_0000_0000_0010u64 & 0x8100_0000_0000_0000u64 == 0 && 0x0000_0000_0000_0010u64 & 0x0800_0000_0000_0000u64 == 0 && 0x0000_0000_0000_0010u64 & 0x1000_0000_0000_0000u64 == 0 && 0x00FF_0000_0000_0000u64 & 0x4200_0000_0000_0000u64 == 0 && 0x00FF_0000_0000_0000u64 & 0x2400_0000_0000_0000u64 == 0 && 0x00FF_0000_0000_0000u64 & 0x8100_0000_0000_0000u64 == 0 && 0x00FF_0000_0000_0000u64 & 0x0800_0000_0000_0000u64 == 0 && 0x00FF_0000_0000_0000u64 & 0x1000_0000_0000_0000u64 == 0 && 0x4200_0000_0000_0000u64 & 0x2400_0000_0000_0000u64 == 0 && 0x4200_0000_0000_0000u64 & 0x8100_0000_0000_0000u64 == 0 && 0x4200_0000_0000_0000u64 & 0x0800_0000_0000_0000u64 == 0 && 0x4200_0000_0000_0000u64 & 0x1000_0000_0000_0000u64 == 0 && 0x2400_0000_0000_0000u64 & 0x8100_0000_0000_0000u64 == 0 && 0x2400_0000_0000_0000u64 & 0x0800_0000_0000_0000u64 == 0 && 0x2400_0000_0000_0000u64 & 0x1000_0000_0000_0000u64 == 0 && 0x8100_0000_0000_0000u64 & 0x0800_0000_0000_0000u64 == 0 && 0x8100_0000_0000_0000u64 & 0x1000_0000_0000_0000u64 == 0 && 0x0800_0000_0000_0000u64 & 0x1000_0000_0000_0000u64 == 0) by (bit_vector);
    assert(forall|a: u64, b: u64| #[trigger] (a & b) == b & a) by (bit_vector);
}

impl Board {
    /// The starting position: all pieces on their home squares, White to
    /// move, every castling right, move 1.
    pub fn starting_position() -> (b: Board)
        ensures
            b.wf(),
            b@.pieces =~= start_pieces(),
            b@.side == WHITE,
            b@.castling == 15,
            b@.en_passant is None,
            b@.halfmove == 0,
            b@.fullmove == 1,
            b@.history.len() == 0,
    {
        let pieces: [[u64; 6]; 2] = [
            [
                0x0000_0000_0000_FF00,
                0x0000_0000_0000_0042,
                0x0000_0000_0000_0024,
                0x0000_0000_0000_0081,
                0x0000_0000_0000_0008,
                0x0000_0000_0000_0010,
            ],
            [
                0x00FF_0000_0000_0000,
                0x4200_0000_0000_0000,
                0x2400_0000_0000_0000,
                0x8100_0000_0000_0000,
                0x0800_0000_0000_0000,
                0x1000_0000_0000_0000,
            ],
        ];
        proof {
            assert(pieces_view(pieces) =~= start_pieces());
            lemma_start_disjoint();
        }
        Board::assemble(pieces, WHITE, 15, None, 0, 1)
    }
}

} // verus!
