//! Writing a board in Forsyth-Edwards notation.

use crate::board::Board;
use crate::fen::{char_of_piece, en_passant_text, fen_text, placement_text, rank_text, run_digit};
use crate::position::{CASTLE_BK, CASTLE_BQ, CASTLE_WK, CASTLE_WQ, WHITE};
use crate::text::push_decimal;
use crate::utils::{file_of, rank_of};
use vstd::prelude::*;

verus! {

/// Letter of a piece: upper case for White, lower case for Black.
pub fn piece_char(kind: u8, color: u8) -> (c: char)
    ensures
        c == char_of_piece(kind, color),
{
    if color == WHITE {
        if kind == 0 {
            'P'
        } else if kind == 1 {
            'N'
        } else if kind == 2 {
            'B'
        } else if kind == 3 {
            'R'
        } else if kind == 4 {
            'Q'
        } else {
            'K'
        }
    } else {
        if kind == 0 {
            'p'
        } else if kind == 1 {
            'n'
        } else if kind == 2 {
            'b'
        } else if kind == 3 {
            'r'
        } else if kind == 4 {
            'q'
        } else {
            'k'
        }
    }
}

/// Appends the digit for a run of empty squares, if the run is not empty.
fn push_run(out: &mut String, empty: u8)
    requires
        empty <= 8,
    ensures
        final(out)@ == old(out)@ + run_digit(empty as int),
{
    if empty > 0 {
        out.push((48u8 + empty) as char);
    }
}

impl Board {
    /// Appends one rank of the placement.
    fn push_rank(&self, out: &mut String, rank: u8)
        requires
            rank < 8,
        ensures
            final(out)@ == old(out)@ + rank_text(self@, rank as int, 0, 0),
    {
        let ghost v = self@;
        let ghost start = out@;
        let ghost whole = rank_text(v, rank as int, 0, 0);
        let mut file: u8 = 0;
        let mut empty: u8 = 0;
        while file < 8
            invariant
                rank < 8,
                file <= 8,
                empty <= file,
                v == self@,
                out@ + rank_text(v, rank as int, file as int, empty as int) =~= start + whole,
            decreases 8 - file,
        {
            let sq: u8 = rank * 8 + file;
            match self.piece_at(sq) {
                Some((kind, color)) => {
                    push_run(out, empty);
                    out.push(piece_char(kind, color));
                    empty = 0;
                },
                None => {
                    empty = empty + 1;
                },
            }
            file = file + 1;
        }
        push_run(out, empty);
    }

    /// Writes the board in Forsyth-Edwards notation: placement, side,
    /// castling rights, en-passant square, halfmove clock and fullmove
    /// number, one space between them.
    pub fn to_fen(&self) -> (fen: String)
        ensures
            fen@ == fen_text(self@),
    {
        let ghost v = self@;
        let mut out = String::new();
        let mut rank: u8 = 7;
        let ghost whole = placement_text(v, 7);
        while rank > 0
            invariant
                rank <= 7,
                v == self@,
                out@ + placement_text(v, rank as int) =~= whole,
            decreases rank,
        {
            self.push_rank(&mut out, rank);
            out.push('/');
            rank = rank - 1;
        }
        self.push_rank(&mut out, 0);
        out.push(' ');
        out.push(
            if self.side == WHITE {
                'w'
            } else {
                'b'
            },
        );
        out.push(' ');
        let ghost head = out@;
        if self.castling == 0 {
            out.push('-');
        } else {
            let ghost e = Seq::<char>::empty();
            if self.castling & CASTLE_WK != 0 {
                out.push('K');
            }
            let ghost c1 = if self.castling & 1 != 0 {
                seq!['K']
            } else {
                e
            };
            if self.castling & CASTLE_WQ != 0 {
                out.push('Q');
            }
            let ghost c2 = c1 + (if self.castling & 2 != 0 {
                seq!['Q']
            } else {
                e
            });
            if self.castling & CASTLE_BK != 0 {
                out.push('k');
            }
            let ghost c3 = c2 + (if self.castling & 4 != 0 {
                seq!['k']
            } else {
                e
            });
            if self.castling & CASTLE_BQ != 0 {
                out.push('q');
            }
            let ghost c4 = c3 + (if self.castling & 8 != 0 {
                seq!['q']
            } else {
                e
            });
            assert(out@ =~= head + c4);
        }
        out.push(' ');
        let ghost head2 = out@;
        match self.en_passant {
            Some(ep) => {
                out.push((97u8 + file_of(ep)) as char);
                out.push((49u8 + rank_of(ep)) as char);
                assert(out@ =~= head2 + en_passant_text(self.en_passant));
            },
            None => {
                out.push('-');
                assert(out@ =~= head2 + en_passant_text(self.en_passant));
            },
        }
        out.push(' ');
        push_decimal(&mut out, self.halfmove as u128);
        out.push(' ');
        push_decimal(&mut out, self.fullmove as u128);
        out
    }
}

} // verus!
