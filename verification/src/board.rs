//! The board: bitboards per colour and kind, side to move, castling rights,
//! en-passant square, clocks, the Zobrist hash kept up to date move by move,
//! and the history that lets every move be taken back.

pub use crate::position::{
    History, BISHOP, BLACK, CASTLE_BK, CASTLE_BQ, CASTLE_WK, CASTLE_WQ, KING, KNIGHT, PAWN, QUEEN,
    ROOK, WHITE,
};
use crate::bits::{group_bit_lemmas, lemma_xor_laws};
use crate::hashing::{lemma_bb_hash_toggle, lemma_bb_hash_zero, lemma_xor_swap};
use crate::position::{
    bb_hash, board_ok, corner_right, disjoint, kind_on, occupancy_of, pieces_hash, position_hash,
    rights_lost, BoardView,
};
use crate::utils::{bit_at, file_of, pop_lsb};
use crate::zobrist::{castling_key, Zobrist};
use vstd::prelude::*;

verus! {

/// A chess board.
pub struct Board {
    /// Bitboard of each kind of each colour: `pieces[colour][kind]`.
    pub pieces: [[u64; 6]; 2],
    /// Union of the bitboards of each colour.
    pub occupancy: [u64; 2],
    /// Side to move.
    pub side: u8,
    /// Castling rights.
    pub castling: u8,
    /// Square behind a pawn that has just advanced two ranks.
    pub en_passant: Option<u8>,
    /// Plies since the last pawn move or capture.
    pub halfmove: u16,
    /// Number of the move, raised after Black has moved.
    pub fullmove: u16,
    /// Zobrist hash of the position.
    pub hash: u64,
    /// One entry for each move made and not taken back.
    pub history: Vec<History>,
    /// The Zobrist keys.
    pub keys: Zobrist,
}

/// The twelve bitboards in one row.
pub open spec fn pieces_view(pieces: [[u64; 6]; 2]) -> Seq<u64> {
    Seq::new(12, |i: int| pieces[i / 6][i % 6])
}

impl View for Board {
    type V = BoardView;

    open spec fn view(&self) -> BoardView {
        BoardView {
            pieces: pieces_view(self.pieces),
            occupancy: seq![self.occupancy[0], self.occupancy[1]],
            side: self.side,
            castling: self.castling,
            en_passant: self.en_passant,
            halfmove: self.halfmove,
            fullmove: self.fullmove,
            hash: self.hash,
            history: self.history@,
        }
    }
}

/// The castling rights that a move gives up.
pub fn rights_lost_by(mover: u8, color: u8, from: u8, captured: Option<u8>, to: u8) -> (lost: u8)
    ensures
        lost == rights_lost(mover, color, from, captured, to),
{
    let by_capture: u8 = match captured {
        Some(k) => if k == ROOK {
            corner_right_of(to)
        } else {
            0
        },
        None => 0,
    };
    let by_move: u8 = if mover == KING {
        if color == WHITE {
            3
        } else {
            12
        }
    } else if mover == ROOK {
        corner_right_of(from)
    } else {
        0
    };
    by_capture | by_move
}

/// Castling right that belongs to a corner square; 0 for any other square.
pub fn corner_right_of(sq: u8) -> (r: u8)
    ensures
        r == corner_right(sq),
{
    if sq == 0 {
        CASTLE_WQ
    } else if sq == 7 {
        CASTLE_WK
    } else if sq == 56 {
        CASTLE_BQ
    } else if sq == 63 {
        CASTLE_BK
    } else {
        0
    }
}

impl Board {
    /// The board is valid: it holds the Zobrist keys, the position is valid
    /// and the history retraces valid positions.
    pub open spec fn wf(&self) -> bool {
        self.keys.wf() && board_ok(self@)
    }

    /// What holds between the steps of a move: the keys, the shape and the
    /// hash. The occupancy boards may lag behind.
    pub open spec fn core_ok(&self) -> bool {
        self.keys.wf() && self@.shape_ok() && self@.hash_ok()
    }

    /// An empty board: no piece, White to move, no rights, move 1.
    pub fn new() -> (b: Board)
        ensures
            b.wf(),
            b@.pieces =~= Seq::new(12, |i: int| 0u64),
            b@.side == WHITE,
            b@.castling == 0,
            b@.en_passant is None,
            b@.halfmove == 0,
            b@.fullmove == 1,
            b@.history.len() == 0,
    {
        let b = Board {
            pieces: [[0u64; 6]; 2],
            occupancy: [0u64; 2],
            side: WHITE,
            castling: 0,
            en_passant: None,
            halfmove: 0,
            fullmove: 1,
            hash: 0,
            history: Vec::new(),
            keys: Zobrist::new(),
        };
        proof {
            broadcast use group_bit_lemmas;

            reveal(disjoint);
            let ps = b@.pieces;
            lemma_empty_hash(ps, 12);
            lemma_xor_laws(0, 0, 0);
            assert(0u64 | 0u64 == 0u64) by (bit_vector);
            assert(0u8 & 1u8 == 0 && 0u8 & 2u8 == 0 && 0u8 & 4u8 == 0 && 0u8 & 8u8 == 0)
                by (bit_vector);
        }
        b
    }

    /// Kind and colour of the piece on a square, if there is one.
    pub fn piece_at(&self, sq: u8) -> (r: Option<(u8, u8)>)
        requires
            sq < 64,
        ensures
            r == self@.piece_at(sq),
    {
        let mask = bit_at(sq);
        if self.occupancy[0] & mask != 0 {
            match self.kind_of(0, sq) {
                Some(k) => { return Some((k, 0)); },
                None => {},
            }
        }
        if self.occupancy[1] & mask != 0 {
            match self.kind_of(1, sq) {
                Some(k) => { return Some((k, 1)); },
                None => {},
            }
        }
        None
    }

    /// Lowest kind of a colour that has a piece on a square.
    pub fn kind_of(&self, color: u8, sq: u8) -> (r: Option<u8>)
        requires
            color <= 1,
            sq < 64,
        ensures
            r == kind_on(self@.pieces, color, sq),
    {
        let mask = bit_at(sq);
        let c = color as usize;
        proof {
            reveal(kind_on);
        }
        if self.pieces[c][0] & mask != 0 {
            Some(0)
        } else if self.pieces[c][1] & mask != 0 {
            Some(1)
        } else if self.pieces[c][2] & mask != 0 {
            Some(2)
        } else if self.pieces[c][3] & mask != 0 {
            Some(3)
        } else if self.pieces[c][4] & mask != 0 {
            Some(4)
        } else if self.pieces[c][5] & mask != 0 {
            Some(5)
        } else {
            None
        }
    }

    /// Recomputes the occupancy boards from the bitboards.
    pub fn update_occupancy(&mut self)
        ensures
            final(self)@ == (BoardView { occupancy: occupancy_of(old(self)@.pieces), ..old(self)@ }),
            final(self).keys == old(self).keys,
    {
        self.occupancy[0] = self.pieces[0][0] | self.pieces[0][1] | self.pieces[0][2]
            | self.pieces[0][3] | self.pieces[0][4] | self.pieces[0][5];
        self.occupancy[1] = self.pieces[1][0] | self.pieces[1][1] | self.pieces[1][2]
            | self.pieces[1][3] | self.pieces[1][4] | self.pieces[1][5];
    }

    /// All occupied squares.
    pub fn all_occupancy(&self) -> (r: u64)
        ensures
            r == self@.all_occupancy(),
    {
        self.occupancy[0] | self.occupancy[1]
    }

    /// The Zobrist hash of the position, computed from scratch.
    pub fn calculate_hash(&self) -> (h: u64)
        requires
            self.keys.wf(),
        ensures
            h == position_hash(self@.pieces, self.side, self.castling, self.en_passant),
    {
        let mut hash: u64 = 0;
        let mut idx: usize = 0;
        while idx < 12
            invariant
                idx <= 12,
                self.keys.wf(),
                hash == pieces_hash(self@.pieces, idx as nat),
            decreases 12 - idx,
        {
            let mut bb: u64 = self.pieces[idx / 6][idx % 6];
            let ghost start = hash;
            let ghost full = bb;
            proof {
                lemma_xor_laws(start, bb_hash(full, idx as int, 64), 0);
            }
            while bb != 0
                invariant
                    idx < 12,
                    self.keys.wf(),
                    hash ^ bb_hash(bb, idx as int, 64) == start ^ bb_hash(full, idx as int, 64),
                decreases crate::bits::count_below(bb, 64),
            {
                let ghost before = bb;
                let sq = pop_lsb(&mut bb);
                let key = self.keys.pieces[idx][sq as usize];
                proof {
                    broadcast use group_bit_lemmas;

                    lemma_bb_hash_toggle(before, bb, idx as int, sq, 64);
                    lemma_xor_swap(hash, bb_hash(before, idx as int, 64), key);
                    crate::bits::lemma_count_clear(before, sq, 64);
                }
                hash = hash ^ key;
            }
            proof {
                lemma_bb_hash_zero(idx as int, 64);
                lemma_xor_laws(hash, 0, 0);
            }
            idx += 1;
        }
        let ghost ph = hash;
        if self.side == BLACK {
            hash = hash ^ self.keys.side;
        }
        proof {
            lemma_xor_laws(ph, 0, 0);
        }
        let mut ch: u64 = 0;
        if self.castling & CASTLE_WK != 0 {
            ch = ch ^ self.keys.castling[0];
        }
        proof {
            lemma_xor_laws(castling_key(0), 0, 0);
        }
        let ghost c0 = ch;
        if self.castling & CASTLE_WQ != 0 {
            ch = ch ^ self.keys.castling[1];
        }
        proof {
            lemma_xor_laws(c0, 0, 0);
        }
        let ghost c1 = ch;
        if self.castling & CASTLE_BK != 0 {
            ch = ch ^ self.keys.castling[2];
        }
        proof {
            lemma_xor_laws(c1, 0, 0);
        }
        let ghost c2 = ch;
        if self.castling & CASTLE_BQ != 0 {
            ch = ch ^ self.keys.castling[3];
        }
        proof {
            lemma_xor_laws(c2, 0, 0);
        }
        hash = hash ^ ch;
        let ghost h3 = hash;
        match self.en_passant {
            Some(ep) => {
                hash = hash ^ self.keys.en_passant[file_of(ep) as usize];
            },
            None => {
                proof {
                    lemma_xor_laws(h3, 0, 0);
                }
            },
        }
        hash
    }

}

impl Default for Board {
    /// The empty board.
    fn default() -> (b: Board)
        ensures
            b.wf(),
            b@.pieces =~= Seq::new(12, |i: int| 0u64),
            b@.side == WHITE,
            b@.castling == 0,
            b@.en_passant is None,
            b@.halfmove == 0,
            b@.fullmove == 1,
            b@.history.len() == 0,
    {
        Board::new()
    }
}

/// The empty board hashes to zero.
pub proof fn lemma_empty_hash(ps: Seq<u64>, n: nat)
    requires
        ps.len() == 12,
        n <= 12,
        forall|i: int| 0 <= i < 12 ==> ps[i] == 0,
    ensures
        pieces_hash(ps, n) == 0,
    decreases n,
{
    if n > 0 {
        lemma_empty_hash(ps, (n - 1) as nat);
        lemma_bb_hash_zero(n - 1, 64);
        lemma_xor_laws(0, 0, 0);
    }
}

} // verus!
