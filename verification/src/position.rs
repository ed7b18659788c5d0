//! The mathematical model of a position: twelve bitboards, the state that
//! goes with them, the Zobrist hash computed from scratch, and what making
//! and unmaking a move does to them.

use crate::utils::{
    spec_clear_bit, spec_distance, spec_file_of, spec_is_set, spec_rank_of, spec_set_bit, Move,
};
use crate::zobrist::{castling_key, en_passant_key, piece_key, side_key};
use vstd::prelude::*;

verus! {

/// Piece kinds.
pub const PAWN: u8 = 0;

pub const KNIGHT: u8 = 1;

pub const BISHOP: u8 = 2;

pub const ROOK: u8 = 3;

pub const QUEEN: u8 = 4;

pub const KING: u8 = 5;

/// Colours.
pub const WHITE: u8 = 0;

pub const BLACK: u8 = 1;

/// Castling rights: white kingside, white queenside, black kingside, black
/// queenside.
pub const CASTLE_WK: u8 = 1;

pub const CASTLE_WQ: u8 = 2;

pub const CASTLE_BK: u8 = 4;

pub const CASTLE_BQ: u8 = 8;

/// What is needed to take back one move.
#[derive(Clone, Copy)]
pub struct History {
    /// The move that was made.
    pub mov: Move,
    /// Kind of the piece that stood on the destination, if any.
    pub captured: Option<u8>,
    /// Castling rights before the move.
    pub castling: u8,
    /// En-passant square before the move.
    pub en_passant: Option<u8>,
    /// Halfmove clock before the move.
    pub halfmove: u16,
    /// Hash before the move.
    pub hash: u64,
}

/// A board as plain values. `pieces` holds the twelve bitboards, white pawn
/// to white king and black pawn to black king: index `colour * 6 + kind`.
pub struct BoardView {
    pub pieces: Seq<u64>,
    pub occupancy: Seq<u64>,
    pub side: u8,
    pub castling: u8,
    pub en_passant: Option<u8>,
    pub halfmove: u16,
    pub fullmove: u16,
    pub hash: u64,
    pub history: Seq<History>,
}

// ---------------------------------------------------------------------------
// Bitboards of a position
// ---------------------------------------------------------------------------
/// Index of the bitboard of a kind of a colour.
pub open spec fn piece_slot(color: u8, kind: u8) -> int {
    color as int * 6 + kind as int
}

/// `ps` with square `sq` removed from bitboard `idx`.
pub open spec fn remove(ps: Seq<u64>, idx: int, sq: u8) -> Seq<u64> {
    ps.update(idx, spec_clear_bit(ps[idx], sq))
}

/// `ps` with square `sq` added to bitboard `idx`.
pub open spec fn place(ps: Seq<u64>, idx: int, sq: u8) -> Seq<u64> {
    ps.update(idx, spec_set_bit(ps[idx], sq))
}

/// No two bitboards share a square.
#[verifier::opaque]
pub open spec fn disjoint(ps: Seq<u64>) -> bool {
    forall|i: int, j: int, t: u8|
        0 <= i < 12 && 0 <= j < 12 && i != j && t < 64 ==> !(#[trigger] spec_is_set(ps[i], t)
            && #[trigger] spec_is_set(ps[j], t))
}

/// No piece stands on square `sq`.
pub open spec fn vacant(ps: Seq<u64>, sq: u8) -> bool {
    forall|i: int| 0 <= i < 12 ==> !#[trigger] spec_is_set(ps[i], sq)
}

/// Union of the six bitboards of a colour.
pub open spec fn union_of(ps: Seq<u64>, color: u8) -> u64 {
    let b = color as int * 6;
    ps[b] | ps[b + 1] | ps[b + 2] | ps[b + 3] | ps[b + 4] | ps[b + 5]
}

/// The two occupancy boards that belong to `ps`.
pub open spec fn occupancy_of(ps: Seq<u64>) -> Seq<u64> {
    seq![union_of(ps, 0), union_of(ps, 1)]
}

/// Lowest kind of `color` that has a piece on `sq`.
#[verifier::opaque]
pub open spec fn kind_on(ps: Seq<u64>, color: u8, sq: u8) -> Option<u8> {
    let b = color as int * 6;
    if spec_is_set(ps[b], sq) {
        Some(0u8)
    } else if spec_is_set(ps[b + 1], sq) {
        Some(1u8)
    } else if spec_is_set(ps[b + 2], sq) {
        Some(2u8)
    } else if spec_is_set(ps[b + 3], sq) {
        Some(3u8)
    } else if spec_is_set(ps[b + 4], sq) {
        Some(4u8)
    } else if spec_is_set(ps[b + 5], sq) {
        Some(5u8)
    } else {
        None
    }
}

// ---------------------------------------------------------------------------
// Hash from scratch
// ---------------------------------------------------------------------------
/// Exclusive-or of the keys of bitboard `idx` on its occupied squares below `n`.
pub open spec fn bb_hash(bb: u64, idx: int, n: nat) -> u64
    decreases n,
{
    if n == 0 {
        0
    } else {
        bb_hash(bb, idx, (n - 1) as nat) ^ (if spec_is_set(bb, (n - 1) as u8) {
            piece_key(idx, n - 1)
        } else {
            0
        })
    }
}

/// Exclusive-or of the piece-square keys of the first `n` bitboards.
pub open spec fn pieces_hash(ps: Seq<u64>, n: nat) -> u64
    decreases n,
{
    if n == 0 {
        0
    } else {
        pieces_hash(ps, (n - 1) as nat) ^ bb_hash(ps[n - 1], n - 1, 64)
    }
}

/// The side key when Black is to move.
pub open spec fn side_hash(side: u8) -> u64 {
    if side == BLACK {
        side_key()
    } else {
        0
    }
}

/// Bit of castling right `i`.
pub open spec fn right_bit(i: int) -> u8 {
    if i == 0 {
        CASTLE_WK
    } else if i == 1 {
        CASTLE_WQ
    } else if i == 2 {
        CASTLE_BK
    } else {
        CASTLE_BQ
    }
}

/// Key of castling right `i` when `castling` holds it.
pub open spec fn right_hash(castling: u8, i: int) -> u64 {
    if castling & right_bit(i) != 0 {
        castling_key(i)
    } else {
        0
    }
}

/// Exclusive-or of the keys of the castling rights that are held.
pub open spec fn castling_hash(castling: u8) -> u64 {
    right_hash(castling, 0) ^ right_hash(castling, 1) ^ right_hash(castling, 2) ^ right_hash(
        castling,
        3,
    )
}

/// Key of the file of the en-passant square, if there is one.
pub open spec fn en_passant_hash(ep: Option<u8>) -> u64 {
    match ep {
        Some(sq) => en_passant_key(spec_file_of(sq) as int),
        None => 0,
    }
}

/// The Zobrist hash of a position, computed from scratch.
pub open spec fn position_hash(ps: Seq<u64>, side: u8, castling: u8, ep: Option<u8>) -> u64 {
    pieces_hash(ps, 12) ^ side_hash(side) ^ castling_hash(castling) ^ en_passant_hash(ep)
}

// ---------------------------------------------------------------------------
// Validity
// ---------------------------------------------------------------------------
/// An en-passant square is on the third or the sixth rank.
pub open spec fn en_passant_ok(ep: Option<u8>) -> bool {
    match ep {
        Some(sq) => sq < 64 && (spec_rank_of(sq) == 2 || spec_rank_of(sq) == 5),
        None => true,
    }
}

impl BoardView {
    /// Bitboard of a kind of a colour.
    pub open spec fn bb(self, color: u8, kind: u8) -> u64 {
        self.pieces[piece_slot(color, kind)]
    }

    /// All occupied squares.
    pub open spec fn all_occupancy(self) -> u64 {
        self.occupancy[0] | self.occupancy[1]
    }

    /// Kind and colour of the piece on `sq`, looked up through the
    /// occupancy boards, white first.
    pub open spec fn piece_at(self, sq: u8) -> Option<(u8, u8)> {
        if spec_is_set(self.occupancy[0], sq) && kind_on(self.pieces, 0, sq) is Some {
            Some((kind_on(self.pieces, 0, sq)->0, 0u8))
        } else if spec_is_set(self.occupancy[1], sq) && kind_on(self.pieces, 1, sq) is Some {
            Some((kind_on(self.pieces, 1, sq)->0, 1u8))
        } else {
            None
        }
    }

    /// Everything but the occupancy boards and the hash is in order: twelve
    /// disjoint bitboards, a side, four castling bits, an en-passant square
    /// on its rank.
    pub open spec fn shape_ok(self) -> bool {
        &&& self.pieces.len() == 12
        &&& self.occupancy.len() == 2
        &&& disjoint(self.pieces)
        &&& self.side <= 1
        &&& self.castling <= 15
        &&& en_passant_ok(self.en_passant)
    }

    /// The hash is the one computed from scratch.
    pub open spec fn hash_ok(self) -> bool {
        self.hash == position_hash(self.pieces, self.side, self.castling, self.en_passant)
    }

    /// The position is valid: the shape is in order, each occupancy board is
    /// the union of its colour's bitboards, and the hash is the one computed
    /// from scratch.
    pub open spec fn position_ok(self) -> bool {
        &&& self.shape_ok()
        &&& self.occupancy =~= occupancy_of(self.pieces)
        &&& self.hash_ok()
    }
}

// ---------------------------------------------------------------------------
// Making and unmaking a move
// ---------------------------------------------------------------------------
/// Corner from which the rook leaves when the king castles to `to`.
pub open spec fn castle_rook_from(to: u8) -> u8 {
    if to == 6 {
        7
    } else if to == 2 {
        0
    } else if to == 62 {
        63
    } else {
        56
    }
}

/// Square on which the rook lands when the king castles to `to`.
pub open spec fn castle_rook_to(to: u8) -> u8 {
    if to == 6 {
        5
    } else if to == 2 {
        3
    } else if to == 62 {
        61
    } else {
        59
    }
}

/// Square of the pawn that an en-passant capture removes: the rank of the
/// origin, the file of the destination.
pub open spec fn en_passant_victim(from: u8, to: u8) -> u8 {
    (spec_rank_of(from) * 8 + spec_file_of(to)) as u8
}

/// Castling right that belongs to a corner square; 0 for any other square.
pub open spec fn corner_right(sq: u8) -> u8 {
    if sq == 0 {
        CASTLE_WQ
    } else if sq == 7 {
        CASTLE_WK
    } else if sq == 56 {
        CASTLE_BQ
    } else if sq == 63 {
        CASTLE_BK
    } else {
        0
    }
}

/// Castling rights that a move gives up: both of the mover's when the king
/// moves, the corner's when a rook leaves a corner, and the corner's when a
/// rook is captured on one.
pub open spec fn rights_lost(mover: u8, color: u8, from: u8, captured: Option<u8>, to: u8) -> u8 {
    let by_capture = if captured == Some(ROOK) {
        corner_right(to)
    } else {
        0
    };
    let by_move = if mover == KING {
        if color == WHITE {
            3u8
        } else {
            12u8
        }
    } else if mover == ROOK {
        corner_right(from)
    } else {
        0
    };
    by_capture | by_move
}

/// Whether `m` can be made on `v`: a piece of the side to move stands on
/// the origin, none of its own on the destination, and what the flag says
/// is there. This asks less than the rules of chess do.
#[verifier::opaque]
pub open spec fn playable(v: BoardView, m: Move) -> bool {
    let from = m.spec_from();
    let to = m.spec_to();
    let color = v.side;
    let enemy = (1 - color) as u8;
    let mover = kind_on(v.pieces, color, from);
    &&& v.side <= 1
    &&& from != to
    &&& mover is Some
    &&& kind_on(v.pieces, color, to) is None
    &&& en_passant_ok(en_passant_after(v, m))
    &&& if m.spec_is_castle() {
        &&& mover == Some(KING)
        &&& (from == 4 && (to == 6 || to == 2)) || (from == 60 && (to == 62 || to == 58))
        &&& vacant(v.pieces, to)
        &&& vacant(v.pieces, castle_rook_to(to))
        &&& spec_is_set(v.bb(color, ROOK), castle_rook_from(to))
    } else if m.spec_is_en_passant() {
        &&& mover == Some(PAWN)
        &&& vacant(v.pieces, to)
        &&& spec_is_set(v.bb(enemy, PAWN), en_passant_victim(from, to))
        &&& en_passant_victim(from, to) != to
    } else if m.spec_is_promotion() {
        mover == Some(PAWN)
    } else {
        true
    }
}

/// The bitboards after `m`.
pub open spec fn pieces_after(v: BoardView, m: Move) -> Seq<u64> {
    let from = m.spec_from();
    let to = m.spec_to();
    let color = v.side;
    let enemy = (1 - color) as u8;
    let mover = kind_on(v.pieces, color, from)->0;
    let ps1 = match kind_on(v.pieces, enemy, to) {
        Some(k) => remove(v.pieces, piece_slot(enemy, k), to),
        None => v.pieces,
    };
    let ps2 = remove(ps1, piece_slot(color, mover), from);
    if m.spec_is_castle() {
        place(
            place(
                remove(ps2, piece_slot(color, ROOK), castle_rook_from(to)),
                piece_slot(color, ROOK),
                castle_rook_to(to),
            ),
            piece_slot(color, mover),
            to,
        )
    } else if m.spec_is_en_passant() {
        place(
            remove(ps2, piece_slot(enemy, PAWN), en_passant_victim(from, to)),
            piece_slot(color, mover),
            to,
        )
    } else if m.spec_is_promotion() {
        place(ps2, piece_slot(color, m.spec_promotion()), to)
    } else {
        place(ps2, piece_slot(color, mover), to)
    }
}

/// The en-passant square after `m`: the square a pawn passed over when it
/// advanced two ranks.
pub open spec fn en_passant_after(v: BoardView, m: Move) -> Option<u8> {
    let from = m.spec_from();
    let to = m.spec_to();
    if m.spec_flags() == 0 && kind_on(v.pieces, v.side, from) == Some(PAWN) && spec_distance(
        from,
        to,
    ) == 2 {
        Some((((spec_rank_of(from) + spec_rank_of(to)) / 2) * 8 + spec_file_of(from)) as u8)
    } else {
        None
    }
}

/// The history entry that `m` leaves.
pub open spec fn entry_of(v: BoardView, m: Move) -> History {
    History {
        mov: m,
        captured: kind_on(v.pieces, (1 - v.side) as u8, m.spec_to()),
        castling: v.castling,
        en_passant: v.en_passant,
        halfmove: v.halfmove,
        hash: v.hash,
    }
}

/// The board after `m`. Its hash is the one computed from scratch for the
/// new position.
#[verifier::opaque]
pub open spec fn make_spec(v: BoardView, m: Move) -> BoardView {
    let from = m.spec_from();
    let to = m.spec_to();
    let color = v.side;
    let enemy = (1 - color) as u8;
    let mover = kind_on(v.pieces, color, from)->0;
    let captured = kind_on(v.pieces, enemy, to);
    let pieces = pieces_after(v, m);
    let castling = v.castling & !rights_lost(mover, color, from, captured, to);
    let en_passant = en_passant_after(v, m);
    BoardView {
        pieces,
        occupancy: occupancy_of(pieces),
        side: enemy,
        castling,
        en_passant,
        halfmove: if mover == PAWN || captured is Some {
            0
        } else if v.halfmove == u16::MAX {
            u16::MAX
        } else {
            (v.halfmove + 1) as u16
        },
        fullmove: if enemy == WHITE {
            if v.fullmove == u16::MAX {
                0
            } else {
                (v.fullmove + 1) as u16
            }
        } else {
            v.fullmove
        },
        hash: position_hash(pieces, enemy, castling, en_passant),
        history: v.history.push(entry_of(v, m)),
    }
}

/// The bitboards before the last move.
pub open spec fn pieces_before(v: BoardView) -> Seq<u64> {
    let h = v.history.last();
    let m = h.mov;
    let from = m.spec_from();
    let to = m.spec_to();
    let color = (1 - v.side) as u8;
    let enemy = v.side;
    let ps = v.pieces;
    if m.spec_is_castle() {
        place(
            remove(
                place(
                    remove(ps, piece_slot(color, ROOK), castle_rook_to(to)),
                    piece_slot(color, ROOK),
                    castle_rook_from(to),
                ),
                piece_slot(color, KING),
                to,
            ),
            piece_slot(color, KING),
            from,
        )
    } else if m.spec_is_en_passant() {
        place(
            place(remove(ps, piece_slot(color, PAWN), to), piece_slot(color, PAWN), from),
            piece_slot(enemy, PAWN),
            en_passant_victim(from, to),
        )
    } else {
        let moved = if m.spec_is_promotion() {
            m.spec_promotion()
        } else {
            match kind_on(ps, color, to) {
                Some(k) => k,
                None => PAWN,
            }
        };
        let home = if m.spec_is_promotion() {
            PAWN
        } else {
            moved
        };
        let ps1 = place(remove(ps, piece_slot(color, moved), to), piece_slot(color, home), from);
        match h.captured {
            Some(k) => place(ps1, piece_slot(enemy, k), to),
            None => ps1,
        }
    }
}

/// The board before the last move: the bitboards put back, the rest taken
/// from the history entry.
#[verifier::opaque]
pub open spec fn unmake_spec(v: BoardView) -> BoardView {
    let h = v.history.last();
    let color = (1 - v.side) as u8;
    let pieces = pieces_before(v);
    BoardView {
        pieces,
        occupancy: occupancy_of(pieces),
        side: color,
        castling: h.castling,
        en_passant: h.en_passant,
        halfmove: h.halfmove,
        fullmove: if color == BLACK {
            if v.fullmove == 0 {
                u16::MAX
            } else {
                (v.fullmove - 1) as u16
            }
        } else {
            v.fullmove
        },
        hash: h.hash,
        history: v.history.drop_last(),
    }
}

/// The last `n` moves of the history were playable, each led from a valid
/// position to the next, and taking them back retraces those positions.
pub open spec fn history_ok(v: BoardView, n: nat) -> bool
    decreases n,
{
    if n == 0 {
        true
    } else {
        let p = unmake_spec(v);
        &&& v.history.len() > 0
        &&& p.position_ok()
        &&& playable(p, v.history.last().mov)
        &&& make_spec(p, v.history.last().mov) == v
        &&& history_ok(p, (n - 1) as nat)
    }
}

/// The board is valid: the position is, and so is every step of its history.
pub open spec fn board_ok(v: BoardView) -> bool {
    v.position_ok() && history_ok(v, v.history.len())
}

} // verus!
