//! Piece values and piece-square tables.

use vstd::prelude::*;

verus! {

/// Material values in centipawns, pawn to king.
pub const PIECE_VALUES: [i32; 6] = [100, 320, 330, 500, 900, 20000];

/// Square bonuses for pawns, indexed by square.
pub const PAWN_PST: [i32; 64] = [
    0, 0, 0, 0, 0, 0, 0, 0,
    50, 50, 50, 50, 50, 50, 50, 50,
    10, 10, 20, 30, 30, 20, 10, 10,
    5, 5, 10, 25, 25, 10, 5, 5,
    0, 0, 0, 20, 20, 0, 0, 0,
    5, -5, -10, 0, 0, -10, -5, 5,
    5, 10, 10, -20, -20, 10, 10, 5,
    0, 0, 0, 0, 0, 0, 0, 0,
];

/// Square bonuses for knights, indexed by square.
pub const KNIGHT_PST: [i32; 64] = [
    -50, -40, -30, -30, -30, -30, -40, -50,
    -40, -20, 0, 0, 0, 0, -20, -40,
    -30, 0, 10, 15, 15, 10, 0, -30,
    -30, 5, 15, 20, 20, 15, 5, -30,
    -30, 0, 15, 20, 20, 15, 0, -30,
    -30, 5, 10, 15, 15, 10, 5, -30,
    -40, -20, 0, 5, 5, 0, -20, -40,
    -50, -40, -30, -30, -30, -30, -40, -50,
];

/// Square bonuses for bishops, indexed by square.
pub const BISHOP_PST: [i32; 64] = [
    -20, -10, -10, -10, -10, -10, -10, -20,
    -10, 0, 0, 0, 0, 0, 0, -10,
    -10, 0, 5, 10, 10, 5, 0, -10,
    -10, 5, 5, 10, 10, 5, 5, -10,
    -10, 0, 10, 10, 10, 10, 0, -10,
    -10, 10, 10, 10, 10, 10, 10, -10,
    -10, 5, 0, 0, 0, 0, 5, -10,
    -20, -10, -10, -10, -10, -10, -10, -20,
];

/// Square bonuses for rooks, indexed by square.
pub const ROOK_PST: [i32; 64] = [
    0, 0, 0, 0, 0, 0, 0, 0,
    5, 10, 10, 10, 10, 10, 10, 5,
    -5, 0, 0, 0, 0, 0, 0, -5,
    -5, 0, 0, 0, 0, 0, 0, -5,
    -5, 0, 0, 0, 0, 0, 0, -5,
    -5, 0, 0, 0, 0, 0, 0, -5,
    -5, 0, 0, 0, 0, 0, 0, -5,
    0, 0, 0, 5, 5, 0, 0, 0,
];

/// Square bonuses for queens, indexed by square.
pub const QUEEN_PST: [i32; 64] = [
    -20, -10, -10, -5, -5, -10, -10, -20,
    -10, 0, 0, 0, 0, 0, 0, -10,
    -10, 0, 5, 5, 5, 5, 0, -10,
    -5, 0, 5, 5, 5, 5, 0, -5,
    0, 0, 5, 5, 5, 5, 0, -5,
    -10, 5, 5, 5, 5, 5, 0, -10,
    -10, 0, 5, 0, 0, 0, 0, -10,
    -20, -10, -10, -5, -5, -10, -10, -20,
];

/// Square bonuses for the king in the middle game, indexed by square.
pub const KING_PST_MG: [i32; 64] = [
    -30, -40, -40, -50, -50, -40, -40, -30,
    -30, -40, -40, -50, -50, -40, -40, -30,
    -30, -40, -40, -50, -50, -40, -40, -30,
    -30, -40, -40, -50, -50, -40, -40, -30,
    -20, -30, -30, -40, -40, -30, -30, -20,
    -10, -20, -20, -20, -20, -20, -20, -10,
    20, 20, 0, 0, 0, 0, 20, 20,
    20, 30, 10, 0, 0, 10, 30, 20,
];

/// Entry `idx` of the table of a piece kind; 0 for a kind that has none.
pub open spec fn pst_entry(kind: u8, idx: int) -> int {
    if kind == 0 {
        PAWN_PST[idx] as int
    } else if kind == 1 {
        KNIGHT_PST[idx] as int
    } else if kind == 2 {
        BISHOP_PST[idx] as int
    } else if kind == 3 {
        ROOK_PST[idx] as int
    } else if kind == 4 {
        QUEEN_PST[idx] as int
    } else if kind == 5 {
        KING_PST_MG[idx] as int
    } else {
        0
    }
}

/// Material value of a piece kind.
pub open spec fn piece_value(kind: u8) -> int {
    if kind <= 5 {
        PIECE_VALUES[kind as int] as int
    } else {
        0
    }
}

/// Entry `idx` of the table of a piece kind.
pub fn pst_lookup(kind: u8, idx: usize) -> (r: i32)
    requires
        kind <= 5,
        idx < 64,
    ensures
        r == pst_entry(kind, idx as int),
        -50 <= r <= 50,
{
    proof {
        lemma_pst_bound(kind, idx as int);
    }
    if kind == 0 {
        PAWN_PST[idx]
    } else if kind == 1 {
        KNIGHT_PST[idx]
    } else if kind == 2 {
        BISHOP_PST[idx]
    } else if kind == 3 {
        ROOK_PST[idx]
    } else if kind == 4 {
        QUEEN_PST[idx]
    } else {
        KING_PST_MG[idx]
    }
}

/// Material value of a piece kind.
pub fn value_lookup(kind: u8) -> (r: i32)
    requires
        kind <= 5,
    ensures
        r == piece_value(kind),
        100 <= r <= 20000,
{
    PIECE_VALUES[kind as usize]
}

/// No entry of a piece-square table is beyond 50 centipawns.
pub proof fn lemma_pst_bound(kind: u8, idx: int)
    requires
        0 <= idx < 64,
    ensures
        -50 <= pst_entry(kind, idx) <= 50,
{
    lemma_table_bound(PAWN_PST, idx);
    lemma_table_bound(KNIGHT_PST, idx);
    lemma_table_bound(BISHOP_PST, idx);
    lemma_table_bound(ROOK_PST, idx);
    lemma_table_bound(QUEEN_PST, idx);
    lemma_table_bound(KING_PST_MG, idx);
}

/// Every entry of a table whose entries are listed lies within 50.
proof fn lemma_table_bound(table: [i32; 64], idx: int)
    requires
        0 <= idx < 64,
        table == PAWN_PST || table == KNIGHT_PST || table == BISHOP_PST || table == ROOK_PST || table == QUEEN_PST || table == KING_PST_MG,
    ensures
        -50 <= table[idx] <= 50,
{
}

} // verus!
