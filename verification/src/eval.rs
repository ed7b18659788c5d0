//! Static evaluation: material, piece-square tables and mobility, seen
//! from the side to move.

use crate::attacks::piece_hits;
use crate::bits::{count_below, group_bit_lemmas, lemma_count_clear, lemma_file_rank, spec_popcount};
use crate::board::Board;
use crate::movegen::{bishop_attacks, knight_attacks, rook_attacks};
use crate::position::{BoardView, BISHOP, BLACK, KNIGHT, ROOK, WHITE};
use crate::tables::{lemma_pst_bound, piece_value, pst_entry, pst_lookup, value_lookup};
use crate::utils::{pop_lsb, popcount, spec_clear_bit, spec_is_set};
use vstd::prelude::*;

verus! {

/// The square that mirrors `sq` across the middle of the board: same
/// file, rank counted from the other side.
pub open spec fn mirror_index(sq: int) -> int {
    (7 - sq / 8) * 8 + sq % 8
}

/// What a piece of the given kind and colour is worth on a square: its
/// material value and its square bonus, which Black reads mirrored.
pub open spec fn square_score(kind: u8, color: u8, sq: int) -> int {
    piece_value(kind) + pst_entry(
        kind,
        if color == WHITE {
            sq
        } else {
            mirror_index(sq)
        },
    )
}

/// Sum of `square_score` over the squares of `bb` below `n`.
pub open spec fn placement_sum(bb: u64, kind: u8, color: u8, n: nat) -> int
    decreases n,
{
    if n == 0 {
        0
    } else {
        placement_sum(bb, kind, color, (n - 1) as nat) + if spec_is_set(bb, (n - 1) as u8) {
            square_score(kind, color, n - 1)
        } else {
            0
        }
    }
}

/// Number of squares below `n` that a piece of the given kind on `sq`
/// attacks and that its own side does not hold.
pub open spec fn reach_count(kind: u8, sq: u8, occ: u64, own: u64, n: nat) -> int
    decreases n,
{
    if n == 0 {
        0
    } else {
        reach_count(kind, sq, occ, own, (n - 1) as nat) + if piece_hits(kind, sq, (n - 1) as u8, occ)
            && !spec_is_set(own, (n - 1) as u8) {
            1int
        } else {
            0int
        }
    }
}

/// Sum of `reach_count` over the pieces of `bb` on squares below `n`.
pub open spec fn mobility_sum(bb: u64, kind: u8, occ: u64, own: u64, n: nat) -> int
    decreases n,
{
    if n == 0 {
        0
    } else {
        mobility_sum(bb, kind, occ, own, (n - 1) as nat) + if spec_is_set(bb, (n - 1) as u8) {
            reach_count(kind, (n - 1) as u8, occ, own, 64)
        } else {
            0
        }
    }
}

/// Material and square bonuses of one kind: White's less Black's.
pub open spec fn kind_score(v: BoardView, kind: u8) -> int {
    placement_sum(v.bb(WHITE, kind), kind, WHITE, 64) - placement_sum(
        v.bb(BLACK, kind),
        kind,
        BLACK,
        64,
    )
}

/// Material and square bonuses of all kinds: White's less Black's.
pub open spec fn material_score(v: BoardView) -> int {
    kind_score(v, 0) + kind_score(v, 1) + kind_score(v, 2) + kind_score(v, 3) + kind_score(v, 4)
        + kind_score(v, 5)
}

/// Mobility of the pieces of one kind of a colour.
pub open spec fn mobility_of(v: BoardView, color: u8, kind: u8) -> int {
    mobility_sum(v.bb(color, kind), kind, v.all_occupancy(), v.occupancy[color as int], 64)
}

/// Mobility of a colour: the squares that its knights, bishops and rooks
/// attack and that it does not hold itself.
pub open spec fn mobility(v: BoardView, color: u8) -> int {
    mobility_of(v, color, KNIGHT) + mobility_of(v, color, BISHOP) + mobility_of(v, color, ROOK)
}

/// The score from White's side: material and square bonuses, and five
/// centipawns for each square of mobility that White has more than Black.
pub open spec fn white_score(v: BoardView) -> int {
    material_score(v) + 5 * (mobility(v, WHITE) - mobility(v, BLACK))
}

/// The score from the side to move.
#[verifier::opaque]
pub open spec fn evaluate_spec(v: BoardView) -> int {
    if v.side == WHITE {
        white_score(v)
    } else {
        -white_score(v)
    }
}

/// No evaluation is beyond this many centipawns.
pub const EVAL_BOUND: i32 = 16_000_000;

/// Taking a piece off the board takes its score off the sum.
pub proof fn lemma_placement_clear(bb: u64, s: u8, kind: u8, color: u8, n: nat)
    requires
        s < 64,
        n <= 64,
        spec_is_set(bb, s),
    ensures
        placement_sum(bb, kind, color, n) == placement_sum(spec_clear_bit(bb, s), kind, color, n)
            + if s < n {
            square_score(kind, color, s as int)
        } else {
            0
        },
    decreases n,
{
    broadcast use group_bit_lemmas;

    if n > 0 {
        lemma_placement_clear(bb, s, kind, color, (n - 1) as nat);
    }
}

/// The empty board scores nothing, and a board scores within bounds.
pub proof fn lemma_placement_bound(bb: u64, kind: u8, color: u8, n: nat)
    requires
        kind <= 5,
        n <= 64,
    ensures
        bb == 0 ==> placement_sum(bb, kind, color, n) == 0,
        0 <= placement_sum(bb, kind, color, n) <= n * 20050,
    decreases n,
{
    broadcast use group_bit_lemmas;

    if n > 0 {
        lemma_placement_bound(bb, kind, color, (n - 1) as nat);
        let t = n - 1;
        if color == WHITE {
            lemma_pst_bound(kind, t);
        } else {
            lemma_pst_bound(kind, mirror_index(t));
        }
    }
}

/// Taking a piece off the board takes its mobility off the sum.
pub proof fn lemma_mobility_clear(bb: u64, s: u8, kind: u8, occ: u64, own: u64, n: nat)
    requires
        s < 64,
        n <= 64,
        spec_is_set(bb, s),
    ensures
        mobility_sum(bb, kind, occ, own, n) == mobility_sum(spec_clear_bit(bb, s), kind, occ, own, n)
            + if s < n {
            reach_count(kind, s, occ, own, 64)
        } else {
            0
        },
    decreases n,
{
    broadcast use group_bit_lemmas;

    if n > 0 {
        lemma_mobility_clear(bb, s, kind, occ, own, (n - 1) as nat);
    }
}

/// A reach count is a count of squares.
pub proof fn lemma_reach_bound(kind: u8, sq: u8, occ: u64, own: u64, n: nat)
    ensures
        0 <= reach_count(kind, sq, occ, own, n) <= n,
    decreases n,
{
    if n > 0 {
        lemma_reach_bound(kind, sq, occ, own, (n - 1) as nat);
    }
}

/// The empty board has no mobility, and a board has it within bounds.
pub proof fn lemma_mobility_bound(bb: u64, kind: u8, occ: u64, own: u64, n: nat)
    requires
        n <= 64,
    ensures
        bb == 0 ==> mobility_sum(bb, kind, occ, own, n) == 0,
        0 <= mobility_sum(bb, kind, occ, own, n) <= n * 64,
    decreases n,
{
    broadcast use group_bit_lemmas;

    if n > 0 {
        lemma_mobility_bound(bb, kind, occ, own, (n - 1) as nat);
        lemma_reach_bound(kind, (n - 1) as u8, occ, own, 64);
    }
}

/// The squares of a board that holds what a piece attacks and its side
/// does not hold are counted by `reach_count`.
pub proof fn lemma_reach_counted(bb: u64, kind: u8, sq: u8, occ: u64, own: u64, n: nat)
    requires
        n <= 64,
        forall|t: u8|
            t < 64 ==> (#[trigger] spec_is_set(bb, t) <==> piece_hits(kind, sq, t, occ)
                && !spec_is_set(own, t)),
    ensures
        count_below(bb, n) == reach_count(kind, sq, occ, own, n),
    decreases n,
{
    if n > 0 {
        lemma_reach_counted(bb, kind, sq, occ, own, (n - 1) as nat);
    }
}

/// Material and square bonuses of the pieces of one bitboard.
pub fn placement_score(bb: u64, kind: u8, color: u8) -> (score: i32)
    requires
        kind <= 5,
        color <= 1,
    ensures
        score == placement_sum(bb, kind, color, 64),
        0 <= score <= 64 * 20050,
{
    let mut rest: u64 = bb;
    let mut score: i32 = 0;
    let value = value_lookup(kind);
    proof {
        lemma_placement_bound(bb, kind, color, 64);
    }
    while rest != 0
        invariant
            kind <= 5,
            color <= 1,
            value == piece_value(kind),
            score + placement_sum(rest, kind, color, 64) == placement_sum(bb, kind, color, 64),
            0 <= placement_sum(bb, kind, color, 64) <= 64 * 20050,
            0 <= score,
        decreases count_below(rest, 64),
    {
        let ghost before = rest;
        let sq = pop_lsb(&mut rest);
        let idx: usize = if color == WHITE {
            sq as usize
        } else {
            (sq ^ 56) as usize
        };
        proof {
            lemma_file_rank(sq);
            lemma_placement_clear(before, sq, kind, color, 64);
            lemma_count_clear(before, sq, 64);
            lemma_placement_bound(rest, kind, color, 64);
            lemma_pst_bound(kind, idx as int);
        }
        score = score + (value + pst_lookup(kind, idx));
    }
    proof {
        lemma_placement_bound(rest, kind, color, 64);
    }
    score
}

/// Mobility of the pieces of one kind (knight, bishop or rook) of a colour.
pub fn mobility_score(board: &Board, color: u8, kind: u8) -> (m: i32)
    requires
        color <= 1,
        kind == KNIGHT || kind == BISHOP || kind == ROOK,
    ensures
        m == mobility_of(board@, color, kind),
        0 <= m <= 64 * 64,
{
    let occupied = board.all_occupancy();
    let own = board.occupancy[color as usize];
    let pieces: u64 = board.pieces[color as usize][kind as usize];
    let mut rest: u64 = pieces;
    let mut m: i32 = 0;
    proof {
        lemma_mobility_bound(pieces, kind, occupied, own, 64);
    }
    while rest != 0
        invariant
            kind == KNIGHT || kind == BISHOP || kind == ROOK,
            m + mobility_sum(rest, kind, occupied, own, 64) == mobility_sum(
                pieces,
                kind,
                occupied,
                own,
                64,
            ),
            0 <= mobility_sum(pieces, kind, occupied, own, 64) <= 64 * 64,
            0 <= m,
        decreases count_below(rest, 64),
    {
        let ghost before = rest;
        let sq = pop_lsb(&mut rest);
        let attacks = if kind == KNIGHT {
            knight_attacks(sq)
        } else if kind == BISHOP {
            bishop_attacks(sq, occupied)
        } else {
            rook_attacks(sq, occupied)
        };
        let reach = popcount(attacks & !own);
        proof {
            broadcast use group_bit_lemmas;

            lemma_mobility_clear(before, sq, kind, occupied, own, 64);
            lemma_count_clear(before, sq, 64);
            lemma_mobility_bound(rest, kind, occupied, own, 64);
            lemma_reach_counted(attacks & !own, kind, sq, occupied, own, 64);
            lemma_reach_bound(kind, sq, occupied, own, 64);
        }
        m = m + reach as i32;
    }
    proof {
        lemma_mobility_bound(rest, kind, occupied, own, 64);
    }
    m
}

/// Mobility of a colour.
pub fn count_mobility(board: &Board, color: u8) -> (m: i32)
    requires
        color <= 1,
    ensures
        m == mobility(board@, color),
        0 <= m <= 3 * 64 * 64,
{
    mobility_score(board, color, KNIGHT) + mobility_score(board, color, BISHOP) + mobility_score(
        board,
        color,
        ROOK,
    )
}

/// Five centipawns for each square of mobility that White has more than Black.
pub fn calculate_mobility(board: &Board) -> (bonus: i32)
    ensures
        bonus == 5 * (mobility(board@, WHITE) - mobility(board@, BLACK)),
        -5 * 3 * 64 * 64 <= bonus <= 5 * 3 * 64 * 64,
{
    let white_mobility = count_mobility(board, WHITE);
    let black_mobility = count_mobility(board, BLACK);
    (white_mobility - black_mobility) * 5
}

/// Material and square bonuses of one kind: White's less Black's.
pub fn kind_balance(board: &Board, kind: u8) -> (score: i32)
    requires
        kind <= 5,
    ensures
        score == kind_score(board@, kind),
        -64 * 20050 <= score <= 64 * 20050,
{
    placement_score(board.pieces[0][kind as usize], kind, WHITE) - placement_score(
        board.pieces[1][kind as usize],
        kind,
        BLACK,
    )
}

/// Evaluates the position in centipawns from the side to move.
pub fn evaluate(board: &Board) -> (score: i32)
    ensures
        score == evaluate_spec(board@),
        -EVAL_BOUND <= score <= EVAL_BOUND,
{
    let mut score: i32 = 0;
    proof {
        reveal(evaluate_spec);
    }
    score = score + kind_balance(board, 0);
    score = score + kind_balance(board, 1);
    score = score + kind_balance(board, 2);
    score = score + kind_balance(board, 3);
    score = score + kind_balance(board, 4);
    score = score + kind_balance(board, 5);
    score = score + calculate_mobility(board);
    if board.side == WHITE {
        score
    } else {
        -score
    }
}

/// Neither side can mate: only the kings are left, or the kings and one
/// knight or bishop.
pub open spec fn insufficient_spec(v: BoardView) -> bool {
    let n = spec_popcount(v.all_occupancy());
    n == 2 || (n == 3 && (v.bb(WHITE, KNIGHT) | v.bb(BLACK, KNIGHT) | v.bb(WHITE, BISHOP) | v.bb(
        BLACK,
        BISHOP,
    )) != 0)
}

/// Whether the material left cannot give mate.
pub fn is_insufficient_material(board: &Board) -> (r: bool)
    ensures
        r == insufficient_spec(board@),
{
    let n = popcount(board.all_occupancy());
    if n == 2 {
        return true;
    }
    if n == 3 {
        let minors = board.pieces[0][1] | board.pieces[1][1] | board.pieces[0][2]
            | board.pieces[1][2];
        return minors != 0;
    }
    false
}

} // verus!
