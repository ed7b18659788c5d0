//! Attack sets: which squares a knight, a king, a pawn or a sliding piece
//! on a given square attacks, and whether a square is attacked by a side.

use crate::bits::{group_bit_lemmas, lemma_lsb};
use crate::board::Board;
use crate::position::{BoardView, BISHOP, KING, KNIGHT, PAWN, QUEEN, ROOK, WHITE};
use crate::utils::{bit_at, file_of, lsb, rank_of, spec_is_set};
use vstd::prelude::*;

verus! {

/// Rank of a square as an integer.
pub open spec fn rank_i(sq: u8) -> int {
    sq as int / 8
}

/// File of a square as an integer.
pub open spec fn file_i(sq: u8) -> int {
    sq as int % 8
}

/// `b` lies `dr` ranks and `df` files from `a`.
pub open spec fn step_to(a: u8, dr: int, df: int, b: u8) -> bool {
    rank_i(b) == rank_i(a) + dr && file_i(b) == file_i(a) + df
}

/// A knight on `a` attacks `b`.
pub open spec fn knight_hits(a: u8, b: u8) -> bool {
    step_to(a, -2, -1, b) || step_to(a, -2, 1, b) || step_to(a, -1, -2, b) || step_to(a, -1, 2, b)
        || step_to(a, 1, -2, b) || step_to(a, 1, 2, b) || step_to(a, 2, -1, b) || step_to(
        a,
        2,
        1,
        b,
    )
}

/// A king on `a` attacks `b`.
pub open spec fn king_hits(a: u8, b: u8) -> bool {
    step_to(a, -1, -1, b) || step_to(a, -1, 0, b) || step_to(a, -1, 1, b) || step_to(a, 0, -1, b)
        || step_to(a, 0, 1, b) || step_to(a, 1, -1, b) || step_to(a, 1, 0, b) || step_to(
        a,
        1,
        1,
        b,
    )
}

/// A pawn of `color` on `a` attacks `b`: one rank forward, one file aside.
pub open spec fn pawn_hits(a: u8, color: u8, b: u8) -> bool {
    if color == WHITE {
        step_to(a, 1, -1, b) || step_to(a, 1, 1, b)
    } else {
        step_to(a, -1, -1, b) || step_to(a, -1, 1, b)
    }
}

/// `n` steps in a direction whose sign is that of `d`.
pub open spec fn scaled(n: int, d: int) -> int {
    if d > 0 {
        n
    } else if d < 0 {
        -n
    } else {
        0
    }
}

/// Number of steps from `a` to `b` along direction (`dr`, `df`); 0 when `b`
/// does not lie on that ray.
pub open spec fn ray_index(a: u8, dr: int, df: int, b: u8) -> int {
    let n = if dr != 0 {
        scaled(rank_i(b) - rank_i(a), dr)
    } else {
        scaled(file_i(b) - file_i(a), df)
    };
    if n >= 1 && step_to(a, scaled(n, dr), scaled(n, df), b) {
        n
    } else {
        0
    }
}

/// The square `i` steps from `a` along direction (`dr`, `df`).
pub open spec fn ray_square(a: u8, dr: int, df: int, i: int) -> u8 {
    ((rank_i(a) + scaled(i, dr)) * 8 + file_i(a) + scaled(i, df)) as u8
}

/// The first `n - 1` squares of the ray from `a` are empty.
pub open spec fn open_path(a: u8, dr: int, df: int, n: int, occ: u64) -> bool {
    forall|i: int| 1 <= i < n ==> !spec_is_set(occ, #[trigger] ray_square(a, dr, df, i))
}

/// A slider on `a` attacks `b` along direction (`dr`, `df`): `b` lies on the
/// ray and every square before it is empty.
pub open spec fn ray_hits(a: u8, dr: int, df: int, b: u8, occ: u64) -> bool {
    ray_index(a, dr, df, b) >= 1 && open_path(a, dr, df, ray_index(a, dr, df, b), occ)
}

/// A rook on `a` attacks `b` when `occ` is occupied.
pub open spec fn rook_hits(a: u8, b: u8, occ: u64) -> bool {
    ray_hits(a, 1, 0, b, occ) || ray_hits(a, -1, 0, b, occ) || ray_hits(a, 0, 1, b, occ)
        || ray_hits(a, 0, -1, b, occ)
}

/// A bishop on `a` attacks `b` when `occ` is occupied.
pub open spec fn bishop_hits(a: u8, b: u8, occ: u64) -> bool {
    ray_hits(a, 1, 1, b, occ) || ray_hits(a, 1, -1, b, occ) || ray_hits(a, -1, 1, b, occ)
        || ray_hits(a, -1, -1, b, occ)
}

/// A queen on `a` attacks `b` when `occ` is occupied.
pub open spec fn queen_hits(a: u8, b: u8, occ: u64) -> bool {
    rook_hits(a, b, occ) || bishop_hits(a, b, occ)
}

/// A piece of the given kind other than a pawn, standing on `a`, attacks `b`.
pub open spec fn piece_hits(kind: u8, a: u8, b: u8, occ: u64) -> bool {
    if kind == KNIGHT {
        knight_hits(a, b)
    } else if kind == BISHOP {
        bishop_hits(a, b, occ)
    } else if kind == ROOK {
        rook_hits(a, b, occ)
    } else if kind == QUEEN {
        queen_hits(a, b, occ)
    } else if kind == KING {
        king_hits(a, b)
    } else {
        false
    }
}

/// Adds to `bb` the square `dr` ranks and `df` files from (`r`, `f`), if it
/// is on the board.
fn add_step(bb: u64, sq: u8, dr: i8, df: i8) -> (out: u64)
    requires
        sq < 64,
        -2 <= dr <= 2,
        -2 <= df <= 2,
    ensures
        forall|t: u8|
            t < 64 ==> (#[trigger] spec_is_set(out, t) <==> spec_is_set(bb, t) || step_to(
                sq,
                dr as int,
                df as int,
                t,
            )),
{
    let r: i8 = rank_of(sq) as i8 + dr;
    let f: i8 = file_of(sq) as i8 + df;
    if r >= 0 && r < 8 && f >= 0 && f < 8 {
        let target: u8 = (r as u8) * 8 + (f as u8);
        proof {
            broadcast use group_bit_lemmas;

        }
        bb | bit_at(target)
    } else {
        bb
    }
}

/// Squares that a knight on `sq` attacks.
pub fn knight_attacks(sq: u8) -> (bb: u64)
    requires
        sq < 64,
    ensures
        forall|t: u8| t < 64 ==> (#[trigger] spec_is_set(bb, t) <==> knight_hits(sq, t)),
{
    let mut bb: u64 = 0;
    proof {
        broadcast use group_bit_lemmas;

    }
    bb = add_step(bb, sq, -2, -1);
    bb = add_step(bb, sq, -2, 1);
    bb = add_step(bb, sq, -1, -2);
    bb = add_step(bb, sq, -1, 2);
    bb = add_step(bb, sq, 1, -2);
    bb = add_step(bb, sq, 1, 2);
    bb = add_step(bb, sq, 2, -1);
    bb = add_step(bb, sq, 2, 1);
    bb
}

/// Squares that a king on `sq` attacks.
pub fn king_attacks(sq: u8) -> (bb: u64)
    requires
        sq < 64,
    ensures
        forall|t: u8| t < 64 ==> (#[trigger] spec_is_set(bb, t) <==> king_hits(sq, t)),
{
    let mut bb: u64 = 0;
    proof {
        broadcast use group_bit_lemmas;

    }
    bb = add_step(bb, sq, -1, -1);
    bb = add_step(bb, sq, -1, 0);
    bb = add_step(bb, sq, -1, 1);
    bb = add_step(bb, sq, 0, -1);
    bb = add_step(bb, sq, 0, 1);
    bb = add_step(bb, sq, 1, -1);
    bb = add_step(bb, sq, 1, 0);
    bb = add_step(bb, sq, 1, 1);
    bb
}

/// Squares that a pawn of `color` on `sq` attacks.
pub fn pawn_attacks(sq: u8, color: u8) -> (bb: u64)
    requires
        sq < 64,
    ensures
        forall|t: u8| t < 64 ==> (#[trigger] spec_is_set(bb, t) <==> pawn_hits(sq, color, t)),
{
    let mut bb: u64 = 0;
    proof {
        broadcast use group_bit_lemmas;

    }
    if color == WHITE {
        bb = add_step(bb, sq, 1, -1);
        bb = add_step(bb, sq, 1, 1);
    } else {
        bb = add_step(bb, sq, -1, -1);
        bb = add_step(bb, sq, -1, 1);
    }
    bb
}

/// Squares attacked along one ray from `sq`: every square up to and
/// including the first occupied one.
pub fn ray_attacks(sq: u8, dr: i8, df: i8, occupied: u64) -> (bb: u64)
    requires
        sq < 64,
        -1 <= dr <= 1,
        -1 <= df <= 1,
        dr != 0 || df != 0,
    ensures
        forall|t: u8|
            t < 64 ==> (#[trigger] spec_is_set(bb, t) <==> ray_hits(
                sq,
                dr as int,
                df as int,
                t,
                occupied,
            )),
{
    let mut attacks: u64 = 0;
    let mut r: i8 = rank_of(sq) as i8 + dr;
    let mut f: i8 = file_of(sq) as i8 + df;
    let mut n: i8 = 1;
    let mut blocked = false;
    proof {
        broadcast use group_bit_lemmas;

    }
    while !blocked && r >= 0 && r < 8 && f >= 0 && f < 8
        invariant
            sq < 64,
            -1 <= dr <= 1,
            -1 <= df <= 1,
            dr != 0 || df != 0,
            1 <= n <= 9,
            r as int == rank_i(sq) + scaled(n as int, dr as int),
            f as int == file_i(sq) + scaled(n as int, df as int),
            !blocked ==> open_path(sq, dr as int, df as int, n as int, occupied),
            !blocked ==> forall|t: u8|
                t < 64 ==> (#[trigger] spec_is_set(attacks, t) <==> 1 <= ray_index(
                    sq,
                    dr as int,
                    df as int,
                    t,
                ) < n),
            blocked ==> forall|t: u8|
                t < 64 ==> (#[trigger] spec_is_set(attacks, t) <==> ray_hits(
                    sq,
                    dr as int,
                    df as int,
                    t,
                    occupied,
                )),
        decreases (if blocked { 0int } else { 10 - n }),
    {
        let target: u8 = (r as u8) * 8 + (f as u8);
        let ghost before = attacks;
        attacks = attacks | bit_at(target);
        proof {
            broadcast use group_bit_lemmas;

            assert(target == ray_square(sq, dr as int, df as int, n as int));
            assert forall|t: u8| t < 64 implies (#[trigger] spec_is_set(attacks, t) <==> 1
                <= ray_index(sq, dr as int, df as int, t) < n + 1) by {
                assert(spec_is_set(attacks, t) == (spec_is_set(before, t) || t == target));
                assert((t == target) <==> ray_index(sq, dr as int, df as int, t) == n);
            }
        }
        if occupied & bit_at(target) != 0 {
            blocked = true;
            proof {
                assert forall|t: u8| t < 64 implies (#[trigger] spec_is_set(attacks, t) <==> ray_hits(
                    sq,
                    dr as int,
                    df as int,
                    t,
                    occupied,
                )) by {
                    let k = ray_index(sq, dr as int, df as int, t);
                    if k > n {
                        assert(spec_is_set(
                            occupied,
                            ray_square(sq, dr as int, df as int, n as int),
                        ));
                    }
                }
            }
        } else {
            proof {
                assert forall|i: int| 1 <= i < n + 1 implies !spec_is_set(
                    occupied,
                    #[trigger] ray_square(sq, dr as int, df as int, i),
                ) by {
                    if i == n {
                    }
                }
            }
            r = r + dr;
            f = f + df;
            n = n + 1;
        }
    }
    proof {
        if !blocked {
            assert forall|t: u8| t < 64 implies (#[trigger] spec_is_set(attacks, t) <==> ray_hits(
                sq,
                dr as int,
                df as int,
                t,
                occupied,
            )) by {
                let k = ray_index(sq, dr as int, df as int, t);
                if k >= 1 {
                    assert(k < n);
                    assert forall|i: int| 1 <= i < k implies !spec_is_set(
                        occupied,
                        #[trigger] ray_square(sq, dr as int, df as int, i),
                    ) by {
                    }
                }
            }
        }
    }
    attacks
}

/// Squares that a rook on `sq` attacks.
pub fn rook_attacks(sq: u8, occupied: u64) -> (bb: u64)
    requires
        sq < 64,
    ensures
        forall|t: u8| t < 64 ==> (#[trigger] spec_is_set(bb, t) <==> rook_hits(sq, t, occupied)),
{
    let north = ray_attacks(sq, 1, 0, occupied);
    let south = ray_attacks(sq, -1, 0, occupied);
    let east = ray_attacks(sq, 0, 1, occupied);
    let west = ray_attacks(sq, 0, -1, occupied);
    proof {
        broadcast use group_bit_lemmas;

    }
    north | south | east | west
}

/// Squares that a bishop on `sq` attacks.
pub fn bishop_attacks(sq: u8, occupied: u64) -> (bb: u64)
    requires
        sq < 64,
    ensures
        forall|t: u8| t < 64 ==> (#[trigger] spec_is_set(bb, t) <==> bishop_hits(sq, t, occupied)),
{
    let north_east = ray_attacks(sq, 1, 1, occupied);
    let north_west = ray_attacks(sq, 1, -1, occupied);
    let south_east = ray_attacks(sq, -1, 1, occupied);
    let south_west = ray_attacks(sq, -1, -1, occupied);
    proof {
        broadcast use group_bit_lemmas;

    }
    north_east | north_west | south_east | south_west
}

/// Squares that a queen on `sq` attacks.
pub fn queen_attacks(sq: u8, occupied: u64) -> (bb: u64)
    requires
        sq < 64,
    ensures
        forall|t: u8| t < 64 ==> (#[trigger] spec_is_set(bb, t) <==> queen_hits(sq, t, occupied)),
{
    let straight = rook_attacks(sq, occupied);
    let diagonal = bishop_attacks(sq, occupied);
    proof {
        broadcast use group_bit_lemmas;

    }
    straight | diagonal
}

/// Two boards share a square exactly if their intersection is not empty.
pub proof fn lemma_intersect(a: u64, b: u64)
    ensures
        (a & b != 0) <==> exists|t: u8| t < 64 && #[trigger] spec_is_set(a, t) && spec_is_set(b, t),
{
    broadcast use group_bit_lemmas;

    if a & b != 0 {
        lemma_lsb(a & b);
        let t = crate::bits::spec_lsb(a & b);
        assert(spec_is_set(a & b, t));
        assert(spec_is_set(a, t) && spec_is_set(b, t));
    }
    if exists|t: u8| t < 64 && #[trigger] spec_is_set(a, t) && spec_is_set(b, t) {
        let t = choose|t: u8| t < 64 && #[trigger] spec_is_set(a, t) && spec_is_set(b, t);
        assert(spec_is_set(a & b, t));
    }
}

/// A piece of side `by` on square `t` attacks `sq`, seen from `sq`: a pawn
/// stands where a pawn of the other colour on `sq` would attack, a knight a
/// knight's move away, a king next to it, a bishop or queen on an open
/// diagonal, a rook or queen on an open rank or file.
pub open spec fn attacker_on(v: BoardView, sq: u8, by: u8, t: u8) -> bool {
    let occ = v.all_occupancy();
    ||| (spec_is_set(v.bb(by, PAWN), t) && pawn_hits(sq, (1 - by) as u8, t))
    ||| (spec_is_set(v.bb(by, KNIGHT), t) && knight_hits(sq, t))
    ||| (spec_is_set(v.bb(by, KING), t) && king_hits(sq, t))
    ||| ((spec_is_set(v.bb(by, BISHOP), t) || spec_is_set(v.bb(by, QUEEN), t)) && bishop_hits(
        sq,
        t,
        occ,
    ))
    ||| ((spec_is_set(v.bb(by, ROOK), t) || spec_is_set(v.bb(by, QUEEN), t)) && rook_hits(
        sq,
        t,
        occ,
    ))
}

/// Square `sq` is attacked by side `by`.
pub open spec fn attacked(v: BoardView, sq: u8, by: u8) -> bool {
    exists|t: u8| t < 64 && #[trigger] attacker_on(v, sq, by, t)
}

/// Square of the king of a colour: the lowest one if there are several,
/// 64 if there is none.
pub open spec fn king_square(v: BoardView, color: u8) -> u8 {
    crate::bits::spec_lsb(v.bb(color, KING))
}

/// The side to move is in check.
pub open spec fn in_check_spec(v: BoardView) -> bool {
    king_square(v, v.side) < 64 && attacked(v, king_square(v, v.side), (1 - v.side) as u8)
}

/// Whether a square is attacked by the given side.
pub fn is_square_attacked(board: &Board, sq: u8, by_color: u8) -> (r: bool)
    requires
        sq < 64,
        by_color <= 1,
    ensures
        r == attacked(board@, sq, by_color),
{
    let occupied = board.all_occupancy();
    let by = by_color as usize;
    let ghost v = board@;
    assert(forall|k: u8| k <= 5 ==> v.bb(by_color, k) == board.pieces[by as int][k as int]);
    let pawn_atk = pawn_attacks(sq, 1 - by_color);
    let pawns = board.pieces[by][0];
    proof {
        lemma_intersect(pawn_atk, pawns);
    }
    if pawn_atk & pawns != 0 {
        proof {
            let t = choose|t: u8| t < 64 && #[trigger] spec_is_set(pawn_atk, t) && spec_is_set(pawns, t);
            assert(attacker_on(v, sq, by_color, t));
        }
        return true;
    }
    let knight_atk = knight_attacks(sq);
    let knights = board.pieces[by][1];
    proof {
        lemma_intersect(knight_atk, knights);
    }
    if knight_atk & knights != 0 {
        proof {
            let t = choose|t: u8|
                t < 64 && #[trigger] spec_is_set(knight_atk, t) && spec_is_set(knights, t);
            assert(attacker_on(v, sq, by_color, t));
        }
        return true;
    }
    let king_atk = king_attacks(sq);
    let kings = board.pieces[by][5];
    proof {
        lemma_intersect(king_atk, kings);
    }
    if king_atk & kings != 0 {
        proof {
            let t = choose|t: u8| t < 64 && #[trigger] spec_is_set(king_atk, t) && spec_is_set(kings, t);
            assert(attacker_on(v, sq, by_color, t));
        }
        return true;
    }
    let bishop_atk = bishop_attacks(sq, occupied);
    let diagonal = board.pieces[by][2] | board.pieces[by][4];
    proof {
        broadcast use group_bit_lemmas;

        lemma_intersect(bishop_atk, diagonal);
    }
    if bishop_atk & diagonal != 0 {
        proof {
            let t = choose|t: u8|
                t < 64 && #[trigger] spec_is_set(bishop_atk, t) && spec_is_set(diagonal, t);
            assert(attacker_on(v, sq, by_color, t));
        }
        return true;
    }
    let rook_atk = rook_attacks(sq, occupied);
    let straight = board.pieces[by][3] | board.pieces[by][4];
    proof {
        broadcast use group_bit_lemmas;

        lemma_intersect(rook_atk, straight);
    }
    if rook_atk & straight != 0 {
        proof {
            let t = choose|t: u8|
                t < 64 && #[trigger] spec_is_set(rook_atk, t) && spec_is_set(straight, t);
            assert(attacker_on(v, sq, by_color, t));
        }
        return true;
    }
    proof {
        assert forall|t: u8| t < 64 implies !#[trigger] attacker_on(v, sq, by_color, t) by {
            assert(!(spec_is_set(pawn_atk, t) && spec_is_set(pawns, t)));
            assert(!(spec_is_set(knight_atk, t) && spec_is_set(knights, t)));
            assert(!(spec_is_set(king_atk, t) && spec_is_set(kings, t)));
            assert(!(spec_is_set(bishop_atk, t) && spec_is_set(diagonal, t)));
            assert(!(spec_is_set(rook_atk, t) && spec_is_set(straight, t)));
        }
    }
    false
}

/// Whether the side to move is in check; `false` when it has no king.
pub fn in_check(board: &Board) -> (r: bool)
    requires
        board.side <= 1,
    ensures
        r == in_check_spec(board@),
{
    let king_sq = lsb(board.pieces[board.side as usize][5]);
    if king_sq >= 64 {
        return false;
    }
    is_square_attacked(board, king_sq, 1 - board.side)
}

} // verus!
