//! Proofs about the hash computed from scratch: how it changes when one
//! square of one bitboard changes, and when a castling right is given up.

use crate::bits::{group_bit_lemmas, lemma_xor_laws};
use crate::position::{
    bb_hash, castling_hash, disjoint, kind_on, pieces_hash, place, remove, right_bit, right_hash,
    union_of, vacant,
};
use crate::utils::{spec_clear_bit, spec_is_set, spec_set_bit};
use crate::zobrist::piece_key;
use vstd::prelude::*;

verus! {

/// Exclusive-or of three values does not depend on their order.
pub proof fn lemma_xor_swap(a: u64, b: u64, c: u64)
    ensures
        (a ^ b) ^ c == (a ^ c) ^ b,
        a ^ (b ^ c) == (a ^ b) ^ c,
        a ^ (b ^ c) == (a ^ c) ^ b,
        (a ^ c) ^ (b ^ c) == a ^ b,
{
    assert((a ^ b) ^ c == (a ^ c) ^ b && a ^ (b ^ c) == (a ^ b) ^ c && (a ^ c) ^ (b ^ c) == a ^ b)
        by (bit_vector);
}

/// Toggling a key in any one of four parts toggles it in their exclusive-or.
pub proof fn lemma_xor4(a: u64, b: u64, c: u64, d: u64, k: u64)
    ensures
        (a ^ k) ^ b ^ c ^ d == (a ^ b ^ c ^ d) ^ k,
        a ^ (b ^ k) ^ c ^ d == (a ^ b ^ c ^ d) ^ k,
        a ^ b ^ (c ^ k) ^ d == (a ^ b ^ c ^ d) ^ k,
        a ^ b ^ c ^ (d ^ k) == (a ^ b ^ c ^ d) ^ k,
{
    assert((a ^ k) ^ b ^ c ^ d == (a ^ b ^ c ^ d) ^ k && a ^ (b ^ k) ^ c ^ d == (a ^ b ^ c ^ d) ^ k
        && a ^ b ^ (c ^ k) ^ d == (a ^ b ^ c ^ d) ^ k && a ^ b ^ c ^ (d ^ k) == (a ^ b ^ c ^ d)
        ^ k) by (bit_vector);
}

/// The hash of a bitboard below `n` depends only on the squares below `n`.
pub proof fn lemma_bb_hash_toggle(a: u64, b: u64, idx: int, s: u8, n: nat)
    requires
        s < 64,
        n <= 64,
        forall|t: u8| t < 64 && t != s ==> spec_is_set(a, t) == spec_is_set(b, t),
        spec_is_set(a, s) != spec_is_set(b, s),
    ensures
        bb_hash(b, idx, n) == bb_hash(a, idx, n) ^ (if s < n {
            piece_key(idx, s as int)
        } else {
            0
        }),
    decreases n,
{
    if n == 0 {
        lemma_xor_laws(0, 0, 0);
    } else {
        let m = (n - 1) as nat;
        lemma_bb_hash_toggle(a, b, idx, s, m);
        let ha = bb_hash(a, idx, m);
        let ta: u64 = if spec_is_set(a, m as u8) {
            piece_key(idx, m as int)
        } else {
            0
        };
        let k = piece_key(idx, s as int);
        if s as nat == m {
            lemma_xor_laws(ha, k, 0);
        } else if (s as nat) < m {
            lemma_xor_swap(ha, k, ta);
        } else {
            lemma_xor_laws(ha, 0, 0);
            lemma_xor_laws(ha ^ ta, 0, 0);
        }
    }
}

/// The empty bitboard hashes to zero.
pub proof fn lemma_bb_hash_zero(idx: int, n: nat)
    ensures
        bb_hash(0, idx, n) == 0,
    decreases n,
{
    broadcast use group_bit_lemmas;

    if n > 0 {
        lemma_bb_hash_zero(idx, (n - 1) as nat);
        lemma_xor_laws(0, 0, 0);
    }
}

/// Replacing one bitboard replaces its part of the hash.
pub proof fn lemma_pieces_hash_update(ps: Seq<u64>, idx: int, bb: u64, n: nat)
    requires
        ps.len() == 12,
        0 <= idx < 12,
        n <= 12,
    ensures
        pieces_hash(ps.update(idx, bb), n) == pieces_hash(ps, n) ^ (if idx < n {
            bb_hash(ps[idx], idx, 64) ^ bb_hash(bb, idx, 64)
        } else {
            0
        }),
    decreases n,
{
    if n == 0 {
        lemma_xor_laws(0, 0, 0);
    } else {
        let m = (n - 1) as nat;
        lemma_pieces_hash_update(ps, idx, bb, m);
        let hp = pieces_hash(ps, m);
        let old_part = bb_hash(ps[idx], idx, 64);
        let new_part = bb_hash(bb, idx, 64);
        if idx == m {
            lemma_xor_laws(hp, 0, 0);
            assert((hp ^ old_part) ^ (old_part ^ new_part) == hp ^ new_part) by (bit_vector);
        } else if idx < m {
            let t = bb_hash(ps[m as int], m as int, 64);
            lemma_xor_swap(hp, old_part ^ new_part, t);
        } else {
            let t = bb_hash(ps[m as int], m as int, 64);
            lemma_xor_laws(hp, 0, 0);
            lemma_xor_laws(hp ^ t, 0, 0);
        }
    }
}

/// Taking a piece off a square toggles its key in the hash.
pub proof fn lemma_hash_remove(ps: Seq<u64>, idx: int, sq: u8)
    requires
        ps.len() == 12,
        0 <= idx < 12,
        sq < 64,
        spec_is_set(ps[idx], sq),
    ensures
        pieces_hash(remove(ps, idx, sq), 12) == pieces_hash(ps, 12) ^ piece_key(idx, sq as int),
{
    broadcast use group_bit_lemmas;

    let bb = spec_clear_bit(ps[idx], sq);
    lemma_bb_hash_toggle(ps[idx], bb, idx, sq, 64);
    lemma_pieces_hash_update(ps, idx, bb, 12);
    let h = bb_hash(ps[idx], idx, 64);
    let k = piece_key(idx, sq as int);
    assert(h ^ (h ^ k) == k) by (bit_vector);
}

/// Putting a piece on a square toggles its key in the hash.
pub proof fn lemma_hash_place(ps: Seq<u64>, idx: int, sq: u8)
    requires
        ps.len() == 12,
        0 <= idx < 12,
        sq < 64,
        !spec_is_set(ps[idx], sq),
    ensures
        pieces_hash(place(ps, idx, sq), 12) == pieces_hash(ps, 12) ^ piece_key(idx, sq as int),
{
    broadcast use group_bit_lemmas;

    let bb = spec_set_bit(ps[idx], sq);
    lemma_bb_hash_toggle(ps[idx], bb, idx, sq, 64);
    lemma_pieces_hash_update(ps, idx, bb, 12);
    let h = bb_hash(ps[idx], idx, 64);
    let k = piece_key(idx, sq as int);
    assert(h ^ (h ^ k) == k) by (bit_vector);
}

/// Giving up castling right `i` toggles its key if the right was held and
/// changes nothing otherwise.
pub proof fn lemma_castling_drop(c: u8, i: int)
    requires
        0 <= i < 4,
    ensures
        castling_hash(c & !right_bit(i)) == castling_hash(c) ^ right_hash(c, i),
        c <= 15 ==> c & !right_bit(i) <= 15,
{
    let b: u8 = right_bit(i);
    let d: u8 = c & !b;
    assert(d & 1u8 == (if b == 1 {
        0u8
    } else {
        c & 1u8
    }) && d & 2u8 == (if b == 2 {
        0u8
    } else {
        c & 2u8
    }) && d & 4u8 == (if b == 4 {
        0u8
    } else {
        c & 4u8
    }) && d & 8u8 == (if b == 8 {
        0u8
    } else {
        c & 8u8
    }) && (c <= 15 ==> d <= 15)) by (bit_vector)
        requires
            b == 1 || b == 2 || b == 4 || b == 8,
            d == c & !b,
    ;
    let r0 = right_hash(c, 0);
    let r1 = right_hash(c, 1);
    let r2 = right_hash(c, 2);
    let r3 = right_hash(c, 3);
    let k = right_hash(c, i);
    lemma_xor_laws(k, 0, 0);
    lemma_xor4(r0, r1, r2, r3, k);
}

/// Giving up the rights of a mask one after the other gives up the mask.
pub proof fn lemma_castling_mask(c: u8, mask: u8, x0: u8, x1: u8, x2: u8, x3: u8)
    requires
        c <= 15,
        x0 == (if mask & 1 != 0 {
            c & !1u8
        } else {
            c
        }),
        x1 == (if mask & 2 != 0 {
            x0 & !2u8
        } else {
            x0
        }),
        x2 == (if mask & 4 != 0 {
            x1 & !4u8
        } else {
            x1
        }),
        x3 == (if mask & 8 != 0 {
            x2 & !8u8
        } else {
            x2
        }),
    ensures
        x3 == c & !mask,
{
    assert(x3 == c & !mask) by (bit_vector)
        requires
            c <= 15,
            x0 == (if mask & 1 != 0 {
                c & !1u8
            } else {
                c
            }),
            x1 == (if mask & 2 != 0 {
                x0 & !2u8
            } else {
                x0
            }),
            x2 == (if mask & 4 != 0 {
                x1 & !4u8
            } else {
                x1
            }),
            x3 == (if mask & 8 != 0 {
                x2 & !8u8
            } else {
                x2
            }),
    ;
}

/// Taking a piece off a square keeps the bitboards disjoint.
pub proof fn lemma_disjoint_remove(ps: Seq<u64>, idx: int, sq: u8)
    requires
        ps.len() == 12,
        0 <= idx < 12,
        sq < 64,
        disjoint(ps),
    ensures
        disjoint(remove(ps, idx, sq)),
{
    broadcast use group_bit_lemmas;

    reveal(disjoint);

}

/// Putting a piece on a vacant square keeps the bitboards disjoint.
pub proof fn lemma_disjoint_place(ps: Seq<u64>, idx: int, sq: u8)
    requires
        ps.len() == 12,
        0 <= idx < 12,
        sq < 64,
        disjoint(ps),
        vacant(ps, sq),
    ensures
        disjoint(place(ps, idx, sq)),
{
    broadcast use group_bit_lemmas;

    reveal(disjoint);

}

/// Among disjoint bitboards the kind on a square is the one whose bitboard
/// holds the square.
pub proof fn lemma_kind_on(ps: Seq<u64>, color: u8, kind: u8, sq: u8)
    requires
        ps.len() == 12,
        disjoint(ps),
        color <= 1,
        kind <= 5,
        sq < 64,
    ensures
        (kind_on(ps, color, sq) == Some(kind)) == spec_is_set(ps[color as int * 6 + kind as int], sq),
{
    reveal(disjoint);
    reveal(kind_on);
}

/// A square belongs to a colour's union exactly if one of its kinds is on it.
pub proof fn lemma_union_of(ps: Seq<u64>, color: u8, sq: u8)
    requires
        ps.len() == 12,
        color <= 1,
        sq < 64,
    ensures
        spec_is_set(union_of(ps, color), sq) == (kind_on(ps, color, sq) is Some),
        kind_on(ps, color, sq) is Some ==> kind_on(ps, color, sq)->0 <= 5,
{
    broadcast use group_bit_lemmas;

    reveal(kind_on);

}

} // verus!
