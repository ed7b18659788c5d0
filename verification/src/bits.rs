//! Facts about single bits of a 64-bit board, proved once and used by every
//! module that manipulates bitboards.

use crate::utils::{spec_clear_bit, spec_is_set};
use vstd::prelude::*;
use vstd::std_specs::bits::{
    axiom_u64_leading_zeros, axiom_u64_trailing_zeros, u64_leading_zeros, u64_trailing_zeros,
};

verus! {

/// Index of the lowest occupied square, 64 for the empty board.
pub open spec fn spec_lsb(bb: u64) -> u8 {
    if bb == 0 {
        64
    } else {
        u64_trailing_zeros(bb) as u8
    }
}

/// Index of the highest occupied square, 64 for the empty board.
pub open spec fn spec_msb(bb: u64) -> u8 {
    if bb == 0 {
        64
    } else {
        (63 - u64_leading_zeros(bb)) as u8
    }
}

/// Number of occupied squares among the squares below `n`.
pub open spec fn count_below(bb: u64, n: nat) -> nat
    decreases n,
{
    if n == 0 {
        0
    } else {
        count_below(bb, (n - 1) as nat) + if spec_is_set(bb, (n - 1) as u8) {
            1nat
        } else {
            0nat
        }
    }
}

/// Number of occupied squares.
pub open spec fn spec_popcount(bb: u64) -> nat {
    count_below(bb, 64)
}

/// How the bitwise operators act on one square.
pub broadcast proof fn lemma_bit_or(a: u64, b: u64, t: u8)
    requires
        t < 64,
    ensures
        #[trigger] spec_is_set(a | b, t) == (spec_is_set(a, t) || spec_is_set(b, t)),
{
    assert(((a | b) & (1u64 << t) != 0) == ((a & (1u64 << t) != 0) || (b & (1u64 << t) != 0)))
        by (bit_vector);
}

pub broadcast proof fn lemma_bit_and(a: u64, b: u64, t: u8)
    requires
        t < 64,
    ensures
        #[trigger] spec_is_set(a & b, t) == (spec_is_set(a, t) && spec_is_set(b, t)),
{
    assert(((a & b) & (1u64 << t) != 0) == ((a & (1u64 << t) != 0) && (b & (1u64 << t) != 0)))
        by (bit_vector)
        requires
            t < 64,
    ;
}

pub broadcast proof fn lemma_bit_not(a: u64, t: u8)
    requires
        t < 64,
    ensures
        #[trigger] spec_is_set(!a, t) == !spec_is_set(a, t),
{
    assert(((!a) & (1u64 << t) != 0) == !(a & (1u64 << t) != 0)) by (bit_vector)
        requires
            t < 64,
    ;
}

pub broadcast proof fn lemma_bit_single(s: u8, t: u8)
    requires
        s < 64,
        t < 64,
    ensures
        #[trigger] spec_is_set(1u64 << s, t) == (s == t),
{
    assert(((1u64 << s) & (1u64 << t) != 0) == (s == t)) by (bit_vector)
        requires
            s < 64,
            t < 64,
    ;
}

pub broadcast proof fn lemma_bit_zero(t: u8)
    ensures
        !#[trigger] spec_is_set(0, t),
{
    assert(0u64 & (1u64 << t) == 0) by (bit_vector);
}

pub broadcast group group_bit_lemmas {
    lemma_bit_or,
    lemma_bit_and,
    lemma_bit_not,
    lemma_bit_single,
    lemma_bit_zero,
}

/// Two boards with the same occupied squares are the same board.
pub proof fn lemma_bit_ext(a: u64, b: u64)
    requires
        forall|t: u8| t < 64 ==> spec_is_set(a, t) == spec_is_set(b, t),
    ensures
        a == b,
{
    if a != b {
        let x: u64 = a ^ b;
        assert(x != 0) by (bit_vector)
            requires
                x == a ^ b,
                a != b,
        ;
        axiom_u64_trailing_zeros(x);
        let t: u8 = u64_trailing_zeros(x) as u8;
        let tt: u64 = t as u64;
        assert((a & (1u64 << t) != 0) != (b & (1u64 << t) != 0)) by (bit_vector)
            requires
                x == a ^ b,
                tt == t as u64,
                t < 64,
                (x >> tt) & 1u64 == 1u64,
        ;
        assert(spec_is_set(a, t) != spec_is_set(b, t));
    }
}

/// The lowest occupied square is occupied and nothing below it is.
pub proof fn lemma_lsb(bb: u64)
    requires
        bb != 0,
    ensures
        spec_lsb(bb) < 64,
        spec_is_set(bb, spec_lsb(bb)),
        forall|t: u8| t < spec_lsb(bb) ==> !spec_is_set(bb, t),
        bb & ((bb - 1) as u64) == spec_clear_bit(bb, spec_lsb(bb)),
{
    axiom_u64_trailing_zeros(bb);
    let n: u8 = spec_lsb(bb);
    let nn: u64 = n as u64;
    assert(bb & (1u64 << n) != 0) by (bit_vector)
        requires
            nn == n as u64,
            n < 64,
            (bb >> nn) & 1u64 == 1u64,
    ;
    assert forall|t: u8| t < n implies !spec_is_set(bb, t) by {
        let tt: u64 = t as u64;
        assert(bb & (1u64 << t) == 0) by (bit_vector)
            requires
                tt == t as u64,
                t < 64,
                (bb >> tt) & 1u64 == 0u64,
        ;
    }
    let k: u64 = (64 - nn) as u64;
    let low: u64 = (bb - 1) as u64;
    assert(bb & low == bb & !(1u64 << n)) by (bit_vector)
        requires
            bb != 0,
            low == (bb - 1) as u64,
            n < 64,
            nn == n as u64,
            k == (64 - nn) as u64,
            bb << k == 0,
            (bb >> nn) & 1u64 == 1u64,
    ;
}

/// The highest occupied square is occupied and nothing above it is.
pub proof fn lemma_msb(bb: u64)
    requires
        bb != 0,
    ensures
        spec_msb(bb) < 64,
        spec_is_set(bb, spec_msb(bb)),
        forall|t: u8| spec_msb(bb) < t < 64 ==> !spec_is_set(bb, t),
{
    axiom_u64_leading_zeros(bb);
    let n: u8 = spec_msb(bb);
    let nn: u64 = n as u64;
    assert(bb & (1u64 << n) != 0) by (bit_vector)
        requires
            nn == n as u64,
            n < 64,
            (bb >> nn) & 1u64 != 0u64,
    ;
    assert forall|t: u8| n < t < 64 implies !spec_is_set(bb, t) by {
        let tt: u64 = t as u64;
        assert(bb & (1u64 << t) == 0) by (bit_vector)
            requires
                tt == t as u64,
                t < 64,
                (bb >> tt) & 1u64 == 0u64,
        ;
    }
}

/// The count of occupied squares below `n` depends only on those squares.
pub proof fn lemma_count_same(a: u64, b: u64, n: nat)
    requires
        n <= 64,
        forall|t: u8| t < n ==> spec_is_set(a, t) == spec_is_set(b, t),
    ensures
        count_below(a, n) == count_below(b, n),
    decreases n,
{
    if n > 0 {
        lemma_count_same(a, b, (n - 1) as nat);
    }
}

/// Removing an occupied square lowers the count by one.
pub proof fn lemma_count_clear(bb: u64, s: u8, n: nat)
    requires
        s < 64,
        n <= 64,
        spec_is_set(bb, s),
    ensures
        count_below(bb, n) == count_below(spec_clear_bit(bb, s), n) + if s < n {
            1nat
        } else {
            0nat
        },
    decreases n,
{
    broadcast use group_bit_lemmas;

    if n > 0 {
        lemma_count_clear(bb, s, (n - 1) as nat);
    }
}

/// The empty board holds no square.
pub proof fn lemma_count_zero(n: nat)
    ensures
        count_below(0, n) == 0,
    decreases n,
{
    broadcast use group_bit_lemmas;

    if n > 0 {
        lemma_count_zero((n - 1) as nat);
    }
}

/// A count never exceeds the number of squares looked at.
pub proof fn lemma_count_bound(bb: u64, n: nat)
    ensures
        count_below(bb, n) <= n,
    decreases n,
{
    if n > 0 {
        lemma_count_bound(bb, (n - 1) as nat);
    }
}

/// Exclusive-or is associative and commutative, and every value undoes itself.
pub proof fn lemma_xor_laws(a: u64, b: u64, c: u64)
    ensures
        a ^ b == b ^ a,
        (a ^ b) ^ c == a ^ (b ^ c),
        a ^ a == 0,
        a ^ 0 == a,
        0 ^ a == a,
        (a ^ b) ^ b == a,
{
    assert(a ^ b == b ^ a && (a ^ b) ^ c == a ^ (b ^ c) && a ^ a == 0 && a ^ 0 == a && 0 ^ a == a
        && (a ^ b) ^ b == a) by (bit_vector);
}

/// File and rank split a square index into its low and high parts.
pub proof fn lemma_file_rank(sq: u8)
    ensures
        (sq & 7) as int == sq as int % 8,
        (sq >> 3) as int == sq as int / 8,
        (sq ^ 56) as int == if sq < 64 {
            (7 - sq as int / 8) * 8 + sq as int % 8
        } else {
            (sq ^ 56) as int
        },
{
    assert(sq & 7 == sq % 8 && sq >> 3 == sq / 8) by (bit_vector);
    if sq < 64 {
        let r: u8 = sq / 8;
        let f: u8 = sq % 8;
        assert(sq ^ 56 == (((7 - r) as u8 * 8) as u8 + f) as u8) by (bit_vector)
            requires
                sq < 64,
                r == sq / 8,
                f == sq % 8,
        ;
    }
}

} // verus!
