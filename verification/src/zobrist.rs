//! Zobrist keys: one 64-bit key for each piece on each square, for the side
//! to move, for each castling right and for each en-passant file, drawn in
//! that order from a fixed linear congruential generator.

use vstd::arithmetic::div_mod::{lemma_add_mod_noop, lemma_mod_bound, lemma_small_mod};
use vstd::prelude::*;

verus! {

/// Multiplier of the generator.
pub const LCG_MULTIPLIER: u64 = 6364136223846793005;

/// Increment of the generator.
pub const LCG_INCREMENT: u64 = 1442695040888963407;

/// State from which the key generator starts.
pub const ZOBRIST_SEED: u64 = 0x123456789ABCDEF0;

/// One step of the generator: `state * multiplier + increment` modulo 2^64.
pub open spec fn lcg_step(state: u64) -> u64 {
    ((state as int * LCG_MULTIPLIER as int + LCG_INCREMENT as int) % 0x1_0000_0000_0000_0000) as u64
}

/// The `n`-th value drawn from the generator, counting from 1; the seed is
/// value 0.
pub open spec fn lcg_value(n: nat) -> u64
    decreases n,
{
    if n == 0 {
        ZOBRIST_SEED
    } else {
        lcg_step(lcg_value((n - 1) as nat))
    }
}

/// Key of piece index `idx` (colour times six plus kind) on square `sq`.
pub open spec fn piece_key(idx: int, sq: int) -> u64 {
    lcg_value((idx * 64 + sq + 1) as nat)
}

/// Key that is part of the hash when Black is to move.
pub open spec fn side_key() -> u64 {
    lcg_value(769)
}

/// Key of castling right `i`: 0 white kingside, 1 white queenside,
/// 2 black kingside, 3 black queenside.
pub open spec fn castling_key(i: int) -> u64 {
    lcg_value((770 + i) as nat)
}

/// Key of an en-passant square on file `file`.
pub open spec fn en_passant_key(file: int) -> u64 {
    lcg_value((774 + file) as nat)
}

/// Linear congruential generator.
pub struct Lcg {
    pub state: u64,
}

impl Lcg {
    /// A generator in state `seed`.
    pub fn new(seed: u64) -> (g: Lcg)
        ensures
            g.state == seed,
    {
        Lcg { state: seed }
    }

    /// Advances the generator one step and returns the new state.
    pub fn next(&mut self) -> (r: u64)
        ensures
            r == lcg_step(old(self).state),
            final(self).state == r,
    {
        let ghost s = self.state as int;
        let ghost range = 0x1_0000_0000_0000_0000int;
        let prod = self.state.wrapping_mul(LCG_MULTIPLIER);
        proof {
            assert(s * LCG_MULTIPLIER as int >= 0) by (nonlinear_arith)
                requires
                    s >= 0,
            ;
            lemma_mod_bound(s * LCG_MULTIPLIER as int, range);
            lemma_add_mod_noop(s * LCG_MULTIPLIER as int, LCG_INCREMENT as int, range);
            lemma_small_mod(LCG_INCREMENT as nat, range as nat);
            let p = (s * LCG_MULTIPLIER as int) % range;
            if p + LCG_INCREMENT as int >= range {
                vstd::arithmetic::div_mod::lemma_mod_sub_multiples_vanish(
                    p + LCG_INCREMENT as int,
                    range,
                );
                lemma_small_mod((p + LCG_INCREMENT as int - range) as nat, range as nat);
            } else {
                lemma_small_mod((p + LCG_INCREMENT as int) as nat, range as nat);
            }
        }
        self.state = prod.wrapping_add(LCG_INCREMENT);
        self.state
    }
}

/// Table of Zobrist keys.
pub struct Zobrist {
    /// Key of each piece index on each square; white pawn to king are
    /// indices 0 to 5, black pawn to king 6 to 11.
    pub pieces: [[u64; 64]; 12],
    /// Key for Black to move.
    pub side: u64,
    /// Keys of the four castling rights.
    pub castling: [u64; 4],
    /// Keys of the eight en-passant files.
    pub en_passant: [u64; 8],
}

impl Zobrist {
    /// Whether the table holds the keys of the fixed generator.
    pub open spec fn wf(&self) -> bool {
        &&& forall|p: int, s: int|
            0 <= p < 12 && 0 <= s < 64 ==> (#[trigger] self.pieces[p][s]) == piece_key(p, s)
        &&& self.side == side_key()
        &&& forall|i: int| 0 <= i < 4 ==> (#[trigger] self.castling[i]) == castling_key(i)
        &&& forall|i: int| 0 <= i < 8 ==> (#[trigger] self.en_passant[i]) == en_passant_key(i)
    }

    /// Builds the table from the fixed seed.
    pub fn new() -> (z: Zobrist)
        ensures
            z.wf(),
    {
        let mut rng = Lcg::new(ZOBRIST_SEED);
        let mut pieces: [[u64; 64]; 12] = [[0u64; 64]; 12];
        let mut piece: usize = 0;
        while piece < 12
            invariant
                piece <= 12,
                rng.state == lcg_value((piece * 64) as nat),
                forall|p: int, s: int|
                    0 <= p < piece && 0 <= s < 64 ==> (#[trigger] pieces[p][s]) == piece_key(p, s),
            decreases 12 - piece,
        {
            let mut sq: usize = 0;
            while sq < 64
                invariant
                    piece < 12,
                    sq <= 64,
                    rng.state == lcg_value((piece * 64 + sq) as nat),
                    forall|p: int, s: int|
                        0 <= p < piece && 0 <= s < 64 ==> (#[trigger] pieces[p][s]) == piece_key(
                            p,
                            s,
                        ),
                    forall|s: int|
                        0 <= s < sq ==> (#[trigger] pieces[piece as int][s]) == piece_key(
                            piece as int,
                            s,
                        ),
                decreases 64 - sq,
            {
                let key = rng.next();
                pieces[piece][sq] = key;
                sq += 1;
            }
            piece += 1;
        }
        let side = rng.next();
        let mut castling: [u64; 4] = [0u64; 4];
        let mut i: usize = 0;
        while i < 4
            invariant
                i <= 4,
                rng.state == lcg_value((769 + i) as nat),
                forall|j: int| 0 <= j < i ==> (#[trigger] castling[j]) == castling_key(j),
            decreases 4 - i,
        {
            let key = rng.next();
            castling[i] = key;
            i += 1;
        }
        let mut en_passant: [u64; 8] = [0u64; 8];
        let mut i: usize = 0;
        while i < 8
            invariant
                i <= 8,
                rng.state == lcg_value((773 + i) as nat),
                forall|j: int| 0 <= j < i ==> (#[trigger] en_passant[j]) == en_passant_key(j),
            decreases 8 - i,
        {
            let key = rng.next();
            en_passant[i] = key;
            i += 1;
        }
        Zobrist { pieces, side, castling, en_passant }
    }

    /// Row of the piece table for a piece kind (0 pawn to 5 king) of a
    /// colour (0 white, 1 black).
    pub open spec fn spec_piece_index(piece: u8, color: u8) -> usize {
        (color as usize * 6 + piece as usize) as usize
    }

    /// Row of the piece table for a piece kind of a colour.
    #[verifier::when_used_as_spec(spec_piece_index)]
    pub fn piece_index(piece: u8, color: u8) -> (idx: usize)
        ensures
            idx == Zobrist::spec_piece_index(piece, color),
            idx == color * 6 + piece,
    {
        (color as usize * 6) + piece as usize
    }
}

impl Default for Zobrist {
    /// The table of the fixed seed.
    fn default() -> (z: Zobrist)
        ensures
            z.wf(),
    {
        Zobrist::new()
    }
}

} // verus!
