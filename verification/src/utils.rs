//! Bitboard helpers, the packed move type, square names and the search clock.

use crate::bits::{
    count_below, lemma_count_bound, lemma_count_clear, lemma_count_zero, lemma_file_rank, lemma_lsb,
    lemma_msb, spec_lsb, spec_msb, spec_popcount,
};
use std::time::{Duration, Instant};
use vstd::prelude::*;

verus! {

// ---------------------------------------------------------------------------
// Bitboards
// ---------------------------------------------------------------------------
/// The board that holds exactly square `sq`.
pub open spec fn spec_bit_at(sq: u8) -> u64 {
    1u64 << sq
}

/// Whether square `sq` is occupied in `bb`.
pub open spec fn spec_is_set(bb: u64, sq: u8) -> bool {
    bb & (1u64 << sq) != 0
}

/// `bb` with square `sq` added.
pub open spec fn spec_set_bit(bb: u64, sq: u8) -> u64 {
    bb | (1u64 << sq)
}

/// `bb` with square `sq` removed.
pub open spec fn spec_clear_bit(bb: u64, sq: u8) -> u64 {
    bb & !(1u64 << sq)
}

/// Number of occupied squares.
pub fn popcount(bb: u64) -> (n: u32)
    ensures
        n == spec_popcount(bb),
        n <= 64,
{
    let mut rest: u64 = bb;
    let mut n: u32 = 0;
    proof {
        lemma_count_bound(bb, 64);
    }
    while rest != 0
        invariant
            n + count_below(rest, 64) == count_below(bb, 64),
            count_below(bb, 64) <= 64,
        decreases count_below(rest, 64),
    {
        proof {
            lemma_lsb(rest);
            lemma_count_clear(rest, spec_lsb(rest), 64);
        }
        rest = rest & (rest - 1);
        n = n + 1;
    }
    proof {
        lemma_count_zero(64);
    }
    n
}

/// Index of the lowest occupied square; 64 when the board is empty.
pub fn lsb(bb: u64) -> (sq: u8)
    ensures
        sq == spec_lsb(bb),
        bb == 0 ==> sq == 64,
        bb != 0 ==> sq < 64 && spec_is_set(bb, sq) && forall|t: u8| t < sq ==> !spec_is_set(bb, t),
{
    if bb == 0 {
        64
    } else {
        proof {
            lemma_lsb(bb);
            vstd::std_specs::bits::axiom_u64_trailing_zeros(bb);
        }
        bb.trailing_zeros() as u8
    }
}

/// Index of the highest occupied square; 64 when the board is empty.
pub fn msb(bb: u64) -> (sq: u8)
    ensures
        sq == spec_msb(bb),
        bb == 0 ==> sq == 64,
        bb != 0 ==> sq < 64 && spec_is_set(bb, sq) && forall|t: u8|
            sq < t < 64 ==> !spec_is_set(bb, t),
{
    if bb == 0 {
        64
    } else {
        proof {
            lemma_msb(bb);
            vstd::std_specs::bits::axiom_u64_leading_zeros(bb);
        }
        63 - bb.leading_zeros() as u8
    }
}

/// Removes the lowest occupied square from `bb` and returns its index.
pub fn pop_lsb(bb: &mut u64) -> (sq: u8)
    requires
        *old(bb) != 0,
    ensures
        sq == spec_lsb(*old(bb)),
        sq < 64,
        spec_is_set(*old(bb), sq),
        forall|t: u8| t < sq ==> !spec_is_set(*old(bb), t),
        *final(bb) == spec_clear_bit(*old(bb), sq),
{
    proof {
        lemma_lsb(*bb);
    }
    let sq = lsb(*bb);
    *bb = *bb & (*bb - 1);
    sq
}

/// The board that holds exactly square `sq`.
#[verifier::when_used_as_spec(spec_bit_at)]
pub fn bit_at(sq: u8) -> (bb: u64)
    requires
        sq < 64,
    ensures
        bb == spec_bit_at(sq),
{
    1u64 << sq
}

/// Whether square `sq` is occupied in `bb`.
#[verifier::when_used_as_spec(spec_is_set)]
pub fn is_set(bb: u64, sq: u8) -> (r: bool)
    requires
        sq < 64,
    ensures
        r == spec_is_set(bb, sq),
{
    (bb & (1u64 << sq)) != 0
}

/// `bb` with square `sq` added.
#[verifier::when_used_as_spec(spec_set_bit)]
pub fn set_bit(bb: u64, sq: u8) -> (r: u64)
    requires
        sq < 64,
    ensures
        r == spec_set_bit(bb, sq),
{
    bb | (1u64 << sq)
}

/// `bb` with square `sq` removed.
#[verifier::when_used_as_spec(spec_clear_bit)]
pub fn clear_bit(bb: u64, sq: u8) -> (r: u64)
    requires
        sq < 64,
    ensures
        r == spec_clear_bit(bb, sq),
{
    bb & !(1u64 << sq)
}

// ---------------------------------------------------------------------------
// Squares
// ---------------------------------------------------------------------------
/// File of a square: 0 for the a-file, 7 for the h-file.
pub open spec fn spec_file_of(sq: u8) -> u8 {
    (sq % 8) as u8
}

/// Rank of a square: 0 for the first rank.
pub open spec fn spec_rank_of(sq: u8) -> u8 {
    (sq / 8) as u8
}

/// The square on the given rank and file.
pub open spec fn spec_square(rank: u8, file: u8) -> u8 {
    (rank * 8 + file) as u8
}

/// Chebyshev distance: the larger of the file and rank differences.
pub open spec fn spec_distance(sq1: u8, sq2: u8) -> int {
    let df = vstd::math::abs(spec_file_of(sq1) as int - spec_file_of(sq2) as int) as int;
    let dr = vstd::math::abs(spec_rank_of(sq1) as int - spec_rank_of(sq2) as int) as int;
    if df >= dr {
        df
    } else {
        dr
    }
}

/// File of a square: `sq & 7`.
#[verifier::when_used_as_spec(spec_file_of)]
pub fn file_of(sq: u8) -> (f: u8)
    ensures
        f == spec_file_of(sq),
        f < 8,
{
    proof {
        lemma_file_rank(sq);
    }
    sq & 7
}

/// Rank of a square: `sq >> 3`.
#[verifier::when_used_as_spec(spec_rank_of)]
pub fn rank_of(sq: u8) -> (r: u8)
    ensures
        r == spec_rank_of(sq),
        sq < 64 ==> r < 8,
{
    proof {
        lemma_file_rank(sq);
    }
    sq >> 3
}

/// The square on the given rank and file.
#[verifier::when_used_as_spec(spec_square)]
pub fn square(rank: u8, file: u8) -> (sq: u8)
    requires
        rank * 8 + file <= u8::MAX,
    ensures
        sq == spec_square(rank, file),
{
    rank * 8 + file
}

/// Chebyshev distance between two squares.
pub fn distance(sq1: u8, sq2: u8) -> (d: u8)
    ensures
        d == spec_distance(sq1, sq2),
{
    let f1 = file_of(sq1);
    let f2 = file_of(sq2);
    let r1 = rank_of(sq1);
    let r2 = rank_of(sq2);
    let file_dist: u8 = if f1 >= f2 {
        f1 - f2
    } else {
        f2 - f1
    };
    let rank_dist: u8 = if r1 >= r2 {
        r1 - r2
    } else {
        r2 - r1
    };
    if file_dist >= rank_dist {
        file_dist
    } else {
        rank_dist
    }
}

/// Letter of a file: 'a' for file 0.
pub open spec fn spec_file_char(file: u8) -> char {
    (97 + file) as u8 as char
}

/// Digit of a rank: '1' for rank 0.
pub open spec fn spec_rank_char(rank: u8) -> char {
    (49 + rank) as u8 as char
}

/// Letter of a file: 'a' for file 0, 'h' for file 7.
pub fn file_char(file: u8) -> (c: char)
    requires
        97 + file <= u8::MAX,
    ensures
        c == spec_file_char(file),
{
    (97u8 + file) as char
}

/// Digit of a rank: '1' for rank 0, '8' for rank 7.
pub fn rank_char(rank: u8) -> (c: char)
    requires
        49 + rank <= u8::MAX,
    ensures
        c == spec_rank_char(rank),
{
    (49u8 + rank) as char
}

/// The two characters that name a square: file letter, rank digit.
pub open spec fn spec_square_name(sq: u8) -> Seq<char> {
    seq![spec_file_char(spec_file_of(sq)), spec_rank_char(spec_rank_of(sq))]
}

/// File index that a character names, in either case.
pub open spec fn spec_file_index(c: char) -> Option<u8> {
    if 'a' <= c && c <= 'h' {
        Some((c as u32 - 97) as u8)
    } else if 'A' <= c && c <= 'H' {
        Some((c as u32 - 65) as u8)
    } else {
        None
    }
}

/// Rank index that a digit names.
pub open spec fn spec_rank_index(c: char) -> Option<u8> {
    if '1' <= c && c <= '8' {
        Some((c as u32 - 49) as u8)
    } else {
        None
    }
}

/// The square that two characters name, if they name one.
pub open spec fn spec_square_of_chars(c0: char, c1: char) -> Option<u8> {
    match (spec_file_index(c0), spec_rank_index(c1)) {
        (Some(f), Some(r)) => Some((r * 8 + f) as u8),
        _ => None,
    }
}

/// The square that a text names: exactly two characters, a file letter in
/// either case and a rank digit.
pub open spec fn spec_parse_square(s: Seq<char>) -> Option<u8> {
    if s.len() != 2 {
        None
    } else {
        spec_square_of_chars(s[0], s[1])
    }
}

/// `String::push` of the standard library, taken on trust: it appends
/// the character to the text and changes nothing else of it.
pub assume_specification[ String::push ](s: &mut String, ch: char)
    ensures
        final(s)@ == old(s)@.push(ch),
;

/// Name of a square in algebraic notation, such as "e4".
pub fn square_name(sq: u8) -> (name: String)
    ensures
        name@ == spec_square_name(sq),
{
    let file = file_of(sq);
    let rank = rank_of(sq);
    let mut name = String::new();
    name.push((97u8 + file) as char);
    name.push((49u8 + rank) as char);
    name
}

/// File index that a character names.
pub fn file_index(c: char) -> (r: Option<u8>)
    ensures
        r == spec_file_index(c),
        r is Some ==> r->0 < 8,
{
    if c >= 'a' && c <= 'h' {
        Some((c as u32 - 97) as u8)
    } else if c >= 'A' && c <= 'H' {
        Some((c as u32 - 65) as u8)
    } else {
        None
    }
}

/// Rank index that a digit names.
pub fn rank_index(c: char) -> (r: Option<u8>)
    ensures
        r == spec_rank_index(c),
        r is Some ==> r->0 < 8,
{
    if c >= '1' && c <= '8' {
        Some((c as u32 - 49) as u8)
    } else {
        None
    }
}

/// The square that two characters name.
pub fn square_of_chars(c0: char, c1: char) -> (r: Option<u8>)
    ensures
        r == spec_square_of_chars(c0, c1),
        r is Some ==> r->0 < 64,
{
    match file_index(c0) {
        Some(f) => match rank_index(c1) {
            Some(r) => Some(r * 8 + f),
            None => None,
        },
        None => None,
    }
}

/// Reads a square in algebraic notation; `None` unless the text is a file
/// letter followed by a rank digit.
pub fn parse_square(s: &str) -> (r: Option<u8>)
    ensures
        r == spec_parse_square(s@),
        r is Some ==> r->0 < 64,
{
    if s.unicode_len() != 2 {
        return None;
    }
    square_of_chars(s.get_char(0), s.get_char(1))
}

/// Naming a square and reading the name back gives the square.
pub proof fn lemma_square_name_round_trip(sq: u8)
    requires
        sq < 64,
    ensures
        spec_parse_square(spec_square_name(sq)) == Some(sq),
{
}

// ---------------------------------------------------------------------------
// Moves
// ---------------------------------------------------------------------------
/// Flag of an ordinary move.
pub const FLAG_NORMAL: u8 = 0;

/// Flag of a castling move, given by the king's two squares.
pub const FLAG_CASTLE: u8 = 1;

/// Flag of an en-passant capture.
pub const FLAG_EN_PASSANT: u8 = 2;

/// Flag of a promotion.
pub const FLAG_PROMOTION: u8 = 3;

/// Why a text is not a move.
#[derive(Clone, Copy, Debug, PartialEq, Eq, Structural)]
pub enum MoveParseError {
    /// The text has neither four nor five characters.
    Length,
    /// The first or the second pair of characters names no square.
    Square,
    /// The fifth character names no promotion piece.
    Promotion,
}

/// A move packed into 16 bits: origin in bits 0-5, destination in bits 6-11,
/// promotion piece less one in bits 12-13, flag in bits 14-15.
#[derive(Copy, Clone, PartialEq, Eq, Debug, Structural)]
pub struct Move(pub u16);

impl Move {
    pub open spec fn spec_new(from: u8, to: u8) -> Move {
        Move(((to as u16) << 6) | (from as u16))
    }

    pub open spec fn spec_with_flags(from: u8, to: u8, flags: u16) -> Move {
        Move(((flags & 3) << 14) | ((to as u16) << 6) | (from as u16))
    }

    pub open spec fn spec_with_promotion(from: u8, to: u8, promotion: u8) -> Move {
        Move((3u16 << 14) | ((((promotion - 1) as u8) as u16) << 12) | ((to as u16) << 6) | (from as u16))
    }

    pub open spec fn spec_from(self) -> u8 {
        (self.0 & 0x3F) as u8
    }

    pub open spec fn spec_to(self) -> u8 {
        ((self.0 >> 6) & 0x3F) as u8
    }

    pub open spec fn spec_flags(self) -> u8 {
        ((self.0 >> 14) & 3) as u8
    }

    pub open spec fn spec_promotion(self) -> u8 {
        (((self.0 >> 12) & 3) + 1) as u8
    }

    pub open spec fn spec_is_castle(self) -> bool {
        self.spec_flags() == 1
    }

    pub open spec fn spec_is_en_passant(self) -> bool {
        self.spec_flags() == 2
    }

    pub open spec fn spec_is_promotion(self) -> bool {
        self.spec_flags() == 3
    }

    /// An ordinary move from `from` to `to`.
    #[verifier::when_used_as_spec(spec_new)]
    pub fn new(from: u8, to: u8) -> (m: Move)
        ensures
            m == Move::spec_new(from, to),
    {
        Move(((to as u16) << 6) | (from as u16))
    }

    /// A move with the given flag; only the two low bits of `flags` count.
    #[verifier::when_used_as_spec(spec_with_flags)]
    pub fn with_flags(from: u8, to: u8, flags: u16) -> (m: Move)
        ensures
            m == Move::spec_with_flags(from, to, flags),
    {
        Move(((flags & 3) << 14) | ((to as u16) << 6) | (from as u16))
    }

    /// A promotion to the given piece: 1 knight, 2 bishop, 3 rook, 4 queen.
    #[verifier::when_used_as_spec(spec_with_promotion)]
    pub fn with_promotion(from: u8, to: u8, promotion: u8) -> (m: Move)
        requires
            1 <= promotion <= 4,
        ensures
            m == Move::spec_with_promotion(from, to, promotion),
    {
        Move((3u16 << 14) | (((promotion - 1) as u16) << 12) | ((to as u16) << 6) | (from as u16))
    }

    /// Origin square.
    #[verifier::when_used_as_spec(spec_from)]
    pub fn from(self) -> (sq: u8)
        ensures
            sq == self.spec_from(),
            sq < 64,
    {
        proof {
            lemma_move_ranges(self);
        }
        (self.0 & 0x3F) as u8
    }

    /// Destination square.
    #[verifier::when_used_as_spec(spec_to)]
    pub fn to(self) -> (sq: u8)
        ensures
            sq == self.spec_to(),
            sq < 64,
    {
        proof {
            lemma_move_ranges(self);
        }
        ((self.0 >> 6) & 0x3F) as u8
    }

    /// Flag: 0 normal, 1 castle, 2 en passant, 3 promotion.
    #[verifier::when_used_as_spec(spec_flags)]
    pub fn flags(self) -> (f: u8)
        ensures
            f == self.spec_flags(),
            f < 4,
    {
        proof {
            lemma_move_ranges(self);
        }
        ((self.0 >> 14) & 3) as u8
    }

    /// Promotion piece: 1 knight, 2 bishop, 3 rook, 4 queen. Meaningful
    /// only when the flag says promotion.
    #[verifier::when_used_as_spec(spec_promotion)]
    pub fn promotion(self) -> (p: u8)
        ensures
            p == self.spec_promotion(),
            1 <= p <= 4,
    {
        proof {
            lemma_move_ranges(self);
        }
        (((self.0 >> 12) & 3) + 1) as u8
    }

    #[verifier::when_used_as_spec(spec_is_castle)]
    pub fn is_castle(self) -> (r: bool)
        ensures
            r == self.spec_is_castle(),
    {
        self.flags() == 1
    }

    #[verifier::when_used_as_spec(spec_is_en_passant)]
    pub fn is_en_passant(self) -> (r: bool)
        ensures
            r == self.spec_is_en_passant(),
    {
        self.flags() == 2
    }

    #[verifier::when_used_as_spec(spec_is_promotion)]
    pub fn is_promotion(self) -> (r: bool)
        ensures
            r == self.spec_is_promotion(),
    {
        self.flags() == 3
    }

    /// Letter of a promotion piece.
    pub open spec fn spec_promotion_char(p: u8) -> char {
        if p == 1 {
            'n'
        } else if p == 2 {
            'b'
        } else if p == 3 {
            'r'
        } else if p == 4 {
            'q'
        } else {
            '?'
        }
    }

    /// Promotion piece that a letter names, in either case.
    pub open spec fn spec_promotion_of_char(c: char) -> Option<u8> {
        if c == 'n' || c == 'N' {
            Some(1u8)
        } else if c == 'b' || c == 'B' {
            Some(2u8)
        } else if c == 'r' || c == 'R' {
            Some(3u8)
        } else if c == 'q' || c == 'Q' {
            Some(4u8)
        } else {
            None
        }
    }

    /// Text of a move: origin, destination, and for a promotion the piece letter.
    pub open spec fn spec_to_string(self) -> Seq<char> {
        let squares = spec_square_name(self.spec_from()) + spec_square_name(self.spec_to());
        if self.spec_is_promotion() {
            squares.push(Self::spec_promotion_char(self.spec_promotion()))
        } else {
            squares
        }
    }

    /// The move that a text names. Four characters name an ordinary move,
    /// five a promotion; anything else names none.
    pub open spec fn spec_from_string(s: Seq<char>) -> Option<Move> {
        if s.len() != 4 && s.len() != 5 {
            None
        } else {
            match (spec_square_of_chars(s[0], s[1]), spec_square_of_chars(s[2], s[3])) {
                (Some(from), Some(to)) => {
                    if s.len() == 5 {
                        match Self::spec_promotion_of_char(s[4]) {
                            Some(p) => Some(Move::spec_with_promotion(from, to, p)),
                            None => None,
                        }
                    } else {
                        Some(Move::spec_new(from, to))
                    }
                },
                _ => None,
            }
        }
    }

    /// The move that a text names, or why it names none: the first fault
    /// found of a wrong length, a pair of characters that names no
    /// square, and a fifth character that names no promotion piece.
    pub open spec fn spec_parse(s: Seq<char>) -> Result<Move, MoveParseError> {
        if s.len() != 4 && s.len() != 5 {
            Err(MoveParseError::Length)
        } else {
            match (spec_square_of_chars(s[0], s[1]), spec_square_of_chars(s[2], s[3])) {
                (Some(from), Some(to)) => {
                    if s.len() == 5 {
                        match Self::spec_promotion_of_char(s[4]) {
                            Some(p) => Ok(Move::spec_with_promotion(from, to, p)),
                            None => Err(MoveParseError::Promotion),
                        }
                    } else {
                        Ok(Move::spec_new(from, to))
                    }
                },
                _ => Err(MoveParseError::Square),
            }
        }
    }

    /// Whether the text form keeps everything the move holds: the flag is
    /// normal with no promotion bits, or it is promotion.
    pub open spec fn text_faithful(self) -> bool {
        self.spec_is_promotion() || (self.spec_flags() == 0 && self.spec_promotion() == 1)
    }

    /// Writes the move in coordinate notation, such as "e2e4" or "e7e8q".
    pub fn to_string(self) -> (s: String)
        ensures
            s@ == self.spec_to_string(),
    {
        let from = self.from();
        let to = self.to();
        let mut s = String::new();
        s.push((97u8 + file_of(from)) as char);
        s.push((49u8 + rank_of(from)) as char);
        s.push((97u8 + file_of(to)) as char);
        s.push((49u8 + rank_of(to)) as char);
        if self.is_promotion() {
            let p = self.promotion();
            let c = if p == 1 {
                'n'
            } else if p == 2 {
                'b'
            } else if p == 3 {
                'r'
            } else {
                'q'
            };
            s.push(c);
        }
        s
    }

    /// Reads a move in coordinate notation, or says why the text is none.
    pub fn parse(s: &str) -> (r: Result<Move, MoveParseError>)
        ensures
            r == Move::spec_parse(s@),
            Move::spec_from_string(s@) == (match r {
                Ok(m) => Some(m),
                Err(_) => None::<Move>,
            }),
    {
        let n = s.unicode_len();
        if n != 4 && n != 5 {
            return Err(MoveParseError::Length);
        }
        let from = match square_of_chars(s.get_char(0), s.get_char(1)) {
            Some(sq) => sq,
            None => { return Err(MoveParseError::Square); },
        };
        let to = match square_of_chars(s.get_char(2), s.get_char(3)) {
            Some(sq) => sq,
            None => { return Err(MoveParseError::Square); },
        };
        if n == 5 {
            let c = s.get_char(4);
            let p: u8 = if c == 'n' || c == 'N' {
                1
            } else if c == 'b' || c == 'B' {
                2
            } else if c == 'r' || c == 'R' {
                3
            } else if c == 'q' || c == 'Q' {
                4
            } else {
                return Err(MoveParseError::Promotion);
            };
            Ok(Move::with_promotion(from, to, p))
        } else {
            Ok(Move::new(from, to))
        }
    }

    /// Reads a move in coordinate notation.
    pub fn from_string(s: &str) -> (r: Option<Move>)
        ensures
            r == Move::spec_from_string(s@),
    {
        let n = s.unicode_len();
        if n != 4 && n != 5 {
            return None;
        }
        let from = match square_of_chars(s.get_char(0), s.get_char(1)) {
            Some(sq) => sq,
            None => { return None; },
        };
        let to = match square_of_chars(s.get_char(2), s.get_char(3)) {
            Some(sq) => sq,
            None => { return None; },
        };
        if n == 5 {
            let c = s.get_char(4);
            let p: u8 = if c == 'n' || c == 'N' {
                1
            } else if c == 'b' || c == 'B' {
                2
            } else if c == 'r' || c == 'R' {
                3
            } else if c == 'q' || c == 'Q' {
                4
            } else {
                return None;
            };
            Some(Move::with_promotion(from, to, p))
        } else {
            Some(Move::new(from, to))
        }
    }
}

/// Every field of a move stays within its bit width.
pub proof fn lemma_move_ranges(m: Move)
    ensures
        m.spec_from() < 64,
        m.spec_to() < 64,
        m.spec_flags() < 4,
        1 <= m.spec_promotion() <= 4,
        m.0 & 0x3F < 64,
        (m.0 >> 6) & 0x3F < 64,
        (m.0 >> 14) & 3 < 4,
        (m.0 >> 12) & 3 < 4,
{
    let v = m.0;
    assert(v & 0x3F < 64 && (v >> 6) & 0x3F < 64 && (v >> 14) & 3 < 4 && (v >> 12) & 3 < 4)
        by (bit_vector);
}

/// A move is determined by its four fields.
pub proof fn lemma_move_ext(a: Move, b: Move)
    requires
        a.spec_from() == b.spec_from(),
        a.spec_to() == b.spec_to(),
        a.spec_flags() == b.spec_flags(),
        a.spec_promotion() == b.spec_promotion(),
    ensures
        a == b,
{
    let x = a.0;
    let y = b.0;
    lemma_move_ranges(a);
    lemma_move_ranges(b);
    assert(x == y) by (bit_vector)
        requires
            x & 0x3F == y & 0x3F,
            (x >> 6) & 0x3F == (y >> 6) & 0x3F,
            (x >> 14) & 3 == (y >> 14) & 3,
            (x >> 12) & 3 == (y >> 12) & 3,
    ;
}

/// What the fields of a freshly packed move are.
pub proof fn lemma_move_pack(from: u8, to: u8, promotion: u8, flags: u16)
    requires
        from < 64,
        to < 64,
    ensures
        Move::spec_new(from, to).spec_from() == from,
        Move::spec_new(from, to).spec_to() == to,
        Move::spec_new(from, to).spec_flags() == 0,
        Move::spec_new(from, to).spec_promotion() == 1,
        Move::spec_with_flags(from, to, flags).spec_from() == from,
        Move::spec_with_flags(from, to, flags).spec_to() == to,
        Move::spec_with_flags(from, to, flags).spec_flags() == flags & 3,
        Move::spec_with_flags(from, to, flags).spec_promotion() == 1,
        1 <= promotion <= 4 ==> {
            &&& Move::spec_with_promotion(from, to, promotion).spec_from() == from
            &&& Move::spec_with_promotion(from, to, promotion).spec_to() == to
            &&& Move::spec_with_promotion(from, to, promotion).spec_flags() == 3
            &&& Move::spec_with_promotion(from, to, promotion).spec_promotion() == promotion
        },
{
    let f: u16 = from as u16;
    let t: u16 = to as u16;
    let g: u16 = flags & 3;
    let a: u16 = (t << 6) | f;
    let b: u16 = (g << 14) | (t << 6) | f;
    assert(a & 0x3F == f && (a >> 6) & 0x3F == t && (a >> 14) & 3 == 0 && (a >> 12) & 3 == 0
        && b & 0x3F == f && (b >> 6) & 0x3F == t && (b >> 14) & 3 == g && (b >> 12) & 3 == 0
        && g < 4)
        by (bit_vector)
        requires
            f < 64,
            t < 64,
            g == flags & 3,
            a == (t << 6) | f,
            b == (g << 14) | (t << 6) | f,
    ;
    if 1 <= promotion <= 4 {
        let p: u16 = ((promotion - 1) as u8) as u16;
        let c: u16 = (3u16 << 14) | (p << 12) | (t << 6) | f;
        assert(c & 0x3F == f && (c >> 6) & 0x3F == t && (c >> 14) & 3 == 3 && (c >> 12) & 3 == p)
            by (bit_vector)
            requires
                f < 64,
                t < 64,
                p < 4,
                c == (3u16 << 14) | (p << 12) | (t << 6) | f,
        ;
    }
}

/// Writing a move and reading the text back gives the move, for every move
/// whose text keeps all it holds. A castling or en-passant move is written
/// like an ordinary one, so its flag does not come back.
pub proof fn lemma_move_string_round_trip(m: Move)
    requires
        m.text_faithful(),
    ensures
        Move::spec_from_string(m.spec_to_string()) == Some(m),
{
    lemma_move_ranges(m);
    let from = m.spec_from();
    let to = m.spec_to();
    lemma_square_name_round_trip(from);
    lemma_square_name_round_trip(to);
    let p = m.spec_promotion();
    lemma_move_pack(from, to, p, 0);
    if m.spec_is_promotion() {
        lemma_move_ext(m, Move::spec_with_promotion(from, to, p));
    } else {
        lemma_move_ext(m, Move::spec_new(from, to));
    }
}

// ---------------------------------------------------------------------------
// Clock
// ---------------------------------------------------------------------------
/// `std::time::Instant`, a point in time of which nothing is known here.
#[verifier::external_type_specification]
#[verifier::external_body]
pub struct ExInstant(Instant);

/// `Instant::now` of the standard library, taken on trust: it reads the
/// clock; nothing is claimed of what it returns.
pub assume_specification[ Instant::now ]() -> Instant
;

/// `Instant::elapsed` of the standard library, taken on trust: the time
/// since the instant; nothing is claimed of what it returns.
pub assume_specification[ Instant::elapsed ](start: &Instant) -> Duration
;

/// `Duration::as_millis` of the standard library, taken on trust: the
/// whole milliseconds of the duration; nothing is claimed of the number.
pub assume_specification[ Duration::as_millis ](d: &Duration) -> u128
;

/// A clock started when it was made.
pub struct Timer {
    start: Instant,
}

impl Timer {
    /// Starts a clock now. The instant is read from the machine's clock,
    /// so nothing is promised of it.
    pub fn new() -> Timer {
        Timer { start: Instant::now() }
    }

    /// Milliseconds since the clock was started. The number is read from
    /// the machine's clock, so nothing is promised of it: what a caller
    /// does with it is stated for every value, as in `over_limit`.
    pub fn elapsed_ms(&self) -> u128 {
        let d = self.start.elapsed();
        d.as_millis()
    }
}

impl Default for Timer {
    /// A clock started now.
    fn default() -> Timer {
        Timer::new()
    }
}

} // verus!
