//! Reading a board from Forsyth-Edwards notation and writing it back.

use crate::bits::group_bit_lemmas;
use crate::board::{pieces_view, Board};
use crate::fen::{
    castling_upto, clock_digits, decimal_value, digits_upto, field, is_space, no_pieces,
    parse_castling, parse_clock, parse_en_passant, parse_fen, parse_placement, parse_side,
    piece_of_char, place_from, skip_spaces, slash_count, token_end, FenParseError,
};
use crate::hashing::lemma_disjoint_place;
use crate::position::{
    disjoint, en_passant_ok, occupancy_of, piece_slot, place, position_hash, BoardView, History,
    BLACK, WHITE,
};
use crate::utils::{bit_at, rank_of, spec_is_set, square_of_chars};
use crate::zobrist::Zobrist;
use vstd::prelude::*;

verus! {

/// The characters of a text.
pub fn to_chars(s: &str) -> (v: Vec<char>)
    ensures
        v@ == s@,
{
    let mut v: Vec<char> = Vec::new();
    let n = s.unicode_len();
    let mut i: usize = 0;
    while i < n
        invariant
            i <= n,
            n == s@.len(),
            v@ == s@.subrange(0, i as int),
        decreases n - i,
    {
        let c = s.get_char(i);
        v.push(c);
        i += 1;
    }
    v
}

/// Whether a character is white space.
pub fn is_space_char(c: char) -> (r: bool)
    ensures
        r == is_space(c),
{
    let u = c as u32;
    (9 <= u && u <= 13) || u == 32 || u == 0x85 || u == 0xA0 || u == 0x1680 || (0x2000 <= u && u
        <= 0x200A) || u == 0x2028 || u == 0x2029 || u == 0x202F || u == 0x205F || u == 0x3000
}

/// Bounds of the next field at or after `start`.
pub fn next_field(chars: &Vec<char>, start: usize) -> (r: (usize, usize))
    requires
        start <= chars.len(),
    ensures
        r.0 == skip_spaces(chars@, start as int),
        r.1 == token_end(chars@, r.0 as int),
        start <= r.0 <= r.1 <= chars.len(),
{
    let n = chars.len();
    let mut b: usize = start;
    while b < n && is_space_char(chars[b])
        invariant
            start <= b <= n,
            n == chars@.len(),
            skip_spaces(chars@, start as int) == skip_spaces(chars@, b as int),
        decreases n - b,
    {
        b += 1;
    }
    let mut e: usize = b;
    while e < n && !is_space_char(chars[e])
        invariant
            b <= e <= n,
            n == chars@.len(),
            token_end(chars@, b as int) == token_end(chars@, e as int),
        decreases n - e,
    {
        e += 1;
    }
    (b, e)
}

/// A copy of the characters from `b` up to `e`.
pub fn slice_of(chars: &Vec<char>, b: usize, e: usize) -> (v: Vec<char>)
    requires
        b <= e <= chars.len(),
    ensures
        v@ == chars@.subrange(b as int, e as int),
{
    let mut v: Vec<char> = Vec::new();
    let mut i: usize = b;
    while i < e
        invariant
            b <= i <= e,
            e <= chars.len(),
            v@ == chars@.subrange(b as int, i as int),
        decreases e - i,
    {
        v.push(chars[i]);
        i += 1;
    }
    v
}

/// Kind and colour that a piece letter names.
pub fn piece_from_char(c: char) -> (r: Option<(u8, u8)>)
    ensures
        r == piece_of_char(c),
        match r {
            Some((kind, color)) => kind <= 5 && color <= 1,
            None => true,
        },
{
    if c == 'P' {
        Some((0, 0))
    } else if c == 'N' {
        Some((1, 0))
    } else if c == 'B' {
        Some((2, 0))
    } else if c == 'R' {
        Some((3, 0))
    } else if c == 'Q' {
        Some((4, 0))
    } else if c == 'K' {
        Some((5, 0))
    } else if c == 'p' {
        Some((0, 1))
    } else if c == 'n' {
        Some((1, 1))
    } else if c == 'b' {
        Some((2, 1))
    } else if c == 'r' {
        Some((3, 1))
    } else if c == 'q' {
        Some((4, 1))
    } else if c == 'k' {
        Some((5, 1))
    } else {
        None
    }
}

/// The count of `/` never falls as more characters are counted.
pub proof fn lemma_slash_count_grows(s: Seq<char>, i: int, n: int)
    requires
        0 <= i <= n,
    ensures
        0 <= slash_count(s, i) <= slash_count(s, n),
    decreases n,
{
    if i < n {
        lemma_slash_count_grows(s, i, n - 1);
    } else if i > 0 {
        lemma_slash_count_grows(s, i - 1, i - 1);
    }
}

/// Every piece placed so far stands before the cursor: on a higher rank,
/// or on the cursor's rank on a lower file.
pub open spec fn placed_before(ps: Seq<u64>, rank: int, file: int) -> bool {
    forall|i: int, t: u8|
        0 <= i < 12 && t < 64 && #[trigger] spec_is_set(ps[i], t) ==> (t as int / 8 > rank || (t
            as int / 8 == rank && (t as int % 8) < file))
}

/// Reads the placement field.
pub fn read_placement(s: &Vec<char>) -> (r: Result<[[u64; 6]; 2], FenParseError>)
    ensures
        match r {
            Ok(pieces) => parse_placement(s@) == Ok::<Seq<u64>, FenParseError>(
                pieces_view(pieces),
            ) && disjoint(pieces_view(pieces)),
            Err(e) => parse_placement(s@) == Err::<Seq<u64>, FenParseError>(e),
        },
{
    let n = s.len();
    let mut slashes: usize = 0;
    let mut j: usize = 0;
    while j < n
        invariant
            j <= n,
            n == s@.len(),
            slashes == slash_count(s@, j as int),
            slashes <= j,
        decreases n - j,
    {
        if s[j] == '/' {
            slashes += 1;
        }
        j += 1;
    }
    if slashes != 7 {
        return Err(FenParseError::RankCount);
    }
    let mut pieces: [[u64; 6]; 2] = [[0u64; 6]; 2];
    let mut rank: u8 = 7;
    let mut file: u8 = 0;
    let mut i: usize = 0;
    proof {
        broadcast use group_bit_lemmas;

        reveal(disjoint);
        assert(pieces_view(pieces) =~= no_pieces());
    }
    while i < n
        invariant
            i <= n,
            n == s@.len(),
            slash_count(s@, n as int) == 7,
            rank as int == 7 - slash_count(s@, i as int),
            rank <= 7,
            place_from(s@, i as int, rank as int, file as int, pieces_view(pieces)) == place_from(
                s@,
                0,
                7,
                0,
                no_pieces(),
            ),
            placed_before(pieces_view(pieces), rank as int, file as int),
            disjoint(pieces_view(pieces)),
        decreases n - i,
    {
        let c = s[i];
        let ghost ps = pieces_view(pieces);
        proof {
            lemma_slash_count_grows(s@, i as int + 1, n as int);
        }
        if c == '/' {
            if file != 8 {
                return Err(FenParseError::RankLength);
            }
            rank = rank - 1;
            file = 0;
        } else if c >= '0' && c <= '9' {
            let d: u8 = (c as u32 - 48) as u8;
            file = if file > 255 - d {
                255
            } else {
                file + d
            };
        } else {
            match piece_from_char(c) {
                None => {
                    return Err(FenParseError::InvalidPiece(c));
                },
                Some((kind, color)) => {
                    if file >= 8 {
                        return Err(FenParseError::TooManyPieces);
                    }
                    let sq: u8 = rank * 8 + file;
                    pieces[color as usize][kind as usize] = pieces[color as usize][kind as usize]
                        | bit_at(sq);
                    proof {
                        broadcast use group_bit_lemmas;

                        let idx = piece_slot(color, kind);
                        assert(pieces_view(pieces) =~= place(ps, idx, sq));
                        lemma_disjoint_place(ps, idx, sq);
                    }
                    file = file + 1;
                },
            }
        }
        i += 1;
    }
    if file != 8 {
        return Err(FenParseError::RankLength);
    }
    Ok(pieces)
}

/// Reads the side field.
pub fn read_side(s: &Vec<char>) -> (r: Result<u8, FenParseError>)
    ensures
        r == parse_side(s@),
        r is Ok ==> r->Ok_0 <= 1,
{
    if s.len() == 0 {
        Ok(WHITE)
    } else if s.len() == 1 && s[0] == 'w' {
        Ok(WHITE)
    } else if s.len() == 1 && s[0] == 'b' {
        Ok(BLACK)
    } else {
        Err(FenParseError::InvalidSide)
    }
}

/// Reads the castling field.
pub fn read_castling(s: &Vec<char>) -> (r: Result<u8, FenParseError>)
    ensures
        r == parse_castling(s@),
        r is Ok ==> r->Ok_0 <= 15,
{
    let n = s.len();
    let mut castling: u8 = 0;
    let mut i: usize = 0;
    while i < n
        invariant
            i <= n,
            n == s@.len(),
            castling <= 15,
            castling_upto(s@, i as int) == Ok::<u8, FenParseError>(castling),
        decreases n - i,
    {
        let c = s[i];
        let bit: u8 = if c == 'K' {
            1
        } else if c == 'Q' {
            2
        } else if c == 'k' {
            4
        } else if c == 'q' {
            8
        } else if c == '-' {
            0
        } else {
            proof {
                lemma_castling_fails(s@, i as int + 1, n as int);
            }
            return Err(FenParseError::InvalidCastling(c));
        };
        let ghost before = castling;
        castling = castling | bit;
        assert(castling <= 15) by (bit_vector)
            requires
                before <= 15,
                bit <= 15,
                castling == before | bit,
        ;
        i += 1;
    }
    Ok(castling)
}

/// Once a character of the castling field is refused, the field is.
pub proof fn lemma_castling_fails(s: Seq<char>, i: int, n: int)
    requires
        0 < i <= n,
        castling_upto(s, i) is Err,
    ensures
        castling_upto(s, n) == castling_upto(s, i),
    decreases n - i,
{
    if i < n {
        lemma_castling_fails(s, i, n - 1);
    }
}

/// Reads the en-passant field.
pub fn read_en_passant(s: &Vec<char>) -> (r: Result<Option<u8>, FenParseError>)
    ensures
        r == parse_en_passant(s@),
        r is Ok ==> en_passant_ok(r->Ok_0),
{
    if s.len() == 0 {
        return Ok(None);
    }
    if s.len() == 1 && s[0] == '-' {
        return Ok(None);
    }
    if s.len() != 2 {
        return Err(FenParseError::InvalidEnPassant);
    }
    match square_of_chars(s[0], s[1]) {
        Some(sq) => {
            let rank = rank_of(sq);
            if rank == 2 || rank == 5 {
                Ok(Some(sq))
            } else {
                Err(FenParseError::InvalidEnPassant)
            }
        },
        None => Err(FenParseError::InvalidEnPassant),
    }
}

/// A decimal value grows with every digit read.
pub proof fn lemma_decimal_grows(s: Seq<char>, i: int, n: int)
    requires
        0 <= i <= n <= s.len(),
        digits_upto(s, n),
    ensures
        0 <= decimal_value(s, i) <= decimal_value(s, n),
    decreases n,
{
    if i < n {
        lemma_decimal_grows(s, i, n - 1);
    } else if i > 0 {
        lemma_decimal_grows(s, i - 1, i - 1);
    }
}

/// Reads a clock field.
pub fn read_clock(s: &Vec<char>, default: u16) -> (r: Result<u16, FenParseError>)
    ensures
        r == parse_clock(s@, default),
{
    let n = s.len();
    let start: usize = if n > 0 && s[0] == '+' {
        1
    } else {
        0
    };
    let ghost d = clock_digits(s@);
    if start == n {
        return Ok(default);
    }
    let mut j: usize = start;
    while j < n
        invariant
            start <= j <= n,
            n == s@.len(),
            d == clock_digits(s@),
            d =~= s@.subrange(start as int, n as int),
            digits_upto(d, j - start),
        decreases n - j,
    {
        let c = s[j];
        assert(d[j - start] == c);
        if !(c >= '0' && c <= '9') {
            return Ok(default);
        }
        j += 1;
    }
    let mut value: u32 = 0;
    let mut i: usize = start;
    while i < n
        invariant
            start <= i <= n,
            n == s@.len(),
            d == clock_digits(s@),
            d =~= s@.subrange(start as int, n as int),
            digits_upto(d, n - start),
            value as int == decimal_value(d, i - start),
            value <= u16::MAX,
        decreases n - i,
    {
        let c = s[i];
        assert(d[i - start] == c);
        let digit: u32 = c as u32 - 48;
        let next: u32 = value * 10 + digit;
        if next > 65535 {
            proof {
                lemma_decimal_grows(d, i - start + 1, n - start);
            }
            return Err(FenParseError::Overflow);
        }
        value = next;
        i += 1;
    }
    Ok(value as u16)
}

impl Board {
    /// A board with the given bitboards and state, with its occupancy and
    /// hash computed and no history.
    pub fn assemble(
        pieces: [[u64; 6]; 2],
        side: u8,
        castling: u8,
        en_passant: Option<u8>,
        halfmove: u16,
        fullmove: u16,
    ) -> (b: Board)
        requires
            disjoint(pieces_view(pieces)),
            side <= 1,
            castling <= 15,
            en_passant_ok(en_passant),
        ensures
            b.wf(),
            b@ == (BoardView {
                pieces: pieces_view(pieces),
                occupancy: occupancy_of(pieces_view(pieces)),
                side,
                castling,
                en_passant,
                halfmove,
                fullmove,
                hash: position_hash(pieces_view(pieces), side, castling, en_passant),
                history: Seq::<History>::empty(),
            }),
    {
        let mut b = Board {
            pieces,
            occupancy: [0u64; 2],
            side,
            castling,
            en_passant,
            halfmove,
            fullmove,
            hash: 0,
            history: Vec::new(),
            keys: Zobrist::new(),
        };
        b.update_occupancy();
        let h = b.calculate_hash();
        b.hash = h;
        b
    }

    /// Reads a board from Forsyth-Edwards notation.
    pub fn from_fen(fen: &str) -> (r: Result<Board, FenParseError>)
        ensures
            match r {
                Ok(b) => b.wf() && parse_fen(fen@) == Ok::<BoardView, FenParseError>(b@),
                Err(e) => parse_fen(fen@) == Err::<BoardView, FenParseError>(e),
            },
    {
        let chars = to_chars(fen);
        let (b0, e0) = next_field(&chars, 0);
        if b0 == e0 {
            return Err(FenParseError::Empty);
        }
        let pieces = match read_placement(&slice_of(&chars, b0, e0)) {
            Ok(p) => p,
            Err(e) => { return Err(e); },
        };
        let (b1, e1) = next_field(&chars, e0);
        let side = match read_side(&slice_of(&chars, b1, e1)) {
            Ok(x) => x,
            Err(e) => { return Err(e); },
        };
        let (b2, e2) = next_field(&chars, e1);
        let castling = match read_castling(&slice_of(&chars, b2, e2)) {
            Ok(x) => x,
            Err(e) => { return Err(e); },
        };
        let (b3, e3) = next_field(&chars, e2);
        let en_passant = match read_en_passant(&slice_of(&chars, b3, e3)) {
            Ok(x) => x,
            Err(e) => { return Err(e); },
        };
        let (b4, e4) = next_field(&chars, e3);
        let halfmove = match read_clock(&slice_of(&chars, b4, e4), 0) {
            Ok(x) => x,
            Err(e) => { return Err(e); },
        };
        let (b5, e5) = next_field(&chars, e4);
        let fullmove = match read_clock(&slice_of(&chars, b5, e5), 1) {
            Ok(x) => x,
            Err(e) => { return Err(e); },
        };
        Ok(Board::assemble(pieces, side, castling, en_passant, halfmove, fullmove))
    }
}

} // verus!
