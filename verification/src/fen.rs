//! Forsyth-Edwards notation: what a text means as a board, and how a board
//! is written.

use crate::position::{
    en_passant_ok, occupancy_of, piece_slot, place, position_hash, BoardView, History, BLACK, WHITE,
};
use crate::utils::{spec_parse_square, spec_square_name};
use vstd::prelude::*;

verus! {

/// Why a text is not a position.
#[derive(Clone, Copy, Debug, PartialEq, Eq, Structural)]
pub enum FenParseError {
    /// The text holds no field.
    Empty,
    /// The placement does not have eight ranks.
    RankCount,
    /// A character of the placement is neither a digit nor a piece letter.
    InvalidPiece(char),
    /// A piece stands beyond the eighth file of its rank.
    TooManyPieces,
    /// A rank does not have eight squares.
    RankLength,
    /// The side to move is neither `w` nor `b`.
    InvalidSide,
    /// A character of the castling field is none of `K`, `Q`, `k`, `q`, `-`.
    InvalidCastling(char),
    /// The en-passant field is neither `-` nor a square of the third or sixth rank.
    InvalidEnPassant,
    /// A clock is a number that does not fit in sixteen bits.
    Overflow,
}

// ---------------------------------------------------------------------------
// Fields
// ---------------------------------------------------------------------------
/// White space, as it separates the fields.
pub open spec fn is_space(c: char) -> bool {
    let u = c as u32;
    (9 <= u <= 13) || u == 32 || u == 0x85 || u == 0xA0 || u == 0x1680 || (0x2000 <= u <= 0x200A)
        || u == 0x2028 || u == 0x2029 || u == 0x202F || u == 0x205F || u == 0x3000
}

/// First index from `i` on that holds no white space.
pub open spec fn skip_spaces(s: Seq<char>, i: int) -> int
    decreases s.len() - i,
{
    if 0 <= i < s.len() && is_space(s[i]) {
        skip_spaces(s, i + 1)
    } else {
        i
    }
}

/// First index from `i` on that holds white space, or the length.
pub open spec fn token_end(s: Seq<char>, i: int) -> int
    decreases s.len() - i,
{
    if 0 <= i < s.len() && !is_space(s[i]) {
        token_end(s, i + 1)
    } else {
        i
    }
}

/// Where field `k` starts.
pub open spec fn field_start(s: Seq<char>, k: nat) -> int
    decreases k,
{
    if k == 0 {
        skip_spaces(s, 0)
    } else {
        skip_spaces(s, token_end(s, field_start(s, (k - 1) as nat)))
    }
}

/// Where field `k` ends.
pub open spec fn field_end(s: Seq<char>, k: nat) -> int {
    token_end(s, field_start(s, k))
}

/// Field `k` of the text, counting from 0; empty when the text has fewer fields.
pub open spec fn field(s: Seq<char>, k: nat) -> Seq<char> {
    s.subrange(field_start(s, k), field_end(s, k))
}

// ---------------------------------------------------------------------------
// Placement
// ---------------------------------------------------------------------------
/// Kind and colour that a piece letter names.
pub open spec fn piece_of_char(c: char) -> Option<(u8, u8)> {
    if c == 'P' {
        Some((0u8, 0u8))
    } else if c == 'N' {
        Some((1u8, 0u8))
    } else if c == 'B' {
        Some((2u8, 0u8))
    } else if c == 'R' {
        Some((3u8, 0u8))
    } else if c == 'Q' {
        Some((4u8, 0u8))
    } else if c == 'K' {
        Some((5u8, 0u8))
    } else if c == 'p' {
        Some((0u8, 1u8))
    } else if c == 'n' {
        Some((1u8, 1u8))
    } else if c == 'b' {
        Some((2u8, 1u8))
    } else if c == 'r' {
        Some((3u8, 1u8))
    } else if c == 'q' {
        Some((4u8, 1u8))
    } else if c == 'k' {
        Some((5u8, 1u8))
    } else {
        None
    }
}

/// Letter of a piece: upper case for White, lower case for Black.
pub open spec fn char_of_piece(kind: u8, color: u8) -> char {
    if color == WHITE {
        if kind == 0 {
            'P'
        } else if kind == 1 {
            'N'
        } else if kind == 2 {
            'B'
        } else if kind == 3 {
            'R'
        } else if kind == 4 {
            'Q'
        } else {
            'K'
        }
    } else {
        if kind == 0 {
            'p'
        } else if kind == 1 {
            'n'
        } else if kind == 2 {
            'b'
        } else if kind == 3 {
            'r'
        } else if kind == 4 {
            'q'
        } else {
            'k'
        }
    }
}

/// A decimal digit.
pub open spec fn is_digit(c: char) -> bool {
    '0' <= c && c <= '9'
}

/// Value of a decimal digit.
pub open spec fn digit_value(c: char) -> int {
    c as u32 as int - 48
}

/// Number of `/` among the first `n` characters.
pub open spec fn slash_count(s: Seq<char>, n: int) -> int
    decreases n,
{
    if n <= 0 {
        0
    } else {
        slash_count(s, n - 1) + if s[n - 1] == '/' {
            1int
        } else {
            0int
        }
    }
}

/// Twelve empty bitboards.
pub open spec fn no_pieces() -> Seq<u64> {
    Seq::new(12, |i: int| 0u64)
}

/// Reads the placement from character `i` on, standing on `rank` with
/// `file` files of it passed and `ps` placed so far. A digit skips that
/// many files (the count stops at 255), a letter places a piece on the
/// next file, `/` ends a rank, which has to have eight files by then.
pub open spec fn place_from(s: Seq<char>, i: int, rank: int, file: int, ps: Seq<u64>) -> Result<
    Seq<u64>,
    FenParseError,
>
    decreases s.len() - i,
{
    if i < 0 || i >= s.len() {
        if file != 8 {
            Err(FenParseError::RankLength)
        } else {
            Ok(ps)
        }
    } else {
        let c = s[i];
        if c == '/' {
            if file != 8 {
                Err(FenParseError::RankLength)
            } else {
                place_from(s, i + 1, rank - 1, 0, ps)
            }
        } else if is_digit(c) {
            let next = if file + digit_value(c) > 255 {
                255
            } else {
                file + digit_value(c)
            };
            place_from(s, i + 1, rank, next, ps)
        } else {
            match piece_of_char(c) {
                None => Err(FenParseError::InvalidPiece(c)),
                Some((kind, color)) => {
                    if file >= 8 {
                        Err(FenParseError::TooManyPieces)
                    } else {
                        place_from(
                            s,
                            i + 1,
                            rank,
                            file + 1,
                            place(ps, piece_slot(color, kind), (rank * 8 + file) as u8),
                        )
                    }
                },
            }
        }
    }
}

/// The bitboards that a placement field names: eight ranks from the eighth
/// down, separated by `/`.
pub open spec fn parse_placement(s: Seq<char>) -> Result<Seq<u64>, FenParseError> {
    if slash_count(s, s.len() as int) != 7 {
        Err(FenParseError::RankCount)
    } else {
        place_from(s, 0, 7, 0, no_pieces())
    }
}

// ---------------------------------------------------------------------------
// The other fields
// ---------------------------------------------------------------------------
/// The side that the second field names; White when the field is missing.
pub open spec fn parse_side(s: Seq<char>) -> Result<u8, FenParseError> {
    if s.len() == 0 {
        Ok(WHITE)
    } else if s =~= seq!['w'] {
        Ok(WHITE)
    } else if s =~= seq!['b'] {
        Ok(BLACK)
    } else {
        Err(FenParseError::InvalidSide)
    }
}

/// The castling right that a letter names; `-` names none.
pub open spec fn right_of_char(c: char) -> Option<u8> {
    if c == 'K' {
        Some(1u8)
    } else if c == 'Q' {
        Some(2u8)
    } else if c == 'k' {
        Some(4u8)
    } else if c == 'q' {
        Some(8u8)
    } else if c == '-' {
        Some(0u8)
    } else {
        None
    }
}

/// The castling rights that the first `n` characters name.
pub open spec fn castling_upto(s: Seq<char>, n: int) -> Result<u8, FenParseError>
    decreases n,
{
    if n <= 0 {
        Ok(0u8)
    } else {
        match castling_upto(s, n - 1) {
            Err(e) => Err(e),
            Ok(c) => match right_of_char(s[n - 1]) {
                Some(bit) => Ok(c | bit),
                None => Err(FenParseError::InvalidCastling(s[n - 1])),
            },
        }
    }
}

/// The castling rights that the third field names; none when it is missing.
pub open spec fn parse_castling(s: Seq<char>) -> Result<u8, FenParseError> {
    castling_upto(s, s.len() as int)
}

/// The en-passant square that the fourth field names: none for `-` or a
/// missing field, else a square of the third or sixth rank.
pub open spec fn parse_en_passant(s: Seq<char>) -> Result<Option<u8>, FenParseError> {
    if s.len() == 0 || s =~= seq!['-'] {
        Ok(None)
    } else {
        match spec_parse_square(s) {
            Some(sq) => if en_passant_ok(Some(sq)) {
                Ok(Some(sq))
            } else {
                Err(FenParseError::InvalidEnPassant)
            },
            None => Err(FenParseError::InvalidEnPassant),
        }
    }
}

/// Every one of the first `n` characters is a digit.
pub open spec fn digits_upto(s: Seq<char>, n: int) -> bool {
    forall|i: int| 0 <= i < n ==> is_digit(#[trigger] s[i])
}

/// Value of the first `n` characters read as a decimal number.
pub open spec fn decimal_value(s: Seq<char>, n: int) -> int
    decreases n,
{
    if n <= 0 {
        0
    } else {
        decimal_value(s, n - 1) * 10 + digit_value(s[n - 1])
    }
}

/// The digits of a clock field: the field without a leading `+`.
pub open spec fn clock_digits(s: Seq<char>) -> Seq<char> {
    if s.len() > 0 && s[0] == '+' {
        s.subrange(1, s.len() as int)
    } else {
        s
    }
}

/// The clock that a field names: `default` when the field is missing or
/// is not a number, the number when it fits in sixteen bits.
pub open spec fn parse_clock(s: Seq<char>, default: u16) -> Result<u16, FenParseError> {
    let d = clock_digits(s);
    if d.len() == 0 || !digits_upto(d, d.len() as int) {
        Ok(default)
    } else if decimal_value(d, d.len() as int) > u16::MAX {
        Err(FenParseError::Overflow)
    } else {
        Ok(decimal_value(d, d.len() as int) as u16)
    }
}

/// The board that a text names. Fields are separated by white space:
/// placement, side, castling rights, en-passant square, halfmove clock,
/// fullmove number. The first is required; a missing later field stands
/// for White, no rights, no square, 0 and 1. The first fault found, in
/// that order, is the error.
pub open spec fn parse_fen(s: Seq<char>) -> Result<BoardView, FenParseError> {
    if field(s, 0).len() == 0 {
        Err(FenParseError::Empty)
    } else {
        match parse_placement(field(s, 0)) {
            Err(e) => Err(e),
            Ok(pieces) => match parse_side(field(s, 1)) {
                Err(e) => Err(e),
                Ok(side) => match parse_castling(field(s, 2)) {
                    Err(e) => Err(e),
                    Ok(castling) => match parse_en_passant(field(s, 3)) {
                        Err(e) => Err(e),
                        Ok(en_passant) => match parse_clock(field(s, 4), 0) {
                            Err(e) => Err(e),
                            Ok(halfmove) => match parse_clock(field(s, 5), 1) {
                                Err(e) => Err(e),
                                Ok(fullmove) => Ok(
                                    BoardView {
                                        pieces,
                                        occupancy: occupancy_of(pieces),
                                        side,
                                        castling,
                                        en_passant,
                                        halfmove,
                                        fullmove,
                                        hash: position_hash(pieces, side, castling, en_passant),
                                        history: Seq::<History>::empty(),
                                    },
                                ),
                            },
                        },
                    },
                },
            },
        }
    }
}

// ---------------------------------------------------------------------------
// Writing
// ---------------------------------------------------------------------------
/// The decimal digits of a number, most significant first.
pub open spec fn decimal_digits(n: nat) -> Seq<char>
    decreases n,
{
    if n < 10 {
        seq![(48 + n) as u8 as char]
    } else {
        decimal_digits(n / 10).push((48 + n % 10) as u8 as char)
    }
}

/// The digit for a run of empty squares, or nothing when the run is empty.
pub open spec fn run_digit(empty: int) -> Seq<char> {
    if empty > 0 {
        seq![(48 + empty) as u8 as char]
    } else {
        Seq::<char>::empty()
    }
}

/// A rank written from `file` on, with `empty` empty squares seen since
/// the last piece.
pub open spec fn rank_text(v: BoardView, rank: int, file: int, empty: int) -> Seq<char>
    decreases 8 - file,
{
    if file >= 8 {
        run_digit(empty)
    } else {
        match v.piece_at((rank * 8 + file) as u8) {
            Some((kind, color)) => run_digit(empty).push(char_of_piece(kind, color)) + rank_text(
                v,
                rank,
                file + 1,
                0,
            ),
            None => rank_text(v, rank, file + 1, empty + 1),
        }
    }
}

/// The placement written from `rank` down to the first rank.
pub open spec fn placement_text(v: BoardView, rank: int) -> Seq<char>
    decreases rank,
{
    if rank <= 0 {
        rank_text(v, 0, 0, 0)
    } else {
        rank_text(v, rank, 0, 0).push('/') + placement_text(v, rank - 1)
    }
}

/// The castling rights as letters, `-` for none.
pub open spec fn castling_text(c: u8) -> Seq<char> {
    if c == 0 {
        seq!['-']
    } else {
        (if c & 1 != 0 {
            seq!['K']
        } else {
            Seq::<char>::empty()
        }) + (if c & 2 != 0 {
            seq!['Q']
        } else {
            Seq::<char>::empty()
        }) + (if c & 4 != 0 {
            seq!['k']
        } else {
            Seq::<char>::empty()
        }) + (if c & 8 != 0 {
            seq!['q']
        } else {
            Seq::<char>::empty()
        })
    }
}

/// The en-passant square as a name, `-` for none.
pub open spec fn en_passant_text(ep: Option<u8>) -> Seq<char> {
    match ep {
        Some(sq) => spec_square_name(sq),
        None => seq!['-'],
    }
}

/// The text of a board: the six fields, one space between them.
pub open spec fn fen_text(v: BoardView) -> Seq<char> {
    placement_text(v, 7).push(' ').push(
        if v.side == WHITE {
            'w'
        } else {
            'b'
        },
    ).push(' ') + castling_text(v.castling).push(' ') + en_passant_text(v.en_passant).push(' ')
        + decimal_digits(v.halfmove as nat).push(' ') + decimal_digits(v.fullmove as nat)
}

} // verus!
