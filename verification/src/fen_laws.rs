//! Proof that the text written for a valid position reads back as that
//! position.

use crate::fen::{
    castling_text, castling_upto, decimal_digits, decimal_value, digit_value, digits_upto,
    en_passant_text, fen_text, field, field_end, field_start, is_space, parse_castling,
    parse_clock, parse_en_passant, parse_fen, parse_side, placement_text, right_of_char,
    skip_spaces, token_end, FenParseError,
};
use crate::placement_laws::lemma_placement_round_trip;
use crate::position::{en_passant_ok, BoardView, History, WHITE};
use crate::utils::lemma_square_name_round_trip;
use vstd::prelude::*;

verus! {

/// A text that can stand as a field: not empty, no white space.
pub open spec fn is_token(t: Seq<char>) -> bool {
    t.len() > 0 && forall|j: int| 0 <= j < t.len() ==> !is_space(#[trigger] t[j])
}

/// A decimal value read from the first `n` characters depends on them alone.
pub proof fn lemma_decimal_prefix(a: Seq<char>, b: Seq<char>, n: int)
    requires
        0 <= n <= a.len(),
        n <= b.len(),
        forall|j: int| 0 <= j < n ==> a[j] == b[j],
    ensures
        decimal_value(a, n) == decimal_value(b, n),
    decreases n,
{
    if n > 0 {
        lemma_decimal_prefix(a, b, n - 1);
    }
}

/// The digits written for a number are digits and read back as the number.
pub proof fn lemma_decimal_round_trip(n: nat)
    ensures
        is_token(decimal_digits(n)),
        digits_upto(decimal_digits(n), decimal_digits(n).len() as int),
        decimal_value(decimal_digits(n), decimal_digits(n).len() as int) == n,
    decreases n,
{
    let d = decimal_digits(n);
    if n < 10 {
        assert(d.len() == 1);
        assert(decimal_value(d, 1) == decimal_value(d, 0) * 10 + digit_value(d[0]));
    } else {
        let head = decimal_digits(n / 10);
        lemma_decimal_round_trip(n / 10);
        lemma_decimal_prefix(d, head, head.len() as int);
    }
}

/// A clock written in digits reads back as the clock.
pub proof fn lemma_clock_round_trip(n: u16, default: u16)
    ensures
        parse_clock(decimal_digits(n as nat), default) == Ok::<u16, FenParseError>(n),
        is_token(decimal_digits(n as nat)),
{
    lemma_decimal_round_trip(n as nat);
}

/// The castling rights written as letters read back as the rights.
pub proof fn lemma_castling_round_trip(c: u8)
    requires
        c <= 15,
    ensures
        parse_castling(castling_text(c)) == Ok::<u8, FenParseError>(c),
        is_token(castling_text(c)),
{
    let t = castling_text(c);
    let e = Seq::<char>::empty();
    let k: Seq<char> = if c & 1 != 0 {
        seq!['K']
    } else {
        e
    };
    let q: Seq<char> = if c & 2 != 0 {
        seq!['Q']
    } else {
        e
    };
    let bk: Seq<char> = if c & 4 != 0 {
        seq!['k']
    } else {
        e
    };
    let x1: u8 = if c & 1 != 0 {
        0u8 | 1u8
    } else {
        0u8
    };
    let x2: u8 = if c & 2 != 0 {
        x1 | 2u8
    } else {
        x1
    };
    let x3: u8 = if c & 4 != 0 {
        x2 | 4u8
    } else {
        x2
    };
    let x4: u8 = if c & 8 != 0 {
        x3 | 8u8
    } else {
        x3
    };
    assert(x4 == c && (c == 0 <==> (c & 1 == 0 && c & 2 == 0 && c & 4 == 0 && c & 8 == 0)) && 0u8
        | 0u8 == 0u8) by (bit_vector)
        requires
            c <= 15,
            x1 == (if c & 1 != 0 {
                0u8 | 1u8
            } else {
                0u8
            }),
            x2 == (if c & 2 != 0 {
                x1 | 2u8
            } else {
                x1
            }),
            x3 == (if c & 4 != 0 {
                x2 | 4u8
            } else {
                x2
            }),
            x4 == (if c & 8 != 0 {
                x3 | 8u8
            } else {
                x3
            }),
    ;
    if c != 0 {
        let a1 = k;
        let a2 = k + q;
        let a3 = k + q + bk;
        lemma_castling_step(e, c & 1 != 0, 'K', 1, 0, t);
        lemma_castling_step(a1, c & 2 != 0, 'Q', 2, x1, t);
        lemma_castling_step(a2, c & 4 != 0, 'k', 4, x2, t);
        lemma_castling_step(a3, c & 8 != 0, 'q', 8, x3, t);
    }
}

/// Reading one more optional letter of the castling field adds its right.
proof fn lemma_castling_step(done: Seq<char>, present: bool, letter: char, bit: u8, so_far: u8, t: Seq<char>)
    requires
        right_of_char(letter) == Some(bit),
        done.len() + (if present { 1int } else { 0int }) <= t.len(),
        forall|j: int| 0 <= j < done.len() ==> t[j] == done[j],
        present ==> t[done.len() as int] == letter,
        castling_upto(t, done.len() as int) == Ok::<u8, FenParseError>(so_far),
    ensures
        ({
            let next = if present {
                done.push(letter)
            } else {
                done
            };
            castling_upto(t, next.len() as int) == Ok::<u8, FenParseError>(
                if present {
                    so_far | bit
                } else {
                    so_far
                },
            )
        }),
{
}

/// The en-passant square written as a name reads back as the square.
pub proof fn lemma_en_passant_round_trip(ep: Option<u8>)
    requires
        en_passant_ok(ep),
    ensures
        parse_en_passant(en_passant_text(ep)) == Ok::<Option<u8>, FenParseError>(ep),
        is_token(en_passant_text(ep)),
{
    match ep {
        Some(sq) => {
            lemma_square_name_round_trip(sq);
        },
        None => {
        },
    }
}

/// Where the bounds of white space and fields fall in a text that
/// continues another from `off` on.
pub proof fn lemma_shift(s: Seq<char>, r: Seq<char>, off: int, i: int)
    requires
        0 <= off,
        s.len() == off + r.len(),
        forall|j: int| 0 <= j < r.len() ==> s[off + j] == #[trigger] r[j],
        0 <= i <= r.len(),
    ensures
        skip_spaces(s, off + i) == off + skip_spaces(r, i),
        token_end(s, off + i) == off + token_end(r, i),
        i <= skip_spaces(r, i) <= r.len(),
        i <= token_end(r, i) <= r.len(),
    decreases r.len() - i,
{
    if i < r.len() {
        lemma_shift(s, r, off, i + 1);
    }
}

/// A token ends where it ends.
pub proof fn lemma_token_bounds(s: Seq<char>, i: int, t: Seq<char>)
    requires
        is_token(t),
        0 <= i,
        i + t.len() <= s.len(),
        forall|j: int| 0 <= j < t.len() ==> s[i + j] == #[trigger] t[j],
        i + t.len() == s.len() || is_space(s[i + t.len()]),
    ensures
        skip_spaces(s, i) == i,
        token_end(s, i) == i + t.len(),
{
    lemma_token_run(s, i, t, 0);
}

/// Within a token the end of the token is the end of the token.
proof fn lemma_token_run(s: Seq<char>, i: int, t: Seq<char>, k: int)
    requires
        is_token(t),
        0 <= i,
        i + t.len() <= s.len(),
        forall|j: int| 0 <= j < t.len() ==> s[i + j] == #[trigger] t[j],
        i + t.len() == s.len() || is_space(s[i + t.len()]),
        0 <= k <= t.len(),
    ensures
        token_end(s, i + k) == i + t.len(),
    decreases t.len() - k,
{
    if k < t.len() {
        assert(s[i + k] == t[k]);
        lemma_token_run(s, i, t, k + 1);
    }
}

/// The fields of a token, a space and a text that begins with a field are
/// the token followed by the fields of the text.
pub proof fn lemma_fields_after_token(t: Seq<char>, r: Seq<char>, k: nat)
    requires
        is_token(t),
        r.len() > 0,
        !is_space(r[0]),
    ensures
        field(t.push(' ') + r, 0) == t,
        field_start(t.push(' ') + r, k + 1) == t.len() + 1 + field_start(r, k),
        field_end(t.push(' ') + r, k + 1) == t.len() + 1 + field_end(r, k),
        field(t.push(' ') + r, k + 1) == field(r, k),
        0 <= field_start(r, k) <= field_end(r, k) <= r.len(),
    decreases k,
{
    let s = t.push(' ') + r;
    let off: int = t.len() as int + 1;
    lemma_token_bounds(s, 0, t);
    assert(field(s, 0) =~= t);
    if k == 0 {
        lemma_shift(s, r, off, 0);
        lemma_shift(s, r, off, 0);
        let b = field_start(r, 0);
        lemma_shift(s, r, off, b);
    } else {
        lemma_fields_after_token(t, r, (k - 1) as nat);
        let e = field_end(r, (k - 1) as nat);
        lemma_shift(s, r, off, e);
        let b = field_start(r, k);
        lemma_shift(s, r, off, b);
    }
    assert(field(s, k + 1) =~= field(r, k));
}

/// A text that is one token has that token as its first field.
pub proof fn lemma_field_alone(t: Seq<char>)
    requires
        is_token(t),
    ensures
        field(t, 0) == t,
{
    lemma_token_bounds(t, 0, t);
}

/// The side written as a letter.
pub open spec fn side_text(side: u8) -> Seq<char> {
    seq![if side == WHITE {
        'w'
    } else {
        'b'
    }]
}

/// The text of a board is its six fields with a space between them.
pub proof fn lemma_fen_fields(v: BoardView)
    requires
        v.position_ok(),
    ensures
        field(fen_text(v), 0) == placement_text(v, 7),
        field(fen_text(v), 1) == side_text(v.side),
        field(fen_text(v), 2) == castling_text(v.castling),
        field(fen_text(v), 3) == en_passant_text(v.en_passant),
        field(fen_text(v), 4) == decimal_digits(v.halfmove as nat),
        field(fen_text(v), 5) == decimal_digits(v.fullmove as nat),
{
    let t0 = placement_text(v, 7);
    let t1 = side_text(v.side);
    let t2 = castling_text(v.castling);
    let t3 = en_passant_text(v.en_passant);
    let t4 = decimal_digits(v.halfmove as nat);
    let t5 = decimal_digits(v.fullmove as nat);
    lemma_placement_round_trip(v);
    lemma_castling_round_trip(v.castling);
    lemma_en_passant_round_trip(v.en_passant);
    lemma_clock_round_trip(v.halfmove, 0);
    lemma_clock_round_trip(v.fullmove, 1);
    let s5 = t5;
    let s4 = t4.push(' ') + s5;
    let s3 = t3.push(' ') + s4;
    let s2 = t2.push(' ') + s3;
    let s1 = t1.push(' ') + s2;
    let s0 = t0.push(' ') + s1;
    assert(fen_text(v) =~= s0);
    lemma_field_alone(t5);
    lemma_fields_after_token(t4, s5, 0);
    lemma_fields_after_token(t3, s4, 0);
    lemma_fields_after_token(t3, s4, 1);
    lemma_fields_after_token(t2, s3, 0);
    lemma_fields_after_token(t2, s3, 1);
    lemma_fields_after_token(t2, s3, 2);
    lemma_fields_after_token(t1, s2, 0);
    lemma_fields_after_token(t1, s2, 1);
    lemma_fields_after_token(t1, s2, 2);
    lemma_fields_after_token(t1, s2, 3);
    lemma_fields_after_token(t0, s1, 0);
    lemma_fields_after_token(t0, s1, 1);
    lemma_fields_after_token(t0, s1, 2);
    lemma_fields_after_token(t0, s1, 3);
    lemma_fields_after_token(t0, s1, 4);
}

/// Reading the text written for a valid position gives that position,
/// field for field, with an empty history.
pub proof fn lemma_fen_round_trip(v: BoardView)
    requires
        v.position_ok(),
    ensures
        parse_fen(fen_text(v)) == Ok::<BoardView, FenParseError>(
            BoardView { history: Seq::<History>::empty(), ..v },
        ),
{
    lemma_fen_fields(v);
    lemma_placement_round_trip(v);
    lemma_castling_round_trip(v.castling);
    lemma_en_passant_round_trip(v.en_passant);
    lemma_clock_round_trip(v.halfmove, 0);
    lemma_clock_round_trip(v.fullmove, 1);
    assert(parse_side(side_text(v.side)) == Ok::<u8, FenParseError>(v.side)) by {
        if v.side != WHITE {
            assert(!(side_text(v.side) =~= seq!['w'])) by {
                assert(side_text(v.side)[0] == 'b');
            }
        }
    }
}

} // verus!
