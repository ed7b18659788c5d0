//! Proof that the placement field written for a valid position reads back
//! as the bitboards of that position.

use crate::bits::{group_bit_lemmas, lemma_bit_ext};
use crate::fen::{
    char_of_piece, is_digit, is_space, no_pieces, parse_placement, piece_of_char, place_from,
    placement_text, rank_text, run_digit, slash_count, FenParseError,
};
use crate::hashing::lemma_union_of;
use crate::position::{piece_slot, place, BoardView};
use crate::undo::{lemma_census, lemma_kind_found, lemma_place_at};
use crate::utils::spec_is_set;
use vstd::prelude::*;

verus! {

/// `ps` with the pieces of `v` on rank `rank` from file `file` on added.
pub open spec fn rank_placed(v: BoardView, rank: int, file: int, ps: Seq<u64>) -> Seq<u64>
    decreases 8 - file,
{
    if file >= 8 {
        ps
    } else {
        rank_placed(
            v,
            rank,
            file + 1,
            match v.piece_at((rank * 8 + file) as u8) {
                Some((kind, color)) => place(ps, piece_slot(color, kind), (rank * 8 + file) as u8),
                None => ps,
            },
        )
    }
}

/// `ps` with the pieces of `v` on the ranks from `rank` down added.
pub open spec fn ranks_placed(v: BoardView, rank: int, ps: Seq<u64>) -> Seq<u64>
    decreases rank,
{
    if rank <= 0 {
        rank_placed(v, 0, 0, ps)
    } else {
        ranks_placed(v, rank - 1, rank_placed(v, rank, 0, ps))
    }
}

/// A text lies in `s` from index `i` on.
pub open spec fn lies_at(s: Seq<char>, i: int, text: Seq<char>) -> bool {
    &&& 0 <= i
    &&& i + text.len() <= s.len()
    &&& forall|j: int| 0 <= j < text.len() ==> s[i + j] == #[trigger] text[j]
}

/// What the piece found on a square of a valid position is: a kind and a
/// colour whose bitboard holds the square, and whose letter reads back.
pub proof fn lemma_piece_found(v: BoardView, sq: u8)
    requires
        v.position_ok(),
        sq < 64,
    ensures
        match v.piece_at(sq) {
            Some((kind, color)) => {
                &&& kind <= 5
                &&& color <= 1
                &&& spec_is_set(v.pieces[piece_slot(color, kind)], sq)
                &&& piece_of_char(char_of_piece(kind, color)) == Some((kind, color))
                &&& !is_digit(char_of_piece(kind, color))
                &&& char_of_piece(kind, color) != '/'
                &&& !is_space(char_of_piece(kind, color))
            },
            None => forall|i: int| 0 <= i < 12 ==> !spec_is_set(#[trigger] v.pieces[i], sq),
        },
{
    lemma_union_of(v.pieces, 0, sq);
    lemma_union_of(v.pieces, 1, sq);
    lemma_kind_found(v.pieces, 0, sq);
    lemma_kind_found(v.pieces, 1, sq);
    lemma_census(v.pieces, sq);
}

/// The text of a rank is at most one character for each file that is
/// left, and one more for a pending run.
pub proof fn lemma_rank_text_len(v: BoardView, rank: int, file: int, empty: int)
    requires
        0 <= file <= 8,
    ensures
        rank_text(v, rank, file, empty).len() <= 2 * (8 - file) + 1,
    decreases 8 - file,
{
    if file < 8 {
        lemma_rank_text_len(v, rank, file + 1, 0);
        lemma_rank_text_len(v, rank, file + 1, empty + 1);
    }
}

/// Reading the text of a rank, written from `file` on with `empty` empty
/// squares pending, brings the reader to the end of the rank with the
/// pieces of the rank placed.
pub proof fn lemma_read_rank(
    v: BoardView,
    s: Seq<char>,
    i: int,
    rank: int,
    file: int,
    empty: int,
    ps: Seq<u64>,
)
    requires
        v.position_ok(),
        0 <= rank < 8,
        0 <= empty <= file <= 8,
        lies_at(s, i, rank_text(v, rank, file, empty)),
    ensures
        place_from(s, i, rank, file - empty, ps) == place_from(
            s,
            i + rank_text(v, rank, file, empty).len(),
            rank,
            8,
            rank_placed(v, rank, file, ps),
        ),
    decreases 8 - file,
{
    let text = rank_text(v, rank, file, empty);
    if file >= 8 {
        if empty > 0 {
            assert(text[0] == (48 + empty) as u8 as char);
        }
    } else {
        let sq = (rank * 8 + file) as u8;
        lemma_piece_found(v, sq);
        match v.piece_at(sq) {
            Some((kind, color)) => {
                let head = run_digit(empty).push(char_of_piece(kind, color));
                let rest = rank_text(v, rank, file + 1, 0);
                let i1 = i + run_digit(empty).len();
                if empty > 0 {
                    assert(text[0] == (48 + empty) as u8 as char);
                    assert(place_from(s, i, rank, file - empty, ps) == place_from(
                        s,
                        i + 1,
                        rank,
                        file,
                        ps,
                    ));
                }
                assert(text[run_digit(empty).len() as int] == char_of_piece(kind, color));
                let placed = place(ps, piece_slot(color, kind), sq);
                assert forall|j: int| 0 <= j < rest.len() implies s[i1 + 1 + j] == #[trigger] rest[j] by {
                    assert(text[head.len() + j] == rest[j]);
                }
                lemma_read_rank(v, s, i1 + 1, rank, file + 1, 0, placed);
            },
            None => {
                lemma_read_rank(v, s, i, rank, file + 1, empty + 1, ps);
            },
        }
    }
}

/// The text of a placement holds one `/` for each rank below the first
/// that it writes; its characters are no white space; it is not empty.
pub proof fn lemma_placement_shape(v: BoardView, rank: int)
    requires
        v.position_ok(),
        0 <= rank < 8,
    ensures
        slash_count(placement_text(v, rank), placement_text(v, rank).len() as int) == rank,
        forall|j: int|
            0 <= j < placement_text(v, rank).len() ==> !is_space(#[trigger] placement_text(v, rank)[j]),
        placement_text(v, rank).len() > 0,
    decreases rank,
{
    let first = rank_text(v, rank, 0, 0);
    lemma_rank_shape(v, rank, 0, 0);
    if rank > 0 {
        let rest = placement_text(v, rank - 1);
        lemma_placement_shape(v, rank - 1);
        let head = first.push('/');
        lemma_slash_count_append(head, rest, rest.len() as int);
        lemma_slash_count_same(head, first, first.len() as int);
    }
}

/// The text of a rank holds no `/` and no white space, and is not empty
/// when written from the first file.
pub proof fn lemma_rank_shape(v: BoardView, rank: int, file: int, empty: int)
    requires
        v.position_ok(),
        0 <= rank < 8,
        0 <= empty <= file <= 8,
    ensures
        slash_count(rank_text(v, rank, file, empty), rank_text(v, rank, file, empty).len() as int)
            == 0,
        forall|j: int|
            0 <= j < rank_text(v, rank, file, empty).len() ==> !is_space(
                #[trigger] rank_text(v, rank, file, empty)[j],
            ),
        file < 8 || empty > 0 ==> rank_text(v, rank, file, empty).len() > 0,
    decreases 8 - file,
{
    let text = rank_text(v, rank, file, empty);
    if file >= 8 {
        if empty > 0 {
            assert(slash_count(text, 1) == slash_count(text, 0) + 0);
        }
    } else {
        let sq = (rank * 8 + file) as u8;
        lemma_piece_found(v, sq);
        match v.piece_at(sq) {
            Some((kind, color)) => {
                let head = run_digit(empty).push(char_of_piece(kind, color));
                let rest = rank_text(v, rank, file + 1, 0);
                lemma_rank_shape(v, rank, file + 1, 0);
                lemma_slash_count_append(head, rest, rest.len() as int);
                assert(slash_count(head, head.len() as int) == 0) by {
                    if empty > 0 {
                        assert(slash_count(head, 1) == slash_count(head, 0));
                    } else {
                        assert(slash_count(head, 1) == slash_count(head, 0));
                    }
                }
            },
            None => {
                lemma_rank_shape(v, rank, file + 1, empty + 1);
            },
        }
    }
}

/// The count of `/` in a text of two parts is the sum of the two counts.
pub proof fn lemma_slash_count_append(a: Seq<char>, b: Seq<char>, n: int)
    requires
        0 <= n <= b.len(),
    ensures
        slash_count(a + b, a.len() + n) == slash_count(a, a.len() as int) + slash_count(b, n),
    decreases n,
{
    if n > 0 {
        lemma_slash_count_append(a, b, n - 1);
    } else {
        lemma_slash_count_same(a + b, a, a.len() as int);
    }
}

/// The count of `/` in the first `n` characters depends on them alone.
pub proof fn lemma_slash_count_same(a: Seq<char>, b: Seq<char>, n: int)
    requires
        0 <= n <= a.len(),
        n <= b.len(),
        forall|j: int| 0 <= j < n ==> a[j] == b[j],
    ensures
        slash_count(a, n) == slash_count(b, n),
    decreases n,
{
    if n > 0 {
        lemma_slash_count_same(a, b, n - 1);
    }
}

/// Reading the text of a placement, written from `rank` down, gives the
/// pieces of those ranks placed.
pub proof fn lemma_read_placement(v: BoardView, s: Seq<char>, i: int, rank: int, ps: Seq<u64>)
    requires
        v.position_ok(),
        0 <= rank < 8,
        lies_at(s, i, placement_text(v, rank)),
        i + placement_text(v, rank).len() == s.len(),
    ensures
        place_from(s, i, rank, 0, ps) == Ok::<Seq<u64>, FenParseError>(ranks_placed(v, rank, ps)),
    decreases rank,
{
    let first = rank_text(v, rank, 0, 0);
    let text = placement_text(v, rank);
    let after = rank_placed(v, rank, 0, ps);
    if rank > 0 {
        let rest = placement_text(v, rank - 1);
        assert forall|j: int| 0 <= j < first.len() implies s[i + j] == #[trigger] first[j] by {
            assert(text[j] == first[j]);
        }
        lemma_read_rank(v, s, i, rank, 0, 0, ps);
        let i1 = i + first.len();
        assert(text[first.len() as int] == '/');
        assert forall|j: int| 0 <= j < rest.len() implies s[i1 + 1 + j] == #[trigger] rest[j] by {
            assert(text[first.len() + 1 + j] == rest[j]);
        }
        lemma_read_placement(v, s, i1 + 1, rank - 1, after);
    } else {
        lemma_read_rank(v, s, i, 0, 0, 0, ps);
    }
}

/// Which squares the bitboards hold once the pieces of a rank are placed.
pub proof fn lemma_rank_placed_bits(v: BoardView, rank: int, file: int, ps: Seq<u64>, t: u8)
    requires
        v.position_ok(),
        ps.len() == 12,
        0 <= rank < 8,
        0 <= file <= 8,
        t < 64,
    ensures
        rank_placed(v, rank, file, ps).len() == 12,
        forall|i: int|
            0 <= i < 12 ==> (spec_is_set(#[trigger] rank_placed(v, rank, file, ps)[i], t) <==> (
            spec_is_set(ps[i], t) || (t as int / 8 == rank && t as int % 8 >= file && spec_is_set(
                v.pieces[i],
                t,
            )))),
    decreases 8 - file,
{
    if file < 8 {
        let sq = (rank * 8 + file) as u8;
        lemma_piece_found(v, sq);
        match v.piece_at(sq) {
            Some((kind, color)) => {
                let next = place(ps, piece_slot(color, kind), sq);
                lemma_place_at(ps, piece_slot(color, kind), sq, t);
                lemma_rank_placed_bits(v, rank, file + 1, next, t);
                if t == sq {
                    lemma_census(v.pieces, sq);
                    crate::hashing::lemma_kind_on(v.pieces, color, kind, sq);
                    assert forall|i: int| 0 <= i < 12 && spec_is_set(v.pieces[i], t) implies i
                        == piece_slot(color, kind) by {
                        crate::hashing::lemma_kind_on(v.pieces, (i / 6) as u8, (i % 6) as u8, t);
                    }
                }
            },
            None => {
                lemma_rank_placed_bits(v, rank, file + 1, ps, t);
            },
        }
    }
}

/// Which squares the bitboards hold once the pieces of the ranks from
/// `rank` down are placed.
pub proof fn lemma_ranks_placed_bits(v: BoardView, rank: int, ps: Seq<u64>, t: u8)
    requires
        v.position_ok(),
        ps.len() == 12,
        0 <= rank < 8,
        t < 64,
    ensures
        ranks_placed(v, rank, ps).len() == 12,
        forall|i: int|
            0 <= i < 12 ==> (spec_is_set(#[trigger] ranks_placed(v, rank, ps)[i], t) <==> (
            spec_is_set(ps[i], t) || (t as int / 8 <= rank && spec_is_set(v.pieces[i], t)))),
    decreases rank,
{
    lemma_rank_placed_bits(v, rank, 0, ps, t);
    if rank > 0 {
        lemma_ranks_placed_bits(v, rank - 1, rank_placed(v, rank, 0, ps), t);
    }
}

/// Placing all pieces of a valid position on empty bitboards gives its
/// bitboards.
pub proof fn lemma_all_placed(v: BoardView)
    requires
        v.position_ok(),
    ensures
        ranks_placed(v, 7, no_pieces()) == v.pieces,
{
    broadcast use group_bit_lemmas;

    let ps = ranks_placed(v, 7, no_pieces());
    lemma_ranks_placed_bits(v, 7, no_pieces(), 0);
    assert forall|i: int| 0 <= i < 12 implies ps[i] == v.pieces[i] by {
        assert forall|t: u8| t < 64 implies spec_is_set(ps[i], t) == spec_is_set(v.pieces[i], t) by {
            lemma_ranks_placed_bits(v, 7, no_pieces(), t);
        }
        lemma_bit_ext(ps[i], v.pieces[i]);
    }
}

/// The placement written for a valid position reads back as its bitboards.
pub proof fn lemma_placement_round_trip(v: BoardView)
    requires
        v.position_ok(),
    ensures
        parse_placement(placement_text(v, 7)) == Ok::<Seq<u64>, FenParseError>(v.pieces),
        placement_text(v, 7).len() > 0,
        forall|j: int|
            0 <= j < placement_text(v, 7).len() ==> !is_space(#[trigger] placement_text(v, 7)[j]),
{
    let text = placement_text(v, 7);
    lemma_placement_shape(v, 7);
    lemma_read_placement(v, text, 0, 7, no_pieces());
    lemma_all_placed(v);
}

} // verus!
