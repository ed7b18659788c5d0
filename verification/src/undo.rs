//! Proof that taking a move back restores the board it was made on.

use crate::bits::{group_bit_lemmas, lemma_bit_ext};
use crate::position::{
    castle_rook_from, castle_rook_to, disjoint, en_passant_victim, kind_on, make_spec, piece_slot,
    pieces_after, pieces_before, place, playable, remove, unmake_spec, vacant, BoardView, PAWN,
    ROOK,
};
use crate::utils::{lemma_move_ranges, spec_clear_bit, spec_is_set, spec_set_bit, Move};
use vstd::prelude::*;

verus! {

/// A piece moved from one square to a vacant other and back leaves its
/// bitboard as it was.
pub proof fn lemma_there_and_back(bb: u64, from: u8, to: u8)
    requires
        from < 64,
        to < 64,
        from != to,
        spec_is_set(bb, from),
        !spec_is_set(bb, to),
    ensures
        spec_set_bit(spec_clear_bit(spec_set_bit(spec_clear_bit(bb, from), to), to), from) == bb,
{
    broadcast use group_bit_lemmas;

    lemma_bit_ext(
        spec_set_bit(spec_clear_bit(spec_set_bit(spec_clear_bit(bb, from), to), to), from),
        bb,
    );
}

/// A piece taken off its square and put back leaves its bitboard as it was.
pub proof fn lemma_off_and_on(bb: u64, sq: u8)
    requires
        sq < 64,
        spec_is_set(bb, sq),
    ensures
        spec_set_bit(spec_clear_bit(bb, sq), sq) == bb,
{
    broadcast use group_bit_lemmas;

    lemma_bit_ext(spec_set_bit(spec_clear_bit(bb, sq), sq), bb);
}

/// A piece put on a vacant square and taken off leaves its bitboard as it was.
pub proof fn lemma_on_and_off(bb: u64, sq: u8)
    requires
        sq < 64,
        !spec_is_set(bb, sq),
    ensures
        spec_clear_bit(spec_set_bit(bb, sq), sq) == bb,
{
    broadcast use group_bit_lemmas;

    lemma_bit_ext(spec_clear_bit(spec_set_bit(bb, sq), sq), bb);
}

/// At most one colour has a piece on a square, and the square is vacant
/// exactly if neither has.
pub proof fn lemma_census(ps: Seq<u64>, sq: u8)
    requires
        ps.len() == 12,
        disjoint(ps),
        sq < 64,
    ensures
        kind_on(ps, 0, sq) is Some ==> kind_on(ps, 0, sq)->0 <= 5 && kind_on(ps, 1, sq) is None,
        kind_on(ps, 1, sq) is Some ==> kind_on(ps, 1, sq)->0 <= 5 && kind_on(ps, 0, sq) is None,
        vacant(ps, sq) <==> (kind_on(ps, 0, sq) is None && kind_on(ps, 1, sq) is None),
{
    reveal(kind_on);
    if kind_on(ps, 0, sq) is Some && kind_on(ps, 1, sq) is Some {
        reveal(disjoint);
    }
}

/// The kind found on a square is one of the six, and its bitboard holds the
/// square; a colour with no kind there has no bitboard that holds it.
pub proof fn lemma_kind_found(ps: Seq<u64>, color: u8, sq: u8)
    requires
        ps.len() == 12,
        color <= 1,
        sq < 64,
    ensures
        kind_on(ps, color, sq) is Some ==> kind_on(ps, color, sq)->0 <= 5 && spec_is_set(
            ps[piece_slot(color, kind_on(ps, color, sq)->0)],
            sq,
        ),
        kind_on(ps, color, sq) is None ==> forall|k: u8|
            k <= 5 ==> !spec_is_set(#[trigger] ps[piece_slot(color, k)], sq),
{
    reveal(kind_on);
}

/// Lifting a piece changes one square of one bitboard.
pub proof fn lemma_remove_at(ps: Seq<u64>, idx: int, s: u8, sq: u8)
    requires
        ps.len() == 12,
        0 <= idx < 12,
        s < 64,
        sq < 64,
    ensures
        forall|i: int|
            0 <= i < 12 ==> (#[trigger] spec_is_set(remove(ps, idx, s)[i], sq) == (spec_is_set(
                ps[i],
                sq,
            ) && !(i == idx && s == sq))),
{
    broadcast use group_bit_lemmas;

}

/// Putting a piece changes one square of one bitboard.
pub proof fn lemma_place_at(ps: Seq<u64>, idx: int, s: u8, sq: u8)
    requires
        ps.len() == 12,
        0 <= idx < 12,
        s < 64,
        sq < 64,
    ensures
        forall|i: int|
            0 <= i < 12 ==> (#[trigger] spec_is_set(place(ps, idx, s)[i], sq) == (spec_is_set(
                ps[i],
                sq,
            ) || (i == idx && s == sq))),
{
    broadcast use group_bit_lemmas;

}

/// A square is vacant once the only piece on it is lifted.
pub proof fn lemma_vacated(ps: Seq<u64>, idx: int, sq: u8)
    requires
        ps.len() == 12,
        disjoint(ps),
        0 <= idx < 12,
        sq < 64,
        spec_is_set(ps[idx], sq),
    ensures
        vacant(remove(ps, idx, sq), sq),
{
    reveal(disjoint);
    lemma_remove_at(ps, idx, sq, sq);
}

/// A vacant square stays vacant when a piece is lifted anywhere.
pub proof fn lemma_vacant_keep(ps: Seq<u64>, idx: int, s: u8, sq: u8)
    requires
        ps.len() == 12,
        0 <= idx < 12,
        s < 64,
        sq < 64,
        vacant(ps, sq),
    ensures
        vacant(remove(ps, idx, s), sq),
{
    lemma_remove_at(ps, idx, s, sq);
}

/// A vacant square stays vacant when a piece is put on another square.
pub proof fn lemma_vacant_put(ps: Seq<u64>, idx: int, s: u8, sq: u8)
    requires
        ps.len() == 12,
        0 <= idx < 12,
        s < 64,
        sq < 64,
        s != sq,
        vacant(ps, sq),
    ensures
        vacant(place(ps, idx, s), sq),
{
    lemma_place_at(ps, idx, s, sq);
}

/// A piece put on a square that its colour did not hold is the kind found there.
pub proof fn lemma_kind_after_place(ps: Seq<u64>, qs: Seq<u64>, color: u8, kind: u8, sq: u8)
    requires
        ps.len() == 12,
        qs.len() == 12,
        color <= 1,
        kind <= 5,
        sq < 64,
        kind_on(ps, color, sq) is None,
        forall|k: u8|
            k <= 5 ==> spec_is_set(#[trigger] qs[piece_slot(color, k)], sq) == (spec_is_set(
                ps[piece_slot(color, k)],
                sq,
            ) || k == kind),
    ensures
        kind_on(qs, color, sq) == Some(kind),
{
    reveal(kind_on);
    let b = color as int * 6;
    assert(qs[b] == qs[piece_slot(color, 0)]);
    assert(qs[b + 1] == qs[piece_slot(color, 1)]);
    assert(qs[b + 2] == qs[piece_slot(color, 2)]);
    assert(qs[b + 3] == qs[piece_slot(color, 3)]);
    assert(qs[b + 4] == qs[piece_slot(color, 4)]);
    assert(qs[b + 5] == qs[piece_slot(color, 5)]);
}

/// An ordinary move or a promotion, taken back: the moved piece returns to
/// its bitboard and the captured one to its own.
pub proof fn lemma_back_plain(
    ps: Seq<u64>,
    cm: int,
    cq: int,
    cap: Option<int>,
    from: u8,
    to: u8,
)
    requires
        ps.len() == 12,
        0 <= cm < 12,
        0 <= cq < 12,
        from < 64,
        to < 64,
        from != to,
        spec_is_set(ps[cm], from),
        !spec_is_set(ps[cm], to),
        !spec_is_set(ps[cq], to),
        cap is Some ==> 0 <= cap->0 < 12 && cap->0 != cm && cap->0 != cq && spec_is_set(
            ps[cap->0],
            to,
        ),
    ensures
        ({
            let ps1 = match cap {
                Some(e) => remove(ps, e, to),
                None => ps,
            };
            let after = place(remove(ps1, cm, from), cq, to);
            let back = place(remove(after, cq, to), cm, from);
            (match cap {
                Some(e) => place(back, e, to),
                None => back,
            }) == ps
        }),
{
    if cm == cq {
        lemma_there_and_back(ps[cm], from, to);
    } else {
        lemma_off_and_on(ps[cm], from);
        lemma_on_and_off(ps[cq], to);
    }
    match cap {
        Some(e) => {
            lemma_off_and_on(ps[e], to);
        },
        None => {},
    }
}

/// Castling, taken back: king and rook return to their bitboards.
pub proof fn lemma_back_castle(ps: Seq<u64>, ck: int, cr: int, from: u8, to: u8, rf: u8, rt: u8)
    requires
        ps.len() == 12,
        0 <= ck < 12,
        0 <= cr < 12,
        ck != cr,
        from < 64,
        to < 64,
        rf < 64,
        rt < 64,
        from != to,
        rf != rt,
        spec_is_set(ps[ck], from),
        !spec_is_set(ps[ck], to),
        spec_is_set(ps[cr], rf),
        !spec_is_set(ps[cr], rt),
    ensures
        place(
            remove(
                place(
                    remove(
                        place(place(remove(remove(ps, ck, from), cr, rf), cr, rt), ck, to),
                        cr,
                        rt,
                    ),
                    cr,
                    rf,
                ),
                ck,
                to,
            ),
            ck,
            from,
        ) == ps,
{
    lemma_there_and_back(ps[ck], from, to);
    lemma_there_and_back(ps[cr], rf, rt);
}

/// An en-passant capture, taken back: the pawn returns and its victim too.
pub proof fn lemma_back_en_passant(ps: Seq<u64>, cp: int, ev: int, from: u8, to: u8, vs: u8)
    requires
        ps.len() == 12,
        0 <= cp < 12,
        0 <= ev < 12,
        cp != ev,
        from < 64,
        to < 64,
        vs < 64,
        from != to,
        spec_is_set(ps[cp], from),
        !spec_is_set(ps[cp], to),
        spec_is_set(ps[ev], vs),
    ensures
        place(
            place(remove(place(remove(remove(ps, cp, from), ev, vs), cp, to), cp, to), cp, from),
            ev,
            vs,
        ) == ps,
{
    lemma_there_and_back(ps[cp], from, to);
    lemma_off_and_on(ps[ev], vs);
}

/// The bitboards after a playable move, put back, are the bitboards before it.
pub proof fn lemma_pieces_round_trip(v: BoardView, m: Move)
    requires
        v.shape_ok(),
        playable(v, m),
    ensures
        pieces_before(make_spec(v, m)) == v.pieces,
{
    reveal(playable);
    reveal(make_spec);
    lemma_move_ranges(m);
    let from = m.spec_from();
    let to = m.spec_to();
    let color = v.side;
    let enemy = (1 - color) as u8;
    let ps = v.pieces;
    lemma_kind_found(ps, color, from);
    lemma_kind_found(ps, color, to);
    lemma_kind_found(ps, enemy, to);
    let mover = kind_on(ps, color, from)->0;
    let captured = kind_on(ps, enemy, to);
    let cm = piece_slot(color, mover);
    let cap: Option<int> = match captured {
        Some(k) => Some(piece_slot(enemy, k)),
        None => None,
    };
    if m.spec_is_castle() {
        let rf = castle_rook_from(to);
        let rt = castle_rook_to(to);
        let cr = piece_slot(color, ROOK);
        lemma_census(ps, to);
        lemma_back_castle(ps, cm, cr, from, to, rf, rt);
    } else if m.spec_is_en_passant() {
        let vs = en_passant_victim(from, to);
        let ev = piece_slot(enemy, PAWN);
        lemma_census(ps, to);
        lemma_back_en_passant(ps, cm, ev, from, to, vs);
    } else if m.spec_is_promotion() {
        let q = m.spec_promotion();
        let cq = piece_slot(color, q);
        lemma_back_plain(ps, cm, cq, cap, from, to);
    } else {
        let after = pieces_after(v, m);
        let ps1 = match cap {
            Some(e) => remove(ps, e, to),
            None => ps,
        };
        let ps2 = remove(ps1, cm, from);
        match cap {
            Some(e) => {
                lemma_remove_at(ps, e, to, to);
            },
            None => {},
        }
        lemma_remove_at(ps1, cm, from, to);
        lemma_place_at(ps2, cm, to, to);
        lemma_kind_after_place(ps, after, color, mover, to);
        lemma_back_plain(ps, cm, cm, cap, from, to);
    }
}

/// Taking back a playable move restores every field of the board it was
/// made on: bitboards, occupancy, side, castling rights, en-passant square,
/// both clocks, hash and history.
pub proof fn lemma_make_unmake(v: BoardView, m: Move)
    requires
        v.position_ok(),
        playable(v, m),
    ensures
        unmake_spec(make_spec(v, m)) == v,
{
    reveal(playable);
    reveal(make_spec);
    reveal(unmake_spec);
    lemma_pieces_round_trip(v, m);
    let w = make_spec(v, m);
    let u = unmake_spec(w);
    assert(u.history =~= v.history);
}

} // verus!
