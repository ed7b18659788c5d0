//! Making a move and taking it back.

use crate::bits::lemma_xor_laws;
use crate::board::{rights_lost_by, Board};
use crate::hashing::{
    lemma_castling_drop, lemma_castling_mask, lemma_disjoint_place, lemma_disjoint_remove,
    lemma_hash_place, lemma_hash_remove, lemma_union_of, lemma_xor4,
};
use crate::position::{
    castling_hash, en_passant_hash, en_passant_ok, kind_on, make_spec, piece_slot, pieces_after,
    pieces_before, pieces_hash, place, playable, position_hash, remove, right_bit, right_hash,
    side_hash, unmake_spec, vacant, BoardView, History, BLACK, CASTLE_BK, CASTLE_BQ, CASTLE_WK,
    CASTLE_WQ, KING, PAWN, ROOK, WHITE,
};
use crate::undo::{
    lemma_census, lemma_kind_found, lemma_make_unmake, lemma_vacant_keep, lemma_vacant_put,
    lemma_vacated,
};
use crate::utils::{bit_at, distance, file_of, lemma_move_ranges, rank_of, spec_is_set, Move};
use crate::zobrist::{piece_key, side_key, Zobrist};
use vstd::prelude::*;

verus! {

impl Board {
    /// Clears one square of one bitboard.
    pub(crate) fn clear_square(&mut self, color: u8, kind: u8, sq: u8)
        requires
            color <= 1,
            kind <= 5,
            sq < 64,
        ensures
            final(self).keys == old(self).keys,
            final(self)@ == (BoardView {
                pieces: remove(old(self)@.pieces, piece_slot(color, kind), sq),
                ..old(self)@
            }),
    {
        let c = color as usize;
        let k = kind as usize;
        self.pieces[c][k] = self.pieces[c][k] & !bit_at(sq);
        assert(self@.pieces =~= remove(old(self)@.pieces, piece_slot(color, kind), sq));
    }

    /// Sets one square of one bitboard.
    pub(crate) fn fill_square(&mut self, color: u8, kind: u8, sq: u8)
        requires
            color <= 1,
            kind <= 5,
            sq < 64,
        ensures
            final(self).keys == old(self).keys,
            final(self)@ == (BoardView {
                pieces: place(old(self)@.pieces, piece_slot(color, kind), sq),
                ..old(self)@
            }),
    {
        let c = color as usize;
        let k = kind as usize;
        self.pieces[c][k] = self.pieces[c][k] | bit_at(sq);
        assert(self@.pieces =~= place(old(self)@.pieces, piece_slot(color, kind), sq));
    }

    /// Exclusive-ors a key into the hash.
    pub(crate) fn toggle(&mut self, key: u64)
        ensures
            final(self).keys == old(self).keys,
            final(self)@ == (BoardView { hash: old(self)@.hash ^ key, ..old(self)@ }),
    {
        self.hash = self.hash ^ key;
    }

    /// Takes the piece of the given colour and kind off a square.
    pub(crate) fn lift(&mut self, color: u8, kind: u8, sq: u8)
        requires
            old(self).core_ok(),
            color <= 1,
            kind <= 5,
            sq < 64,
            spec_is_set(old(self)@.bb(color, kind), sq),
        ensures
            final(self).core_ok(),
            final(self).keys == old(self).keys,
            final(self)@ == (BoardView {
                pieces: remove(old(self)@.pieces, piece_slot(color, kind), sq),
                hash: final(self)@.hash,
                ..old(self)@
            }),
    {
        let idx = Zobrist::piece_index(kind, color);
        let ghost v = self@;
        let key = self.keys.pieces[idx][sq as usize];
        self.clear_square(color, kind, sq);
        self.toggle(key);
        proof {
            lemma_hash_remove(v.pieces, idx as int, sq);
            lemma_disjoint_remove(v.pieces, idx as int, sq);
            lemma_xor4(
                pieces_hash(v.pieces, 12),
                side_hash(v.side),
                castling_hash(v.castling),
                en_passant_hash(v.en_passant),
                piece_key(idx as int, sq as int),
            );
        }
    }

    /// Puts a piece of the given colour and kind on a vacant square.
    pub(crate) fn put(&mut self, color: u8, kind: u8, sq: u8)
        requires
            old(self).core_ok(),
            color <= 1,
            kind <= 5,
            sq < 64,
            vacant(old(self)@.pieces, sq),
        ensures
            final(self).core_ok(),
            final(self).keys == old(self).keys,
            final(self)@ == (BoardView {
                pieces: place(old(self)@.pieces, piece_slot(color, kind), sq),
                hash: final(self)@.hash,
                ..old(self)@
            }),
    {
        let idx = Zobrist::piece_index(kind, color);
        let ghost v = self@;
        let key = self.keys.pieces[idx][sq as usize];
        self.fill_square(color, kind, sq);
        self.toggle(key);
        proof {
            lemma_hash_place(v.pieces, idx as int, sq);
            lemma_disjoint_place(v.pieces, idx as int, sq);
            lemma_xor4(
                pieces_hash(v.pieces, 12),
                side_hash(v.side),
                castling_hash(v.castling),
                en_passant_hash(v.en_passant),
                piece_key(idx as int, sq as int),
            );
        }
    }

    /// Gives up castling right `i`.
    pub(crate) fn drop_right(&mut self, i: usize, bit: u8)
        requires
            old(self).core_ok(),
            i < 4,
            bit == right_bit(i as int),
        ensures
            final(self).core_ok(),
            final(self).keys == old(self).keys,
            final(self)@ == (BoardView {
                castling: old(self)@.castling & !bit,
                hash: final(self)@.hash,
                ..old(self)@
            }),
    {
        let ghost v = self@;
        proof {
            lemma_castling_drop(v.castling, i as int);
            lemma_xor4(
                pieces_hash(v.pieces, 12),
                side_hash(v.side),
                castling_hash(v.castling),
                en_passant_hash(v.en_passant),
                right_hash(v.castling, i as int),
            );
            lemma_xor_laws(v.hash, 0, 0);
        }
        if self.castling & bit != 0 {
            self.hash = self.hash ^ self.keys.castling[i];
        }
        self.castling = self.castling & !bit;
    }

    /// Gives up every castling right in `mask`.
    pub(crate) fn drop_rights(&mut self, mask: u8)
        requires
            old(self).core_ok(),
        ensures
            final(self).core_ok(),
            final(self).keys == old(self).keys,
            final(self)@ == (BoardView {
                castling: old(self)@.castling & !mask,
                hash: final(self)@.hash,
                ..old(self)@
            }),
    {
        let ghost c = self.castling;
        if mask & CASTLE_WK != 0 {
            self.drop_right(0, CASTLE_WK);
        }
        let ghost x0 = self.castling;
        if mask & CASTLE_WQ != 0 {
            self.drop_right(1, CASTLE_WQ);
        }
        let ghost x1 = self.castling;
        if mask & CASTLE_BK != 0 {
            self.drop_right(2, CASTLE_BK);
        }
        let ghost x2 = self.castling;
        if mask & CASTLE_BQ != 0 {
            self.drop_right(3, CASTLE_BQ);
        }
        proof {
            lemma_castling_mask(c, mask, x0, x1, x2, self.castling);
        }
    }

    /// Sets the en-passant square.
    pub(crate) fn set_en_passant(&mut self, ep: Option<u8>)
        requires
            old(self).core_ok(),
            en_passant_ok(ep),
        ensures
            final(self).core_ok(),
            final(self).keys == old(self).keys,
            final(self)@ == (BoardView {
                en_passant: ep,
                hash: final(self)@.hash,
                ..old(self)@
            }),
    {
        let ghost v = self@;
        let ghost p = pieces_hash(v.pieces, 12);
        let ghost s = side_hash(v.side);
        let ghost c = castling_hash(v.castling);
        match self.en_passant {
            Some(sq) => {
                let key = self.keys.en_passant[file_of(sq) as usize];
                proof {
                    lemma_xor4(p, s, c, key, key);
                    lemma_xor_laws(key, 0, 0);
                }
                self.hash = self.hash ^ key;
            },
            None => {},
        }
        self.en_passant = None;
        match ep {
            Some(sq) => {
                let key = self.keys.en_passant[file_of(sq) as usize];
                proof {
                    lemma_xor4(p, s, c, 0, key);
                    lemma_xor_laws(key, 0, 0);
                }
                self.hash = self.hash ^ key;
            },
            None => {},
        }
        self.en_passant = ep;
    }

    /// Hands the move to the other side.
    pub(crate) fn flip_side(&mut self)
        requires
            old(self).core_ok(),
        ensures
            final(self).core_ok(),
            final(self).keys == old(self).keys,
            final(self)@ == (BoardView {
                side: (1 - old(self)@.side) as u8,
                hash: final(self)@.hash,
                ..old(self)@
            }),
    {
        let ghost v = self@;
        proof {
            lemma_xor4(
                pieces_hash(v.pieces, 12),
                side_hash(v.side),
                castling_hash(v.castling),
                en_passant_hash(v.en_passant),
                side_key(),
            );
            lemma_xor_laws(side_key(), 0, 0);
        }
        self.side = 1 - self.side;
        self.hash = self.hash ^ self.keys.side;
    }

    /// Moves the rook of a castling move and lands the king.
    pub(crate) fn land_castle(&mut self, color: u8, to: u8)
        requires
            old(self).core_ok(),
            color <= 1,
            to == 6 || to == 2 || to == 62 || to == 58,
            vacant(old(self)@.pieces, to),
            vacant(old(self)@.pieces, crate::position::castle_rook_to(to)),
            spec_is_set(old(self)@.bb(color, ROOK), crate::position::castle_rook_from(to)),
        ensures
            final(self).core_ok(),
            final(self).keys == old(self).keys,
            final(self)@ == (BoardView {
                pieces: place(
                    place(
                        remove(
                            old(self)@.pieces,
                            piece_slot(color, ROOK),
                            crate::position::castle_rook_from(to),
                        ),
                        piece_slot(color, ROOK),
                        crate::position::castle_rook_to(to),
                    ),
                    piece_slot(color, KING),
                    to,
                ),
                hash: final(self)@.hash,
                ..old(self)@
            }),
    {
        let rook_from: u8 = if to == 6 {
            7
        } else if to == 2 {
            0
        } else if to == 62 {
            63
        } else {
            56
        };
        let rook_to: u8 = if to == 6 {
            5
        } else if to == 2 {
            3
        } else if to == 62 {
            61
        } else {
            59
        };
        let ghost ps = self@.pieces;
        let ghost cr = piece_slot(color, ROOK);
        self.lift(color, ROOK, rook_from);
        let ghost ps3 = self@.pieces;
        proof {
            lemma_vacant_keep(ps, cr, rook_from, rook_to);
            lemma_vacant_keep(ps, cr, rook_from, to);
        }
        self.put(color, ROOK, rook_to);
        proof {
            lemma_vacant_put(ps3, cr, rook_to, to);
        }
        self.put(color, KING, to);
    }

    /// Moves the pieces of a move: lifts what is captured, lifts the mover
    /// and lands what the flag says.
    pub(crate) fn relocate(&mut self, mov: Move, piece: u8, captured: Option<u8>)
        requires
            old(self).core_ok(),
            playable(old(self)@, mov),
            Some(piece) == kind_on(old(self)@.pieces, old(self)@.side, mov.spec_from()),
            captured == kind_on(
                old(self)@.pieces,
                (1 - old(self)@.side) as u8,
                mov.spec_to(),
            ),
        ensures
            final(self).core_ok(),
            final(self).keys == old(self).keys,
            final(self)@ == (BoardView {
                pieces: pieces_after(old(self)@, mov),
                hash: final(self)@.hash,
                ..old(self)@
            }),
    {
        let from = mov.from();
        let to = mov.to();
        let color = self.side;
        let enemy = 1 - color;
        let ghost v = self@;
        let ghost ps = v.pieces;
        let ghost cm = piece_slot(color, piece);
        proof {
            reveal(playable);
            lemma_census(ps, to);
            lemma_kind_found(ps, color, from);
            lemma_kind_found(ps, enemy, to);
        }
        match captured {
            Some(k) => {
                proof {
                    lemma_vacated(ps, piece_slot(enemy, k), to);
                }
                self.lift(enemy, k, to);
            },
            None => {},
        }
        let ghost ps1 = self@.pieces;
        self.lift(color, piece, from);
        let ghost ps2 = self@.pieces;
        proof {
            lemma_vacant_keep(ps1, cm, from, to);
        }
        if mov.is_castle() {
            proof {
                lemma_vacant_keep(ps1, cm, from, crate::position::castle_rook_to(to));
            }
            self.land_castle(color, to);
        } else if mov.is_en_passant() {
            let victim: u8 = rank_of(from) * 8 + file_of(to);
            let ghost ev = piece_slot(enemy, PAWN);
            self.lift(enemy, PAWN, victim);
            proof {
                lemma_vacant_keep(ps2, ev, victim, to);
            }
            self.put(color, piece, to);
        } else if mov.is_promotion() {
            self.put(color, mov.promotion(), to);
        } else {
            self.put(color, piece, to);
        }
    }

    /// Makes a move and records what is needed to take it back.
    ///
    /// The hash is updated key by key; that it equals the hash computed from
    /// scratch for the new position is part of what is proved here.
    pub fn make_move(&mut self, mov: Move)
        requires
            old(self).wf(),
            playable(old(self)@, mov),
        ensures
            final(self).wf(),
            final(self).keys == old(self).keys,
            final(self)@ == make_spec(old(self)@, mov),
            unmake_spec(final(self)@) == old(self)@,
            final(self)@.history.len() == old(self)@.history.len() + 1,
            final(self)@.side == 1 - old(self)@.side,
            final(self)@.hash == position_hash(
                final(self)@.pieces,
                final(self)@.side,
                final(self)@.castling,
                final(self)@.en_passant,
            ),
    {
        proof {
            reveal(playable);
            reveal(make_spec);
        }
        let from = mov.from();
        let to = mov.to();
        let color = self.side;
        let ghost v = self@;
        let ghost ps = v.pieces;
        proof {
            lemma_union_of(ps, 0, to);
            lemma_union_of(ps, 1, to);
            lemma_union_of(ps, 0, from);
            lemma_union_of(ps, 1, from);
            lemma_census(ps, from);
            lemma_census(ps, to);
        }
        let captured: Option<u8> = match self.piece_at(to) {
            Some((k, _)) => Some(k),
            None => None,
        };
        let piece: u8 = match self.piece_at(from) {
            Some((k, _)) => k,
            None => {
                PAWN
            },
        };
        let hist = History {
            mov,
            captured,
            castling: self.castling,
            en_passant: self.en_passant,
            halfmove: self.halfmove,
            hash: self.hash,
        };
        self.relocate(mov, piece, captured);
        let ep: Option<u8> = if mov.flags() == 0 && piece == PAWN && distance(from, to) == 2 {
            Some(((rank_of(from) + rank_of(to)) / 2) * 8 + file_of(from))
        } else {
            None
        };
        self.set_en_passant(ep);
        let lost = rights_lost_by(piece, color, from, captured, to);
        self.drop_rights(lost);
        self.flip_side();
        if piece == PAWN || captured.is_some() {
            self.halfmove = 0;
        } else if self.halfmove < u16::MAX {
            self.halfmove = self.halfmove + 1;
        }
        if self.side == WHITE {
            self.fullmove = self.fullmove.wrapping_add(1);
        }
        self.history.push(hist);
        self.update_occupancy();
        proof {
            lemma_make_unmake(v, mov);
        }
    }

    /// Puts the bitboards back as they were before the last move.
    pub(crate) fn restore_pieces(&mut self, hist: History)
        requires
            old(self)@.side <= 1,
            hist.captured is Some ==> hist.captured->0 <= 5,
        ensures
            final(self).keys == old(self).keys,
            final(self)@ == (BoardView {
                pieces: pieces_before(
                    BoardView {
                        history: seq![hist],
                        side: (1 - old(self)@.side) as u8,
                        ..old(self)@
                    },
                ),
                ..old(self)@
            }),
    {
        let mov = hist.mov;
        let from = mov.from();
        let to = mov.to();
        let color = self.side;
        let enemy = 1 - color;
        if mov.is_castle() {
            let rook_from: u8 = if to == 6 {
                7
            } else if to == 2 {
                0
            } else if to == 62 {
                63
            } else {
                56
            };
            let rook_to: u8 = if to == 6 {
                5
            } else if to == 2 {
                3
            } else if to == 62 {
                61
            } else {
                59
            };
            self.clear_square(color, ROOK, rook_to);
            self.fill_square(color, ROOK, rook_from);
            self.clear_square(color, KING, to);
            self.fill_square(color, KING, from);
        } else if mov.is_en_passant() {
            let victim: u8 = rank_of(from) * 8 + file_of(to);
            self.clear_square(color, PAWN, to);
            self.fill_square(color, PAWN, from);
            self.fill_square(enemy, PAWN, victim);
        } else {
            let moved: u8 = if mov.is_promotion() {
                mov.promotion()
            } else {
                match self.kind_of(color, to) {
                    Some(k) => k,
                    None => PAWN,
                }
            };
            let home: u8 = if mov.is_promotion() {
                PAWN
            } else {
                moved
            };
            proof {
                lemma_kind_found(self@.pieces, color, to);
            }
            self.clear_square(color, moved, to);
            self.fill_square(color, home, from);
            match hist.captured {
                Some(k) => {
                    self.fill_square(enemy, k, to);
                },
                None => {},
            }
        }
    }

    /// Takes back the last move.
    pub fn unmake_move(&mut self)
        requires
            old(self).wf(),
            old(self)@.history.len() > 0,
        ensures
            final(self).wf(),
            final(self).keys == old(self).keys,
            final(self)@ == unmake_spec(old(self)@),
            final(self)@.hash == position_hash(
                final(self)@.pieces,
                final(self)@.side,
                final(self)@.castling,
                final(self)@.en_passant,
            ),
    {
        let ghost v = self@;
        let ghost p = unmake_spec(v);
        proof {
            reveal(playable);
            reveal(make_spec);
            reveal(unmake_spec);
            lemma_move_ranges(v.history.last().mov);
            lemma_kind_found(p.pieces, (1 - p.side) as u8, v.history.last().mov.spec_to());
        }
        let hist = match self.history.pop() {
            Some(h) => h,
            None => {
                return ;
            },
        };
        self.side = 1 - self.side;
        if self.side == BLACK {
            self.fullmove = self.fullmove.wrapping_sub(1);
        }
        self.restore_pieces(hist);
        self.castling = hist.castling;
        self.en_passant = hist.en_passant;
        self.halfmove = hist.halfmove;
        self.hash = hist.hash;
        self.update_occupancy();
    }
}

} // verus!
