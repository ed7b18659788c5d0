//! Advice for the player: a tip that fits the position, and a hint at a
//! move worth considering.

use crate::attacks::{attacked, in_check, in_check_spec, is_square_attacked, king_square};
use crate::board::Board;
use crate::movegen::generate_legal_moves;
use crate::position::{make_spec, playable, BoardView, BISHOP, KING, KNIGHT, PAWN, ROOK, WHITE};
use crate::rules::legal;
use crate::sequences::legal_seq;
use crate::soundness::lemma_pseudo_playable;
use crate::text::push_text;
use crate::utils::{file_of, is_set, lsb, spec_file_of, spec_is_set, Move};
use vstd::prelude::*;

verus! {

/// Tip to develop the minor pieces.
pub const DEVELOPMENT_TIP: &'static str =
    "💡 TIP: Develop your knights and bishops before moving the same piece twice!";

/// Tip to take the centre.
pub const CENTER_TIP: &'static str = "💡 TIP: Control the center with your pawns (e4, d4, e5, d5)!";

/// Tip to castle.
pub const CASTLING_TIP: &'static str = "💡 TIP: Consider castling to get your king to safety!";

/// Tip to bring the pieces out.
pub const ACTIVITY_TIP: &'static str = "💡 TIP: Activate your pieces! Move them to better squares.";

/// Warning that the side to move is in check.
pub const IN_CHECK_TIP: &'static str =
    "⚠️  You're in CHECK! You must move your king, block, or capture the attacking piece.";

/// Note that the side to move attacks the other king.
pub const GIVING_CHECK_TIP: &'static str = "✅ CHECK! You're attacking the opponent's king!";

/// What the hint says when there is no legal move.
pub const NO_MOVES_HINT: &'static str = "No legal moves available!";

/// The ten general tips.
pub open spec fn general_tip_text(index: int) -> Seq<char> {
    if index == 0 {
        "♟️ Opening principles: Control center, develop pieces, castle early!"@
    } else if index == 1 {
        "♞ Knights are best on the rim when they're dim - keep them central!"@
    } else if index == 2 {
        "♗ Bishops love open diagonals - don't trap them behind pawns!"@
    } else if index == 3 {
        "♜ Rooks belong on open files and the 7th rank!"@
    } else if index == 4 {
        "♛ Don't bring your queen out too early - she can be attacked!"@
    } else if index == 5 {
        "♚ Castle early to keep your king safe!"@
    } else if index == 6 {
        "⚔️ Look for tactics: forks, pins, skewers, and discoveries!"@
    } else if index == 7 {
        "🎯 Always check for captures, checks, and threats before moving!"@
    } else if index == 8 {
        "📊 Every move should have a purpose - improve your position!"@
    } else {
        "🔄 When you see a good move, look for a better one!"@
    }
}

/// 1 if the square is in the board, else 0.
pub open spec fn one_if(bb: u64, sq: u8) -> int {
    if spec_is_set(bb, sq) {
        1
    } else {
        0
    }
}

/// Number of knights and bishops of the side to move that still stand on
/// their home squares.
pub open spec fn undeveloped(v: BoardView) -> int {
    let knights = v.bb(v.side, KNIGHT);
    let bishops = v.bb(v.side, BISHOP);
    let base: u8 = if v.side == WHITE {
        0
    } else {
        56
    };
    one_if(knights, (base + 1) as u8) + one_if(knights, (base + 6) as u8) + one_if(
        bishops,
        (base + 2) as u8,
    ) + one_if(bishops, (base + 5) as u8)
}

/// From the fifth move on, two or more minor pieces are still at home.
pub open spec fn development_due(v: BoardView) -> bool {
    undeveloped(v) >= 2 && v.fullmove >= 5
}

/// What the side to move holds of a centre square: 2 for a pawn on it,
/// 1 for an attack on it.
pub open spec fn square_control(v: BoardView, sq: u8) -> int {
    if spec_is_set(v.bb(v.side, PAWN), sq) {
        2
    } else if attacked(v, sq, v.side) {
        1
    } else {
        0
    }
}

/// What the side to move holds of the four centre squares.
pub open spec fn center_control(v: BoardView) -> int {
    square_control(v, 27) + square_control(v, 28) + square_control(v, 35) + square_control(v, 36)
}

/// Up to the tenth move, the side to move holds nothing of the centre.
pub open spec fn center_due(v: BoardView) -> bool {
    center_control(v) == 0 && v.fullmove <= 10
}

/// From the eighth move on, the king still stands on the d- or e-file and
/// its side may still castle.
pub open spec fn castling_due(v: BoardView) -> bool {
    let sq = king_square(v, v.side);
    let rights: u8 = if v.side == WHITE {
        3
    } else {
        12
    };
    &&& sq < 64
    &&& 3 <= spec_file_of(sq) <= 4
    &&& v.castling & rights != 0
    &&& v.fullmove >= 8
}

/// Number of pieces of the side to move, other than king and rooks, on
/// the first `files` files of its back rank.
pub open spec fn back_rank_pieces(v: BoardView, files: int) -> int
    decreases files,
{
    if files <= 0 {
        0
    } else {
        let rank: int = if v.side == WHITE {
            0
        } else {
            7
        };
        back_rank_pieces(v, files - 1) + match v.piece_at((rank * 8 + files - 1) as u8) {
            Some((kind, color)) => if color == v.side && kind != KING && kind != ROOK {
                1int
            } else {
                0int
            },
            None => 0int,
        }
    }
}

/// From the fifteenth move on, three or more pieces are still on the back rank.
pub open spec fn activity_due(v: BoardView) -> bool {
    back_rank_pieces(v, 8) >= 3 && v.fullmove >= 15
}

/// The side to move attacks the king of the other side.
pub open spec fn gives_check(v: BoardView) -> bool {
    let sq = king_square(v, (1 - v.side) as u8);
    sq < 64 && attacked(v, sq, v.side)
}

/// The tip for a position: the first that is due of development, centre,
/// castling, activity and check, and else a general tip chosen by the
/// clocks.
pub open spec fn tip_text(v: BoardView) -> Seq<char> {
    if development_due(v) {
        DEVELOPMENT_TIP@
    } else if center_due(v) {
        CENTER_TIP@
    } else if castling_due(v) {
        CASTLING_TIP@
    } else if activity_due(v) {
        ACTIVITY_TIP@
    } else if in_check_spec(v) {
        IN_CHECK_TIP@
    } else if gives_check(v) {
        GIVING_CHECK_TIP@
    } else {
        general_tip_text((v.fullmove + v.halfmove) % 10)
    }
}

/// How much a move recommends itself: 10 for a capture, 5 for a check,
/// 3 for a move to the centre.
pub open spec fn hint_score(v: BoardView, m: Move) -> int {
    let to = m.spec_to();
    (if v.piece_at(to) is Some {
        10int
    } else {
        0int
    }) + (if in_check_spec(make_spec(v, m)) {
        5int
    } else {
        0int
    }) + (if to == 27 || to == 28 || to == 35 || to == 36 {
        3int
    } else {
        0int
    })
}

/// Index and score of the first of the first `n` moves that scores
/// highest; index 0 and score 0 when none scores above 0.
pub open spec fn best_hint(v: BoardView, moves: Seq<Move>, n: nat) -> (nat, int)
    decreases n,
{
    if n == 0 {
        (0nat, 0int)
    } else {
        let before = best_hint(v, moves, (n - 1) as nat);
        if hint_score(v, moves[n - 1]) > before.1 {
            ((n - 1) as nat, hint_score(v, moves[n - 1]))
        } else {
            before
        }
    }
}

/// The hint for a position: that there is no legal move; or the first
/// legal move of the highest score, if that score is above 0; or else the
/// legal move whose place in the order of generation the move number
/// chooses.
pub open spec fn hint_text(v: BoardView) -> Seq<char> {
    let moves = legal_seq(v);
    if moves.len() == 0 {
        NO_MOVES_HINT@
    } else {
        let best = best_hint(v, moves, moves.len());
        if best.1 > 0 {
            consider_text(moves[best.0 as int])
        } else {
            decent_text(moves[(v.fullmove as int) % (moves.len() as int)])
        }
    }
}

/// The hint that recommends a move.
pub open spec fn consider_text(m: Move) -> Seq<char> {
    "💭 HINT: Consider "@ + m.spec_to_string() + " (captures center, or gives check)"@
}

/// The hint that names a move without recommending it.
pub open spec fn decent_text(m: Move) -> Seq<char> {
    "💭 HINT: "@ + m.spec_to_string() + " is a decent move"@
}

/// Source of tips and hints.
pub struct TipsEngine;

impl TipsEngine {
    /// A tip for the position.
    pub fn get_tip(board: &Board) -> (tip: String)
        requires
            board.side <= 1,
        ensures
            tip@ == tip_text(board@),
    {
        match Self::check_development_tip(board) {
            Some(t) => { return t; },
            None => {},
        }
        match Self::check_center_control_tip(board) {
            Some(t) => { return t; },
            None => {},
        }
        match Self::check_king_safety_tip(board) {
            Some(t) => { return t; },
            None => {},
        }
        match Self::check_piece_activity_tip(board) {
            Some(t) => { return t; },
            None => {},
        }
        match Self::check_tactical_tip(board) {
            Some(t) => { return t; },
            None => {},
        }
        Self::get_general_tip(board)
    }

    /// The development tip, if it is due.
    pub fn check_development_tip(board: &Board) -> (tip: Option<String>)
        requires
            board.side <= 1,
        ensures
            match tip {
                Some(t) => development_due(board@) && t@ == DEVELOPMENT_TIP@,
                None => !development_due(board@),
            },
    {
        let color = board.side as usize;
        let base: u8 = if board.side == WHITE {
            0
        } else {
            56
        };
        let knights = board.pieces[color][1];
        let bishops = board.pieces[color][2];
        let mut undeveloped: u8 = 0;
        if is_set(knights, base + 1) {
            undeveloped += 1;
        }
        if is_set(knights, base + 6) {
            undeveloped += 1;
        }
        if is_set(bishops, base + 2) {
            undeveloped += 1;
        }
        if is_set(bishops, base + 5) {
            undeveloped += 1;
        }
        if undeveloped >= 2 && board.fullmove >= 5 {
            Some(String::from_str(DEVELOPMENT_TIP))
        } else {
            None
        }
    }

    /// What the side to move holds of a centre square.
    fn control_of(board: &Board, sq: u8) -> (c: u8)
        requires
            board.side <= 1,
            sq < 64,
        ensures
            c == square_control(board@, sq),
    {
        if is_set(board.pieces[board.side as usize][0], sq) {
            2
        } else if is_square_attacked(board, sq, board.side) {
            1
        } else {
            0
        }
    }

    /// The centre tip, if it is due.
    pub fn check_center_control_tip(board: &Board) -> (tip: Option<String>)
        requires
            board.side <= 1,
        ensures
            match tip {
                Some(t) => center_due(board@) && t@ == CENTER_TIP@,
                None => !center_due(board@),
            },
    {
        let control = Self::control_of(board, 27) + Self::control_of(board, 28) + Self::control_of(
            board,
            35,
        ) + Self::control_of(board, 36);
        if control == 0 && board.fullmove <= 10 {
            Some(String::from_str(CENTER_TIP))
        } else {
            None
        }
    }

    /// The castling tip, if it is due.
    pub fn check_king_safety_tip(board: &Board) -> (tip: Option<String>)
        requires
            board.side <= 1,
        ensures
            match tip {
                Some(t) => castling_due(board@) && t@ == CASTLING_TIP@,
                None => !castling_due(board@),
            },
    {
        let king_bb = board.pieces[board.side as usize][5];
        let king_sq = lsb(king_bb);
        if king_sq < 64 {
            let king_file = file_of(king_sq);
            if king_file >= 3 && king_file <= 4 {
                let rights: u8 = if board.side == WHITE {
                    3
                } else {
                    12
                };
                if (board.castling & rights) != 0 && board.fullmove >= 8 {
                    return Some(String::from_str(CASTLING_TIP));
                }
            }
        }
        None
    }

    /// The activity tip, if it is due.
    pub fn check_piece_activity_tip(board: &Board) -> (tip: Option<String>)
        requires
            board.side <= 1,
        ensures
            match tip {
                Some(t) => activity_due(board@) && t@ == ACTIVITY_TIP@,
                None => !activity_due(board@),
            },
    {
        let color = board.side;
        let back_rank: u8 = if color == WHITE {
            0
        } else {
            7
        };
        let mut count: u8 = 0;
        let mut file: u8 = 0;
        while file < 8
            invariant
                file <= 8,
                color == board.side,
                color <= 1,
                back_rank == (if color == WHITE {
                    0u8
                } else {
                    7u8
                }),
                count == back_rank_pieces(board@, file as int),
                count <= file,
            decreases 8 - file,
        {
            let sq: u8 = back_rank * 8 + file;
            match board.piece_at(sq) {
                Some((piece, piece_color)) => {
                    if piece_color == color && piece != KING && piece != ROOK {
                        count += 1;
                    }
                },
                None => {},
            }
            file += 1;
        }
        if count >= 3 && board.fullmove >= 15 {
            Some(String::from_str(ACTIVITY_TIP))
        } else {
            None
        }
    }

    /// The tip about check, if a king is attacked.
    pub fn check_tactical_tip(board: &Board) -> (tip: Option<String>)
        requires
            board.side <= 1,
        ensures
            match tip {
                Some(t) => if in_check_spec(board@) {
                    t@ == IN_CHECK_TIP@
                } else {
                    gives_check(board@) && t@ == GIVING_CHECK_TIP@
                },
                None => !in_check_spec(board@) && !gives_check(board@),
            },
    {
        if in_check(board) {
            return Some(String::from_str(IN_CHECK_TIP));
        }
        let enemy = 1 - board.side;
        let kings = board.pieces[enemy as usize][5];
        let enemy_king_sq = lsb(kings);
        if enemy_king_sq < 64 && is_square_attacked(board, enemy_king_sq, board.side) {
            return Some(String::from_str(GIVING_CHECK_TIP));
        }
        None
    }

    /// The general tip that the clocks choose.
    pub fn get_general_tip(board: &Board) -> (tip: String)
        ensures
            tip@ == general_tip_text((board@.fullmove + board@.halfmove) % 10),
    {
        let index = (board.fullmove as usize + board.halfmove as usize) % 10;
        if index == 0 {
            String::from_str("♟️ Opening principles: Control center, develop pieces, castle early!")
        } else if index == 1 {
            String::from_str("♞ Knights are best on the rim when they're dim - keep them central!")
        } else if index == 2 {
            String::from_str("♗ Bishops love open diagonals - don't trap them behind pawns!")
        } else if index == 3 {
            String::from_str("♜ Rooks belong on open files and the 7th rank!")
        } else if index == 4 {
            String::from_str("♛ Don't bring your queen out too early - she can be attacked!")
        } else if index == 5 {
            String::from_str("♚ Castle early to keep your king safe!")
        } else if index == 6 {
            String::from_str("⚔️ Look for tactics: forks, pins, skewers, and discoveries!")
        } else if index == 7 {
            String::from_str("🎯 Always check for captures, checks, and threats before moving!")
        } else if index == 8 {
            String::from_str("📊 Every move should have a purpose - improve your position!")
        } else {
            String::from_str("🔄 When you see a good move, look for a better one!")
        }
    }

    /// How much a move recommends itself.
    fn score_hint(board: &mut Board, mov: Move) -> (score: u8)
        requires
            old(board).wf(),
            playable(old(board)@, mov),
        ensures
            final(board).wf(),
            final(board)@ == old(board)@,
            final(board).keys == old(board).keys,
            score == hint_score(old(board)@, mov),
    {
        let mut score: u8 = 0;
        let to_sq = mov.to();
        if board.piece_at(to_sq).is_some() {
            score += 10;
        }
        board.make_move(mov);
        if in_check(board) {
            score += 5;
        }
        board.unmake_move();
        if to_sq == 27 || to_sq == 28 || to_sq == 35 || to_sq == 36 {
            score += 3;
        }
        score
    }

    /// A hint at a move. Without legal moves it says so. Else it names a
    /// legal move of the highest score, if that score is not zero, and
    /// some legal move if it is. The board is left as it was found.
    pub fn get_hint(board: &mut Board) -> (hint: String)
        requires
            old(board).wf(),
        ensures
            final(board).wf(),
            final(board)@ == old(board)@,
            final(board).keys == old(board).keys,
            hint@ == hint_text(old(board)@),
            (forall|m: Move| !legal(old(board)@, m)) ==> hint@ == NO_MOVES_HINT@,
            (exists|m: Move| legal(old(board)@, m)) ==> exists|m: Move|
                {
                    &&& #[trigger] legal(old(board)@, m)
                    &&& forall|other: Move|
                        legal(old(board)@, other) ==> hint_score(old(board)@, other) <= hint_score(
                            old(board)@,
                            m,
                        ) || hint_score(old(board)@, m) == 0
                    &&& hint@ == (if hint_score(old(board)@, m) > 0 {
                        consider_text(m)
                    } else {
                        decent_text(m)
                    })
                },
    {
        let ghost v = board@;
        let legal_moves = generate_legal_moves(board);
        if legal_moves.len() == 0 {
            proof {
                assert forall|m: Move| !legal(v, m) by {
                    assert(!legal_moves@.contains(m));
                }
            }
            return String::from_str(NO_MOVES_HINT);
        }
        proof {
            assert forall|j: int| 0 <= j < legal_moves@.len() implies playable(
                v,
                #[trigger] legal_moves@[j],
            ) && legal(v, legal_moves@[j]) by {
                assert(legal_moves@.contains(legal_moves@[j]));
                lemma_pseudo_playable(v, legal_moves@[j]);
            }
        }
        let mut best: usize = 0;
        let mut best_score: u8 = 0;
        let mut i: usize = 0;
        while i < legal_moves.len()
            invariant
                i <= legal_moves.len(),
                legal_moves@.len() > 0,
                board.wf(),
                board@ == v,
                board.keys == old(board).keys,
                best < legal_moves@.len(),
                legal_moves@ == legal_seq(v),
                (best as nat, best_score as int) == best_hint(v, legal_moves@, i as nat),
                forall|j: int|
                    0 <= j < legal_moves@.len() ==> playable(v, #[trigger] legal_moves@[j]),
                best_score > 0 ==> best_score == hint_score(v, legal_moves@[best as int]),
                forall|j: int| 0 <= j < i ==> hint_score(v, #[trigger] legal_moves@[j]) <= best_score,
            decreases legal_moves.len() - i,
        {
            let score = Self::score_hint(board, legal_moves[i]);
            if score > best_score {
                best_score = score;
                best = i;
            }
            i += 1;
        }
        let mut hint = String::new();
        if best_score > 0 {
            let chosen = legal_moves[best];
            push_text(&mut hint, "💭 HINT: Consider ");
            let text = chosen.to_string();
            push_text(&mut hint, text.as_str());
            push_text(&mut hint, " (captures center, or gives check)");
            proof {
                assert forall|other: Move| legal(v, other) implies hint_score(v, other)
                    <= hint_score(v, chosen) by {
                    assert(legal_moves@.contains(other));
                }
            }
            hint
        } else {
            let index = board.fullmove as usize % legal_moves.len();
            let chosen = legal_moves[index];
            push_text(&mut hint, "💭 HINT: ");
            let text = chosen.to_string();
            push_text(&mut hint, text.as_str());
            push_text(&mut hint, " is a decent move");
            hint
        }
    }
}

} // verus!
