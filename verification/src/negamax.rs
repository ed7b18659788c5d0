//! Negamax alpha-beta search and quiescence search.

use crate::attacks::in_check;
use crate::board::Board;
use crate::eval::{evaluate, evaluate_spec};
use crate::model::{
    ab_loop, ab_spec, counted, negated, ordered, q_loop, q_spec, NodeProgress, QuietProgress,
};
use crate::movegen::{generate_legal_captures, generate_legal_moves};
use crate::ordering::{lemma_same_moves, MAX_PLY};
use crate::position::{make_spec, playable};
use crate::rules::{legal, legal_capture};
use crate::search::{decided_value, table_cutoff, Searcher, MATE_SCORE, SCORE_BOUND};
use crate::sequences::{legal_captures_seq, legal_seq};
use crate::soundness::lemma_pseudo_playable;
use crate::tt::{store_spec, Bound, TTEntry};
use crate::utils::Move;
use vstd::prelude::*;

verus! {

/// The larger of two scores.
pub open spec fn max_score(a: int, b: int) -> int {
    if a >= b {
        a
    } else {
        b
    }
}

impl Searcher {
    /// Stores a result of the search in the table.
    pub(crate) fn remember(
        &mut self,
        hash: u64,
        depth: u8,
        score: i32,
        best_move: Option<Move>,
        bound: Bound,
    )
        requires
            old(self).wf(),
            -SCORE_BOUND <= score <= SCORE_BOUND,
        ensures
            final(self).wf(),
            final(self).tt@ == store_spec(
                old(self).tt@,
                TTEntry { hash, depth, score, best_move, bound },
            ),
            final(self).tt@.len() == old(self).tt@.len(),
            final(self).scorer == old(self).scorer,
            final(self).stop_flag == old(self).stop_flag,
            final(self).limits == old(self).limits,
            final(self).lines == old(self).lines,
            final(self).info == old(self).info,
    {
        proof {
            self.tt.lemma_wf();
            crate::tt::lemma_slot_in_range(hash, self.tt@.len() as usize);
        }
        self.tt.store(hash, depth, score, best_move, bound);
    }

    /// Counts one more node; the count stops at the largest 64-bit number.
    pub(crate) fn count_node(&mut self)
        ensures
            final(self).tt == old(self).tt,
            final(self).limits == old(self).limits,
            final(self).lines == old(self).lines,
            final(self).info.pv == old(self).info.pv,
            final(self).info.depth == old(self).info.depth,
            final(self).info.score == old(self).info.score,
            final(self).state() == counted(old(self).state()),
    {
        if self.info.nodes < u64::MAX {
            self.info.nodes = self.info.nodes + 1;
        }
    }

    /// The legal moves of the position in the order in which they are
    /// searched.
    pub(crate) fn ordered_moves(&self, board: &mut Board, tt_move: Option<Move>, ply: usize) -> (moves:
        Vec<Move>)
        requires
            old(board).wf(),
        ensures
            final(board).wf(),
            final(board)@ == old(board)@,
            final(board).keys == old(board).keys,
            forall|j: int| 0 <= j < moves@.len() ==> playable(old(board)@, #[trigger] moves@[j]),
            forall|j: int| 0 <= j < moves@.len() ==> legal(old(board)@, #[trigger] moves@[j]),
            (forall|m: Move| !legal(old(board)@, m)) <==> moves@.len() == 0,
            moves@ == ordered(self.scorer, old(board)@, legal_seq(old(board)@), tt_move, ply),
    {
        let ghost v = board@;
        let mut moves = generate_legal_moves(board);
        let ghost unordered = moves@;
        self.order_moves(board, &mut moves, tt_move, ply);
        proof {
            lemma_same_moves(unordered, moves@);
            assert forall|j: int| 0 <= j < moves@.len() implies playable(v, #[trigger] moves@[j])
                && legal(v, moves@[j]) by {
                assert(moves@.contains(moves@[j]));
                lemma_pseudo_playable(v, moves@[j]);
            }
            if moves@.len() == 0 {
                assert forall|m: Move| !legal(v, m) by {
                    assert(!unordered.contains(m));
                }
            } else {
                assert(legal(v, moves@[0]));
            }
        }
        moves
    }

    /// The legal captures of the position in the order in which they are
    /// searched.
    pub(crate) fn ordered_captures(&self, board: &mut Board, ply: usize) -> (moves: Vec<Move>)
        requires
            old(board).wf(),
        ensures
            final(board).wf(),
            final(board)@ == old(board)@,
            final(board).keys == old(board).keys,
            forall|j: int| 0 <= j < moves@.len() ==> playable(old(board)@, #[trigger] moves@[j]),
            (forall|m: Move| !legal_capture(old(board)@, m)) <==> moves@.len() == 0,
            moves@ == ordered(
                self.scorer,
                old(board)@,
                legal_captures_seq(old(board)@),
                None,
                ply,
            ),
    {
        let ghost v = board@;
        let mut moves = generate_legal_captures(board);
        let ghost unordered = moves@;
        self.order_moves(board, &mut moves, None, ply);
        proof {
            lemma_same_moves(unordered, moves@);
            assert forall|j: int| 0 <= j < moves@.len() implies playable(v, #[trigger] moves@[j])
                && legal_capture(v, moves@[j]) by {
                assert(moves@.contains(moves@[j]));
                lemma_pseudo_playable(v, moves@[j]);
            }
            if moves@.len() == 0 {
                assert forall|m: Move| !legal_capture(v, m) by {
                    assert(!unordered.contains(m));
                }
            } else {
                assert(legal_capture(v, moves@[0]));
            }
        }
        moves
    }

    /// Searches the position after `mov` one ply down and returns its
    /// score for the side that moves.
    pub(crate) fn search_move(
        &mut self,
        board: &mut Board,
        mov: Move,
        depth: u8,
        ply: usize,
        alpha: i32,
        beta: i32,
        pv_node: bool,
    ) -> (score: i32)
        requires
            old(self).wf(),
            old(board).wf(),
            playable(old(board)@, mov),
            depth >= 1,
            ply < MAX_PLY,
            -SCORE_BOUND <= alpha <= SCORE_BOUND,
            -SCORE_BOUND <= beta <= SCORE_BOUND,
        ensures
            final(self).wf(),
            final(self).tt@.len() == old(self).tt@.len(),
            final(self).limits == old(self).limits,
            final(self).lines == old(self).lines,
            final(self).info.pv == old(self).info.pv,
            final(self).info.depth == old(self).info.depth,
            final(self).info.score == old(self).info.score,
            old(self).stop_flag ==> final(self).stop_flag,
            final(board).wf(),
            final(board)@ == old(board)@,
            final(board).keys == old(board).keys,
            -SCORE_BOUND <= score <= SCORE_BOUND,
            old(self).limits.movetime is None ==> ({
                let below = ab_spec(
                    counted(old(self).state()),
                    old(self).limits.nodes,
                    make_spec(old(board)@, mov),
                    (depth - 1) as u8,
                    (ply + 1) as usize,
                    negated(beta),
                    negated(alpha),
                    pv_node,
                );
                final(self).state() == below.0 && score == negated(below.1)
            }),
        decreases depth + 1, 0nat, 0nat,
    {
        board.make_move(mov);
        self.count_node();
        let below = self.alpha_beta(board, depth - 1, ply + 1, -beta, -alpha, pv_node);
        board.unmake_move();
        -below
    }

    /// Negamax alpha-beta search of the position to the given depth.
    ///
    /// Returns the static evaluation beyond the first ply when the search
    /// has been stopped or the last ply is reached; 0 when fifty moves have
    /// passed without capture or pawn move; what the table allows to
    /// return; the quiescence value at depth 0; mate or stalemate when no
    /// move is legal; and else the best score of the legal moves, searched
    /// in the order of their scores, stopping at the first that reaches
    /// `beta`. The result goes to the table. The board is left as it was
    /// found. Without a time limit the score and all that the search
    /// leaves behind are those of `ab_spec`.
    pub fn alpha_beta(
        &mut self,
        board: &mut Board,
        depth: u8,
        ply: usize,
        alpha: i32,
        beta: i32,
        pv_node: bool,
    ) -> (score: i32)
        requires
            old(self).wf(),
            old(board).wf(),
            -SCORE_BOUND <= alpha <= SCORE_BOUND,
            -SCORE_BOUND <= beta <= SCORE_BOUND,
        ensures
            final(self).wf(),
            final(self).tt@.len() == old(self).tt@.len(),
            final(self).limits == old(self).limits,
            final(self).lines == old(self).lines,
            final(self).info.pv == old(self).info.pv,
            final(self).info.depth == old(self).info.depth,
            final(self).info.score == old(self).info.score,
            old(self).stop_flag ==> final(self).stop_flag,
            final(board).wf(),
            final(board)@ == old(board)@,
            final(board).keys == old(board).keys,
            -SCORE_BOUND <= score <= SCORE_BOUND,
            ply > 0 && old(self).stop_flag ==> score == evaluate_spec(old(board)@),
            !final(self).stop_flag ==> match decided_value(
                old(self).tt@,
                old(board)@,
                depth,
                ply,
                alpha,
                beta,
                pv_node,
            ) {
                Some(value) => score == value,
                None => true,
            },
            old(self).limits.movetime is None ==> (final(self).state(), score) == ab_spec(
                old(self).state(),
                old(self).limits.nodes,
                old(board)@,
                depth,
                ply,
                alpha,
                beta,
                pv_node,
            ),
        decreases depth + 1, 0nat, 1nat,
    {
        let ghost v = board@;
        let ghost table = self.tt@;
        let ghost was_stopped = self.stop_flag;
        let ghost timeless = self.limits.movetime is None;
        let ghost cap = self.limits.nodes;
        self.poll();
        if ply > 0 && (self.is_stopped() || ply >= MAX_PLY) {
            return evaluate(board);
        }
        if ply < 256 && ply as u8 > self.info.seldepth {
            self.info.seldepth = ply as u8;
        }
        let ghost st2 = self.state();
        if board.halfmove >= 100 {
            return 0;
        }
        proof {
            self.tt.lemma_wf();
            crate::tt::lemma_slot_in_range(board.hash, self.tt@.len() as usize);
        }
        let tt_entry: Option<TTEntry> = match self.tt.probe(board.hash) {
            Some(e) => Some(*e),
            None => None,
        };
        let tt_move: Option<Move> = match tt_entry {
            Some(e) => e.best_move,
            None => None,
        };
        match table_cutoff(tt_entry, depth, alpha, beta, pv_node) {
            Some(s) => {
                return s;
            },
            None => {},
        }
        if depth == 0 {
            return self.quiescence(board, ply, alpha, beta);
        }
        let legal_moves = self.ordered_moves(board, tt_move, ply);
        if legal_moves.len() == 0 {
            return if in_check(board) {
                -MATE_SCORE + ply as i32
            } else {
                0
            };
        }
        let first_alpha = alpha;
        let mut alpha = alpha;
        let mut best_score: i32 = -MATE_SCORE;
        let mut best_move: Move = legal_moves[0];
        let mut bound = Bound::Upper;
        let mut i: usize = 0;
        let mut cut = false;
        let ghost start = NodeProgress {
            state: st2,
            alpha: first_alpha,
            best_score: (0 - MATE_SCORE) as i32,
            best_move: legal_moves@[0],
            bound: Bound::Upper,
            cut: false,
        };
        while i < legal_moves.len() && !cut
            invariant
                i <= legal_moves.len(),
                depth >= 1,
                ply < MAX_PLY,
                self.wf(),
                self.tt@.len() == table.len(),
                self.limits == old(self).limits,
                self.lines == old(self).lines,
                self.info.pv == old(self).info.pv,
                self.info.depth == old(self).info.depth,
                self.info.score == old(self).info.score,
                timeless == (self.limits.movetime is None),
                cap == self.limits.nodes,
                was_stopped ==> self.stop_flag,
                !(ply > 0 && was_stopped),
                board.wf(),
                board@ == v,
                board.keys == old(board).keys,
                -SCORE_BOUND <= alpha <= SCORE_BOUND,
                -SCORE_BOUND <= beta <= SCORE_BOUND,
                -SCORE_BOUND <= best_score <= SCORE_BOUND,
                forall|j: int| 0 <= j < legal_moves@.len() ==> playable(v, #[trigger] legal_moves@[j]),
                timeless ==> ab_loop(
                    NodeProgress { state: self.state(), alpha, best_score, best_move, bound, cut },
                    cap,
                    v,
                    legal_moves@,
                    i as nat,
                    depth,
                    ply,
                    beta,
                    pv_node,
                ) == ab_loop(start, cap, v, legal_moves@, 0, depth, ply, beta, pv_node),
            decreases legal_moves.len() - i + (if cut { 0int } else { 1int }),
        {
            let mov = legal_moves[i];
            let score = self.search_move(
                board,
                mov,
                depth,
                ply,
                alpha,
                beta,
                pv_node && best_score == -MATE_SCORE,
            );
            if score > best_score {
                best_score = score;
                best_move = mov;
                if score > alpha {
                    alpha = score;
                    bound = Bound::Exact;
                    if score >= beta {
                        bound = Bound::Lower;
                        if board.piece_at(mov.to()).is_none() {
                            self.scorer.update_killer(mov, ply);
                            self.scorer.update_history(board.side, mov, depth);
                        }
                        cut = true;
                    }
                }
            }
            i += 1;
        }
        self.remember(board.hash, depth, best_score, Some(best_move), bound);
        best_score
    }

    /// Searches one capture in the quiescence search.
    pub(crate) fn quiesce_move(
        &mut self,
        board: &mut Board,
        mov: Move,
        ply: usize,
        alpha: i32,
        beta: i32,
    ) -> (score: i32)
        requires
            old(self).wf(),
            old(board).wf(),
            playable(old(board)@, mov),
            ply < MAX_PLY,
            -SCORE_BOUND <= alpha <= SCORE_BOUND,
            -SCORE_BOUND <= beta <= SCORE_BOUND,
        ensures
            final(self).wf(),
            final(self).tt@ == old(self).tt@,
            final(self).limits == old(self).limits,
            final(self).lines == old(self).lines,
            final(self).info.pv == old(self).info.pv,
            final(self).info.depth == old(self).info.depth,
            final(self).info.score == old(self).info.score,
            final(self).stop_flag == old(self).stop_flag,
            final(board).wf(),
            final(board)@ == old(board)@,
            final(board).keys == old(board).keys,
            -SCORE_BOUND <= score <= SCORE_BOUND,
            ({
                let below = q_spec(
                    old(self).state(),
                    make_spec(old(board)@, mov),
                    (ply + 1) as usize,
                    negated(beta),
                    negated(alpha),
                );
                final(self).state() == below.0 && score == negated(below.1)
            }),
        decreases 0nat, MAX_PLY - ply, 0nat,
    {
        board.make_move(mov);
        let below = self.quiescence(board, ply + 1, -beta, -alpha);
        board.unmake_move();
        -below
    }

    /// Quiescence search: the static evaluation, bettered by the legal
    /// captures, within `alpha` and `beta`. Returns `beta` as soon as the
    /// evaluation or a capture reaches it. At the last ply no capture is
    /// searched. The board is left as it was found. The score and all
    /// that the search leaves behind are those of `q_spec`.
    pub fn quiescence(&mut self, board: &mut Board, ply: usize, alpha: i32, beta: i32) -> (score: i32)
        requires
            old(self).wf(),
            old(board).wf(),
            -SCORE_BOUND <= alpha <= SCORE_BOUND,
            -SCORE_BOUND <= beta <= SCORE_BOUND,
        ensures
            final(self).wf(),
            final(self).tt@ == old(self).tt@,
            final(self).limits == old(self).limits,
            final(self).lines == old(self).lines,
            final(self).info.pv == old(self).info.pv,
            final(self).info.depth == old(self).info.depth,
            final(self).info.score == old(self).info.score,
            final(self).stop_flag == old(self).stop_flag,
            final(board).wf(),
            final(board)@ == old(board)@,
            final(board).keys == old(board).keys,
            -SCORE_BOUND <= score <= SCORE_BOUND,
            evaluate_spec(old(board)@) >= beta ==> score == beta,
            evaluate_spec(old(board)@) < beta && alpha <= beta ==> max_score(
                alpha as int,
                evaluate_spec(old(board)@),
            ) <= score <= beta,
            evaluate_spec(old(board)@) < beta && (ply >= MAX_PLY || forall|m: Move|
                !legal_capture(old(board)@, m)) ==> score == max_score(
                alpha as int,
                evaluate_spec(old(board)@),
            ),
            (final(self).state(), score) == q_spec(old(self).state(), old(board)@, ply, alpha, beta),
        decreases 0nat, MAX_PLY - ply, 1nat,
    {
        let ghost v = board@;
        let first_alpha = alpha;
        self.count_node();
        let ghost st1 = self.state();
        let stand_pat = evaluate(board);
        if stand_pat >= beta {
            return beta;
        }
        let mut alpha = alpha;
        if alpha < stand_pat {
            alpha = stand_pat;
        }
        if ply >= MAX_PLY {
            return alpha;
        }
        let legal_moves = self.ordered_captures(board, ply);
        let floor = alpha;
        let mut i: usize = 0;
        let mut cut = false;
        let ghost start = QuietProgress { state: st1, alpha: floor, cut: false };
        while i < legal_moves.len() && !cut
            invariant
                i <= legal_moves.len(),
                ply < MAX_PLY,
                self.wf(),
                self.tt@ == old(self).tt@,
                self.limits == old(self).limits,
                self.lines == old(self).lines,
                self.info.pv == old(self).info.pv,
                self.info.depth == old(self).info.depth,
                self.info.score == old(self).info.score,
                self.stop_flag == old(self).stop_flag,
                board.wf(),
                board@ == v,
                board.keys == old(board).keys,
                floor <= alpha <= SCORE_BOUND,
                -SCORE_BOUND <= floor,
                first_alpha <= beta ==> alpha <= beta,
                i == 0 ==> alpha == floor && !cut,
                -SCORE_BOUND <= beta <= SCORE_BOUND,
                forall|j: int| 0 <= j < legal_moves@.len() ==> playable(v, #[trigger] legal_moves@[j]),
                q_loop(
                    QuietProgress { state: self.state(), alpha, cut },
                    v,
                    legal_moves@,
                    i as nat,
                    ply,
                    beta,
                ) == q_loop(start, v, legal_moves@, 0, ply, beta),
            decreases legal_moves.len() - i + (if cut { 0int } else { 1int }),
        {
            let score = self.quiesce_move(board, legal_moves[i], ply, alpha, beta);
            if score >= beta {
                cut = true;
            } else if score > alpha {
                alpha = score;
            }
            i += 1;
        }
        if cut {
            beta
        } else {
            alpha
        }
    }
}

} // verus!
