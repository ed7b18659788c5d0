//! Iterative deepening: the search proper, the principal variation read
//! from the transposition table, and the text of each iteration.

use crate::board::Board;
use crate::model::{deepen_spec, fresh_outcome, iterate_spec, pv_spec, search_spec, SearchOutcome};
use crate::movegen::generate_legal_moves;
use crate::position::{make_spec, unmake_spec, BoardView};
use crate::rules::legal;
use crate::search::{
    info_text, legal_line, with_line, SearchLimits, Searcher, MATE_SCORE, MAX_DEPTH,
};
use crate::soundness::lemma_pseudo_playable;
use crate::text::{push_decimal, push_signed, push_text};
use crate::utils::{Move, Timer};
use vstd::prelude::*;

verus! {

/// Whether a list holds a move.
pub fn holds_move(moves: &Vec<Move>, mov: Move) -> (r: bool)
    ensures
        r == moves@.contains(mov),
{
    let mut i: usize = 0;
    while i < moves.len()
        invariant
            i <= moves.len(),
            forall|j: int| 0 <= j < i ==> moves@[j] != mov,
        decreases moves.len() - i,
    {
        if moves[i].0 == mov.0 {
            return true;
        }
        i += 1;
    }
    false
}

/// Whether a list holds a hash.
pub fn holds_hash(seen: &Vec<u64>, hash: u64) -> (r: bool)
    ensures
        r == seen@.contains(hash),
{
    let mut i: usize = 0;
    while i < seen.len()
        invariant
            i <= seen.len(),
            forall|j: int| 0 <= j < i ==> seen@[j] != hash,
        decreases seen.len() - i,
    {
        if seen[i] == hash {
            return true;
        }
        i += 1;
    }
    false
}

/// Each position of the trail comes from the one before it by the move of
/// the line, which is legal there, and goes back to it when the move is
/// taken back.
pub open spec fn trail_ok(trail: Seq<BoardView>, line: Seq<Move>) -> bool {
    &&& trail.len() == line.len() + 1
    &&& forall|i: int|
        0 <= i < line.len() ==> {
            &&& legal(#[trigger] trail[i], line[i])
            &&& trail[i + 1] == make_spec(trail[i], line[i])
            &&& unmake_spec(trail[i + 1]) == trail[i]
            &&& trail[i + 1].history.len() > 0
        }
}

/// The moves of a trail from position `k` on are a legal line there.
pub proof fn lemma_trail_line(trail: Seq<BoardView>, line: Seq<Move>, k: int)
    requires
        trail_ok(trail, line),
        0 <= k <= line.len(),
    ensures
        legal_line(trail[k], line.subrange(k, line.len() as int)),
    decreases line.len() - k,
{
    let rest = line.subrange(k, line.len() as int);
    if k < line.len() {
        lemma_trail_line(trail, line, k + 1);
        assert(rest.drop_first() =~= line.subrange(k + 1, line.len() as int));
    }
}

impl Searcher {
    /// The principal variation: from the position on, the best move that
    /// the table names, as long as it is legal and leads to a position
    /// not seen on the way, for at most `max_depth` moves. The board is
    /// left as it was found.
    pub fn extract_pv(&self, board: &mut Board, max_depth: u8) -> (pv: Vec<Move>)
        requires
            self.wf(),
            old(board).wf(),
        ensures
            final(board).wf(),
            final(board)@ == old(board)@,
            final(board).keys == old(board).keys,
            pv@.len() <= max_depth,
            legal_line(old(board)@, pv@),
            pv@ == pv_spec(self.tt@, old(board)@, seq![old(board)@.hash], max_depth as nat),
    {
        let ghost root = board@;
        let ghost whole = pv_spec(self.tt@, root, seq![root.hash], max_depth as nat);
        let mut pv: Vec<Move> = Vec::new();
        let mut seen: Vec<u64> = Vec::new();
        seen.push(board.hash);
        let ghost mut trail: Seq<BoardView> = seq![root];
        let mut step: u8 = 0;
        let mut done = false;
        while step < max_depth && !done
            invariant
                self.wf(),
                !done ==> pv@ + pv_spec(self.tt@, board@, seen@, (max_depth - step) as nat) == whole,
                done ==> pv@ == whole,
                board.wf(),
                board.keys == old(board).keys,
                trail_ok(trail, pv@),
                trail[0] == root,
                board@ == trail[pv@.len() as int],
                pv@.len() <= step <= max_depth,
            decreases max_depth - step + (if done { 0int } else { 1int }),
        {
            let ghost here = board@;
            proof {
                self.tt.lemma_wf();
            }
            let named: Option<Move> = match self.tt.probe(board.hash) {
                Some(entry) => entry.best_move,
                None => None,
            };
            match named {
                Some(mov) => {
                    let legal_moves = generate_legal_moves(board);
                    if holds_move(&legal_moves, mov) {
                        proof {
                            lemma_pseudo_playable(here, mov);
                        }
                        board.make_move(mov);
                        if holds_hash(&seen, board.hash) {
                            board.unmake_move();
                            done = true;
                        } else {
                            seen.push(board.hash);
                            pv.push(mov);
                            proof {
                                trail = trail.push(board@);
                                assert forall|i: int| 0 <= i < pv@.len() implies {
                                    &&& legal(#[trigger] trail[i], pv@[i])
                                    &&& trail[i + 1] == make_spec(trail[i], pv@[i])
                                    &&& unmake_spec(trail[i + 1]) == trail[i]
                                    &&& trail[i + 1].history.len() > 0
                                } by {
                                }
                            }
                        }
                    } else {
                        done = true;
                    }
                },
                None => {
                    done = true;
                },
            }
            step += 1;
        }
        let mut k: usize = pv.len();
        while k > 0
            invariant
                k <= pv@.len(),
                board.wf(),
                board.keys == old(board).keys,
                trail_ok(trail, pv@),
                trail[0] == root,
                board@ == trail[k as int],
            decreases k,
        {
            assert(legal(trail[k - 1], pv@[k - 1]));
            board.unmake_move();
            k -= 1;
        }
        proof {
            lemma_trail_line(trail, pv@, 0);
            assert(pv@.subrange(0, pv@.len() as int) =~= pv@);
        }
        pv
    }

    /// The text of the iteration that `info` describes.
    pub fn info_line(&self) -> (line: String)
        ensures
            line@ == info_text(self.info),
    {
        let nps: u128 = if self.info.time_ms > 0 {
            (self.info.nodes as u128 * 1000) / self.info.time_ms
        } else {
            0
        };
        let mut out = String::new();
        push_text(&mut out, "info depth ");
        push_decimal(&mut out, self.info.depth as u128);
        push_text(&mut out, " seldepth ");
        push_decimal(&mut out, self.info.seldepth as u128);
        push_text(&mut out, " score cp ");
        push_signed(&mut out, self.info.score);
        push_text(&mut out, " nodes ");
        push_decimal(&mut out, self.info.nodes as u128);
        push_text(&mut out, " time ");
        push_decimal(&mut out, self.info.time_ms);
        push_text(&mut out, " nps ");
        push_decimal(&mut out, nps);
        if self.info.pv.len() > 0 {
            push_text(&mut out, " pv");
            let ghost prefix = out@;
            let mut i: usize = 0;
            while i < self.info.pv.len()
                invariant
                    i <= self.info.pv@.len(),
                    out@ == with_line(prefix, self.info.pv@, i as int),
                decreases self.info.pv.len() - i,
            {
                out.push(' ');
                let text = self.info.pv[i].to_string();
                push_text(&mut out, text.as_str());
                i += 1;
            }
        }
        out
    }

    /// One iteration of the search at the given depth. Returns whether the
    /// search has to end. When the iteration is completed, its score,
    /// time, principal variation and line of text are kept, and `best`
    /// becomes the first move of the variation if it has one.
    pub(crate) fn iterate(&mut self, board: &mut Board, depth: u8, best: &mut Move) -> (done: bool)
        requires
            old(self).wf(),
            old(board).wf(),
            1 <= depth <= MAX_DEPTH,
            legal_line(old(board)@, old(self).info.pv@),
            *old(best) == Move::spec_new(0, 0) || legal(old(board)@, *old(best)),
            old(self).info.pv@.len() > 0 ==> *old(best) == old(self).info.pv@[0],
            old(self).info.depth <= depth,
        ensures
            final(self).wf(),
            final(self).tt@.len() == old(self).tt@.len(),
            final(board).wf(),
            final(board)@ == old(board)@,
            final(board).keys == old(board).keys,
            legal_line(old(board)@, final(self).info.pv@),
            *final(best) == Move::spec_new(0, 0) || legal(old(board)@, *final(best)),
            final(self).info.pv@.len() > 0 ==> *final(best) == final(self).info.pv@[0],
            final(self).lines@.len() <= old(self).lines@.len() + 1,
            !done ==> final(self).lines@.len() == old(self).lines@.len() + 1,
            final(self).info.depth <= depth,
            final(self).limits == old(self).limits,
            old(self).limits.movetime is None ==> (final(self).outcome(*final(best)), done)
                == iterate_spec(
                old(self).outcome(*old(best)),
                old(self).limits.nodes,
                old(board)@,
                depth,
            ),
    {
        self.poll();
        if self.is_stopped() {
            return true;
        }
        self.info.depth = depth;
        self.info.seldepth = depth;
        let score = self.alpha_beta(board, depth, 0, -MATE_SCORE, MATE_SCORE, true);
        if self.is_stopped() {
            return true;
        }
        self.info.score = score;
        self.info.time_ms = self.timer.elapsed_ms();
        let pv = self.extract_pv(board, depth);
        if pv.len() > 0 {
            *best = pv[0];
        }
        self.info.pv = pv;
        let line = self.info_line();
        self.lines.push(line);
        self.poll();
        self.is_stopped() || score > MATE_SCORE - 100 || score < -(MATE_SCORE - 100)
    }

    /// Searches the position by iterative deepening, from depth 1 up to
    /// the depth limit and at most 64, and returns the best move found:
    /// the first move of the principal variation of the last iteration
    /// that was completed and had one. The search ends early when the stop
    /// flag is raised, the node or time limit is reached, or a mate score
    /// is found. One line of text is kept for each completed iteration.
    /// The board is left as it was found.
    pub fn search(&mut self, board: &mut Board, limits: SearchLimits) -> (best: Move)
        requires
            old(self).wf(),
            old(board).wf(),
        ensures
            final(self).wf(),
            final(self).tt@.len() == old(self).tt@.len(),
            final(board).wf(),
            final(board)@ == old(board)@,
            final(board).keys == old(board).keys,
            legal_line(old(board)@, final(self).info.pv@),
            best == Move::spec_new(0, 0) || legal(old(board)@, best),
            final(self).info.pv@.len() > 0 ==> best == final(self).info.pv@[0],
            final(self).lines@.len() <= MAX_DEPTH,
            final(self).info.depth <= MAX_DEPTH,
            limits.movetime is None ==> final(self).outcome(best) == search_spec(
                old(self).tt@,
                limits.depth,
                limits.nodes,
                old(board)@,
            ),
    {
        let ghost root = board@;
        let ghost size = self.tt@.len();
        let ghost timeless = limits.movetime is None;
        let ghost node_cap = limits.nodes;
        let ghost whole = search_spec(self.tt@, limits.depth, limits.nodes, root);
        let cap: u8 = match limits.depth {
            Some(d) => if d < MAX_DEPTH {
                d
            } else {
                MAX_DEPTH
            },
            None => MAX_DEPTH,
        };
        self.reset(limits);
        let mut best_move = Move::new(0, 0);
        let mut depth: u8 = 1;
        let mut done = false;
        while depth <= cap && !done
            invariant
                1 <= depth <= cap + 1,
                cap <= MAX_DEPTH,
                self.wf(),
                self.tt@.len() == size,
                board.wf(),
                board@ == root,
                board.keys == old(board).keys,
                legal_line(root, self.info.pv@),
                best_move == Move::spec_new(0, 0) || legal(root, best_move),
                self.info.pv@.len() > 0 ==> best_move == self.info.pv@[0],
                self.lines@.len() <= depth - 1 + (if done { 1int } else { 0int }),
                done ==> depth <= cap,
                self.info.depth <= depth,
                self.info.depth <= MAX_DEPTH,
                timeless == (self.limits.movetime is None),
                node_cap == self.limits.nodes,
                timeless && !done ==> deepen_spec(
                    self.outcome(best_move),
                    node_cap,
                    root,
                    depth,
                    cap,
                ) == whole,
                timeless && done ==> self.outcome(best_move) == whole,
            decreases cap + 1 - depth + (if done { 0int } else { 1int }),
        {
            done = self.iterate(board, depth, &mut best_move);
            if !done {
                depth += 1;
            }
        }
        best_move
    }

    /// Prepares the searcher for a new search: the stop flag is lowered,
    /// the clock started, the counts, the principal variation and the
    /// lines forgotten, killers and history cleared, and the limits kept.
    pub(crate) fn reset(&mut self, limits: SearchLimits)
        ensures
            final(self).tt == old(self).tt,
            !final(self).stop_flag,
            final(self).limits == limits,
            final(self).info.nodes == 0,
            final(self).info.depth == 0,
            final(self).info.pv@.len() == 0,
            final(self).lines@.len() == 0,
            final(self).scorer.is_blank(),
            final(self).outcome(Move::spec_new(0, 0)) == fresh_outcome(old(self).tt@),
    {
        self.stop_flag = false;
        self.timer = Timer::new();
        self.info.nodes = 0;
        self.info.depth = 0;
        self.info.seldepth = 0;
        self.info.score = 0;
        self.info.time_ms = 0;
        self.info.pv = Vec::new();
        self.scorer.clear();
        self.ply = 0;
        self.lines = Vec::new();
        self.limits = limits;
    }

    /// What the searcher has found, apart from the time it took.
    pub open spec fn outcome(&self, best: Move) -> SearchOutcome {
        SearchOutcome {
            state: self.state(),
            depth: self.info.depth,
            score: self.info.score,
            pv: self.info.pv@,
            best,
        }
    }
}

} // verus!
