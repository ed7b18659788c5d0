//! The search as a function: what alpha-beta, the quiescence search and
//! the iterations compute from the table, the position and the limits
//! when no time limit is set.

use crate::attacks::in_check_spec;
use crate::eval::evaluate_spec;
use crate::ordering::{sorted_upto, MoveScorer, MAX_PLY};
use crate::position::{make_spec, BoardView};
use crate::search::{cutoff_spec, no_move_score, MATE_SCORE, MAX_DEPTH};
use crate::sequences::{legal_captures_seq, legal_seq};
use crate::tt::{empty_entry, probe_spec, store_spec, Bound, TTEntry};
use crate::utils::Move;
use vstd::prelude::*;

verus! {

/// What a search reads and writes while it runs.
pub struct SearchState {
    /// The transposition table.
    pub table: Seq<TTEntry>,
    /// Killer moves and history credit.
    pub scorer: MoveScorer,
    /// Nodes counted.
    pub nodes: u64,
    /// Deepest ply reached.
    pub seldepth: u8,
    /// The stop flag.
    pub stopped: bool,
}

/// What the loop over the moves of a node carries from move to move.
pub struct NodeProgress {
    /// The state after the moves searched so far.
    pub state: SearchState,
    /// The lower edge of the window, raised by each move that beat it.
    pub alpha: i32,
    /// Best score of the moves searched so far.
    pub best_score: i32,
    /// The move that scored it.
    pub best_move: Move,
    /// What the best score bounds.
    pub bound: Bound,
    /// Whether a move has reached `beta`.
    pub cut: bool,
}

/// What the loop over the captures of a quiescence node carries.
pub struct QuietProgress {
    /// The state after the captures searched so far.
    pub state: SearchState,
    /// The lower edge of the window, raised by each capture that beat it.
    pub alpha: i32,
    /// Whether a capture has reached `beta`.
    pub cut: bool,
}

/// The negative of a score.
pub open spec fn negated(x: i32) -> i32 {
    (0 - x) as i32
}

/// The state after the limits are looked at: the stop flag is raised when
/// the node limit is reached.
pub open spec fn polled(st: SearchState, cap: Option<u64>) -> SearchState {
    SearchState { stopped: st.stopped || (cap is Some && st.nodes >= cap->0), ..st }
}

/// The state after one more node is counted.
pub open spec fn counted(st: SearchState) -> SearchState {
    SearchState {
        nodes: if st.nodes == u64::MAX {
            u64::MAX
        } else {
            (st.nodes + 1) as u64
        },
        ..st
    }
}

/// The state after ply `ply` is reached.
pub open spec fn deepened(st: SearchState, ply: usize) -> SearchState {
    SearchState {
        seldepth: if ply < 256 && ply as u8 > st.seldepth {
            ply as u8
        } else {
            st.seldepth
        },
        ..st
    }
}

/// The score by which the moves of a node are ordered.
pub open spec fn score_fn(scorer: MoveScorer, v: BoardView, tt_move: Option<Move>, ply: usize) -> spec_fn(
    Move,
) -> int {
    |m: Move| scorer.score_spec(v, m, tt_move, ply)
}

/// The moves in the order in which they are searched: by falling score,
/// moves of equal score in the order given.
pub open spec fn ordered(
    scorer: MoveScorer,
    v: BoardView,
    moves: Seq<Move>,
    tt_move: Option<Move>,
    ply: usize,
) -> Seq<Move> {
    sorted_upto(moves, score_fn(scorer, v, tt_move, ply), moves.len())
}

/// The progress of a node once a move has scored `score`.
pub open spec fn improved(
    p: NodeProgress,
    v: BoardView,
    mov: Move,
    score: i32,
    st: SearchState,
    depth: u8,
    ply: usize,
    beta: i32,
) -> NodeProgress {
    if score > p.best_score {
        if score > p.alpha {
            if score >= beta {
                NodeProgress {
                    state: if v.piece_at(mov.spec_to()) is None {
                        SearchState {
                            scorer: st.scorer.killer_noted(mov, ply).history_credited(
                                v.side,
                                mov,
                                depth,
                            ),
                            ..st
                        }
                    } else {
                        st
                    },
                    alpha: score,
                    best_score: score,
                    best_move: mov,
                    bound: Bound::Lower,
                    cut: true,
                }
            } else {
                NodeProgress {
                    state: st,
                    alpha: score,
                    best_score: score,
                    best_move: mov,
                    bound: Bound::Exact,
                    cut: false,
                }
            }
        } else {
            NodeProgress { state: st, best_score: score, best_move: mov, ..p }
        }
    } else {
        NodeProgress { state: st, ..p }
    }
}

/// Alpha-beta as a function of the state, the node limit and the node:
/// the state afterwards and the score.
pub open spec fn ab_spec(
    st: SearchState,
    cap: Option<u64>,
    v: BoardView,
    depth: u8,
    ply: usize,
    alpha: i32,
    beta: i32,
    pv_node: bool,
) -> (SearchState, i32)
    decreases depth + 1, 0nat, 1nat, 0nat,
{
    let st1 = polled(st, cap);
    if ply > 0 && (st1.stopped || ply >= MAX_PLY) {
        (st1, evaluate_spec(v) as i32)
    } else {
        let st2 = deepened(st1, ply);
        if v.halfmove >= 100 {
            (st2, 0i32)
        } else {
            let entry = probe_spec(st2.table, v.hash);
            let tt_move: Option<Move> = match entry {
                Some(e) => e.best_move,
                None => None,
            };
            match cutoff_spec(entry, depth, alpha, beta, pv_node) {
                Some(score) => (st2, score),
                None => {
                    if depth == 0 {
                        q_spec(st2, v, ply, alpha, beta)
                    } else {
                        let moves = ordered(st2.scorer, v, legal_seq(v), tt_move, ply);
                        if moves.len() == 0 {
                            (st2, no_move_score(in_check_spec(v), ply) as i32)
                        } else {
                            let done = ab_loop(
                                NodeProgress {
                                    state: st2,
                                    alpha,
                                    best_score: (0 - MATE_SCORE) as i32,
                                    best_move: moves[0],
                                    bound: Bound::Upper,
                                    cut: false,
                                },
                                cap,
                                v,
                                moves,
                                0,
                                depth,
                                ply,
                                beta,
                                pv_node,
                            );
                            (
                                SearchState {
                                    table: store_spec(
                                        done.state.table,
                                        TTEntry {
                                            hash: v.hash,
                                            depth,
                                            score: done.best_score,
                                            best_move: Some(done.best_move),
                                            bound: done.bound,
                                        },
                                    ),
                                    ..done.state
                                },
                                done.best_score,
                            )
                        }
                    }
                },
            }
        }
    }
}

/// The loop over the moves of a node from move `i` on.
pub open spec fn ab_loop(
    p: NodeProgress,
    cap: Option<u64>,
    v: BoardView,
    moves: Seq<Move>,
    i: nat,
    depth: u8,
    ply: usize,
    beta: i32,
    pv_node: bool,
) -> NodeProgress
    decreases depth + 1, 0nat, 0nat, moves.len() - i,
{
    if i >= moves.len() || p.cut || depth == 0 {
        p
    } else {
        let mov = moves[i as int];
        let below = ab_spec(
            counted(p.state),
            cap,
            make_spec(v, mov),
            (depth - 1) as u8,
            (ply + 1) as usize,
            negated(beta),
            negated(p.alpha),
            pv_node && p.best_score == 0 - MATE_SCORE,
        );
        ab_loop(
            improved(p, v, mov, negated(below.1), below.0, depth, ply, beta),
            cap,
            v,
            moves,
            i + 1,
            depth,
            ply,
            beta,
            pv_node,
        )
    }
}

/// The quiescence search as a function of the state and the node.
pub open spec fn q_spec(st: SearchState, v: BoardView, ply: usize, alpha: i32, beta: i32) -> (
    SearchState,
    i32,
)
    decreases 0nat, MAX_PLY - ply, 1nat, 0nat,
{
    let st1 = counted(st);
    let stand = evaluate_spec(v) as i32;
    if stand >= beta {
        (st1, beta)
    } else {
        let floor = if alpha < stand {
            stand
        } else {
            alpha
        };
        if ply >= MAX_PLY {
            (st1, floor)
        } else {
            let moves = ordered(st1.scorer, v, legal_captures_seq(v), None, ply);
            let done = q_loop(QuietProgress { state: st1, alpha: floor, cut: false }, v, moves, 0, ply, beta);
            (
                done.state,
                if done.cut {
                    beta
                } else {
                    done.alpha
                },
            )
        }
    }
}

/// The loop over the captures of a quiescence node from capture `i` on.
pub open spec fn q_loop(
    p: QuietProgress,
    v: BoardView,
    moves: Seq<Move>,
    i: nat,
    ply: usize,
    beta: i32,
) -> QuietProgress
    decreases 0nat, MAX_PLY - ply, 0nat, moves.len() - i,
{
    if i >= moves.len() || p.cut || ply >= MAX_PLY {
        p
    } else {
        let below = q_spec(
            p.state,
            make_spec(v, moves[i as int]),
            (ply + 1) as usize,
            negated(beta),
            negated(p.alpha),
        );
        let score = negated(below.1);
        q_loop(
            if score >= beta {
                QuietProgress { state: below.0, alpha: p.alpha, cut: true }
            } else if score > p.alpha {
                QuietProgress { state: below.0, alpha: score, cut: false }
            } else {
                QuietProgress { state: below.0, alpha: p.alpha, cut: false }
            },
            v,
            moves,
            i + 1,
            ply,
            beta,
        )
    }
}

/// The principal variation: from the position on, the best move that the
/// table names, as long as it is legal and leads to a position whose hash
/// is not in `seen`, for at most `steps` moves.
pub open spec fn pv_spec(table: Seq<TTEntry>, v: BoardView, seen: Seq<u64>, steps: nat) -> Seq<Move>
    decreases steps,
{
    if steps == 0 {
        Seq::<Move>::empty()
    } else {
        match probe_spec(table, v.hash) {
            Some(entry) => match entry.best_move {
                Some(m) => {
                    if legal_seq(v).contains(m) && !seen.contains(make_spec(v, m).hash) {
                        seq![m] + pv_spec(
                            table,
                            make_spec(v, m),
                            seen.push(make_spec(v, m).hash),
                            (steps - 1) as nat,
                        )
                    } else {
                        Seq::<Move>::empty()
                    }
                },
                None => Seq::<Move>::empty(),
            },
            None => Seq::<Move>::empty(),
        }
    }
}

/// What a search has found, apart from the time it took.
pub struct SearchOutcome {
    /// What the search reads and writes while it runs.
    pub state: SearchState,
    /// Depth of the last iteration that was started.
    pub depth: u8,
    /// Score of the last completed iteration.
    pub score: i32,
    /// Principal variation of the last completed iteration.
    pub pv: Seq<Move>,
    /// Best move found.
    pub best: Move,
}

/// One iteration at the given depth: what is found afterwards, and
/// whether the search has to end.
pub open spec fn iterate_spec(o: SearchOutcome, cap: Option<u64>, v: BoardView, depth: u8) -> (
    SearchOutcome,
    bool,
) {
    let st1 = polled(o.state, cap);
    if st1.stopped {
        (SearchOutcome { state: st1, ..o }, true)
    } else {
        let searched = ab_spec(
            SearchState { seldepth: depth, ..st1 },
            cap,
            v,
            depth,
            0,
            (0 - MATE_SCORE) as i32,
            MATE_SCORE,
            true,
        );
        if searched.0.stopped {
            (SearchOutcome { state: searched.0, depth, ..o }, true)
        } else {
            let pv = pv_spec(searched.0.table, v, seq![v.hash], depth as nat);
            let st3 = polled(searched.0, cap);
            (
                SearchOutcome {
                    state: st3,
                    depth,
                    score: searched.1,
                    pv,
                    best: if pv.len() > 0 {
                        pv[0]
                    } else {
                        o.best
                    },
                },
                st3.stopped || searched.1 > MATE_SCORE - 100 || searched.1 < 0 - (MATE_SCORE - 100),
            )
        }
    }
}

/// The iterations from `depth` up to `last`.
pub open spec fn deepen_spec(
    o: SearchOutcome,
    cap: Option<u64>,
    v: BoardView,
    depth: u8,
    last: u8,
) -> SearchOutcome
    decreases last + 1 - depth,
{
    if depth > last || depth == 0 || last >= 255 {
        o
    } else {
        let step = iterate_spec(o, cap, v, depth);
        if step.1 {
            step.0
        } else {
            deepen_spec(step.0, cap, v, (depth + 1) as u8, last)
        }
    }
}

/// The deepest iteration that the limits allow.
pub open spec fn last_depth(limit: Option<u8>) -> u8 {
    match limit {
        Some(d) => if d < MAX_DEPTH {
            d
        } else {
            MAX_DEPTH
        },
        None => MAX_DEPTH,
    }
}

/// What a searcher starts a search from.
pub open spec fn fresh_outcome(table: Seq<TTEntry>) -> SearchOutcome {
    SearchOutcome {
        state: SearchState {
            table,
            scorer: MoveScorer::blank(),
            nodes: 0,
            seldepth: 0,
            stopped: false,
        },
        depth: 0,
        score: 0,
        pv: Seq::<Move>::empty(),
        best: Move::spec_new(0, 0),
    }
}

/// A search without a time limit as a function of the table, the limits
/// on depth and nodes, and the position.
pub open spec fn search_spec(
    table: Seq<TTEntry>,
    depth: Option<u8>,
    cap: Option<u64>,
    v: BoardView,
) -> SearchOutcome {
    deepen_spec(fresh_outcome(table), cap, v, 1, last_depth(depth))
}

/// What a search without a time limit finds does not depend on what the
/// searcher held before, once its table is cleared: two tables of one
/// size with every slot empty give the same best move, score, principal
/// variation and table.
pub proof fn lemma_search_after_clear(
    first: Seq<TTEntry>,
    second: Seq<TTEntry>,
    depth: Option<u8>,
    cap: Option<u64>,
    v: BoardView,
)
    requires
        first.len() == second.len(),
        forall|i: int| 0 <= i < first.len() ==> first[i] == empty_entry(),
        forall|i: int| 0 <= i < second.len() ==> second[i] == empty_entry(),
    ensures
        search_spec(first, depth, cap, v) == search_spec(second, depth, cap, v),
{
    assert(first =~= second);
}

} // verus!
