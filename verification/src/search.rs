//! The searcher: iterative deepening over a negamax alpha-beta search with
//! a transposition table, move ordering and a quiescence search.

use crate::attacks::in_check_spec;
use crate::board::Board;
use crate::eval::{evaluate_spec, EVAL_BOUND};
use crate::fen::decimal_digits;
use crate::ordering::{sort_by_scores, MoveScorer, MAX_PLY};
use crate::position::{make_spec, BoardView};
use crate::rules::legal;
use crate::text::signed_digits;
use crate::tt::{probe_spec, Bound, TTEntry, TranspositionTable, MEGABYTE};
use crate::utils::{Move, Timer};
use vstd::prelude::*;

verus! {

/// Deepest iteration of a search.
pub const MAX_DEPTH: u8 = 64;

/// Score of a mate at the root; a mate found `ply` plies down scores
/// `ply` less.
pub const MATE_SCORE: i32 = 30000;

/// No score that the search handles is beyond this.
pub const SCORE_BOUND: i32 = EVAL_BOUND;

/// When a search has to end.
pub struct SearchLimits {
    /// Deepest iteration, if limited.
    pub depth: Option<u8>,
    /// Milliseconds for the whole search, if limited.
    pub movetime: Option<u128>,
    /// Nodes for the whole search, if limited.
    pub nodes: Option<u64>,
}

/// What a search has found so far.
pub struct SearchInfo {
    /// Nodes visited.
    pub nodes: u64,
    /// Depth of the last iteration that was started.
    pub depth: u8,
    /// Deepest ply reached in that iteration.
    pub seldepth: u8,
    /// Score of the last completed iteration.
    pub score: i32,
    /// Principal variation of the last completed iteration.
    pub pv: Vec<Move>,
    /// Milliseconds from the start to the end of the last completed iteration.
    pub time_ms: u128,
}

/// The searcher.
pub struct Searcher {
    /// The transposition table.
    pub tt: TranspositionTable,
    /// Killer moves and history credit.
    pub scorer: MoveScorer,
    /// Raised when the search has to end.
    pub stop_flag: bool,
    /// Started with the search.
    pub timer: Timer,
    /// What the search has found.
    pub info: SearchInfo,
    /// Ply of the node being searched.
    pub ply: usize,
    /// Limits of the running search.
    pub limits: SearchLimits,
    /// One line of text for each completed iteration of the last search.
    pub lines: Vec<String>,
}

/// Every score in the table lies within the bound.
pub open spec fn scores_bounded(t: Seq<TTEntry>) -> bool {
    forall|i: int| 0 <= i < t.len() ==> -SCORE_BOUND <= (#[trigger] t[i]).score <= SCORE_BOUND
}

/// What an entry of the table allows to return at once: nothing at a
/// principal-variation node or from a shallower search; else the score of
/// an exact entry, of a lower bound that reaches `beta`, of an upper bound
/// that does not exceed `alpha`.
pub open spec fn cutoff_spec(
    entry: Option<TTEntry>,
    depth: u8,
    alpha: i32,
    beta: i32,
    pv_node: bool,
) -> Option<i32> {
    match entry {
        Some(e) => if !pv_node && e.depth >= depth {
            match e.bound {
                Bound::Exact => Some(e.score),
                Bound::Lower => if e.score >= beta {
                    Some(e.score)
                } else {
                    None
                },
                Bound::Upper => if e.score <= alpha {
                    Some(e.score)
                } else {
                    None
                },
            }
        } else {
            None
        },
        None => None,
    }
}

/// What an entry of the table allows to return at once.
pub fn table_cutoff(entry: Option<TTEntry>, depth: u8, alpha: i32, beta: i32, pv_node: bool) -> (r:
    Option<i32>)
    ensures
        r == cutoff_spec(entry, depth, alpha, beta, pv_node),
{
    match entry {
        Some(e) => {
            if !pv_node && e.depth >= depth {
                match e.bound {
                    Bound::Exact => Some(e.score),
                    Bound::Lower => if e.score >= beta {
                        Some(e.score)
                    } else {
                        None
                    },
                    Bound::Upper => if e.score <= alpha {
                        Some(e.score)
                    } else {
                        None
                    },
                }
            } else {
                None
            }
        },
        None => None,
    }
}

/// Score of a position without legal moves: mate, the sooner the worse,
/// when in check, and a draw when not.
pub open spec fn no_move_score(checked: bool, ply: usize) -> int {
    if checked {
        -MATE_SCORE + ply
    } else {
        0
    }
}

/// Whether a limit on nodes or time has been reached.
pub open spec fn limit_reached(limits: SearchLimits, nodes: u64, elapsed: Option<u128>) -> bool {
    ||| (limits.nodes is Some && nodes >= limits.nodes->0)
    ||| (limits.movetime is Some && elapsed is Some && elapsed->0 >= limits.movetime->0)
}

/// Whether a limit on nodes or time has been reached; `elapsed` is read
/// only when the time is limited.
pub fn over_limit(limits: &SearchLimits, nodes: u64, elapsed: Option<u128>) -> (r: bool)
    ensures
        r == limit_reached(*limits, nodes, elapsed),
{
    let over_nodes = match limits.nodes {
        Some(cap) => nodes >= cap,
        None => false,
    };
    let over_time = match limits.movetime {
        Some(cap) => match elapsed {
            Some(ms) => ms >= cap,
            None => false,
        },
        None => false,
    };
    over_nodes || over_time
}

/// The value of a node that is decided without searching a move: the
/// static evaluation at the last ply; a draw when fifty moves have passed
/// without capture or pawn move; what the table allows to return; and,
/// where the search goes on, mate or stalemate when no move is legal.
pub open spec fn decided_value(
    table: Seq<TTEntry>,
    v: BoardView,
    depth: u8,
    ply: usize,
    alpha: i32,
    beta: i32,
    pv_node: bool,
) -> Option<int> {
    if ply > 0 && ply >= MAX_PLY {
        Some(evaluate_spec(v))
    } else if v.halfmove >= 100 {
        Some(0int)
    } else if cutoff_spec(probe_spec(table, v.hash), depth, alpha, beta, pv_node) is Some {
        Some(cutoff_spec(probe_spec(table, v.hash), depth, alpha, beta, pv_node)->0 as int)
    } else if depth > 0 && (forall|m: Move| !legal(v, m)) {
        Some(no_move_score(in_check_spec(v), ply))
    } else {
        None
    }
}

/// Each move of the line is legal in the position that the moves before
/// it lead to.
pub open spec fn legal_line(v: BoardView, line: Seq<Move>) -> bool
    decreases line.len(),
{
    line.len() == 0 || (legal(v, line[0]) && legal_line(make_spec(v, line[0]), line.drop_first()))
}

/// Nodes per second; 0 when no millisecond has passed.
pub open spec fn nodes_per_second(nodes: u64, time_ms: u128) -> nat {
    if time_ms > 0 {
        ((nodes as int * 1000) / (time_ms as int)) as nat
    } else {
        0
    }
}

/// `prefix` followed by the first `n` moves of a line, a space before each.
pub open spec fn with_line(prefix: Seq<char>, line: Seq<Move>, n: int) -> Seq<char>
    decreases n,
{
    if n <= 0 {
        prefix
    } else {
        with_line(prefix, line, n - 1).push(' ') + line[n - 1].spec_to_string()
    }
}

/// The text of an iteration up to the principal variation: depth,
/// selective depth, score, nodes, time and nodes per second.
pub open spec fn info_head(info: SearchInfo) -> Seq<char> {
    "info depth "@ + decimal_digits(info.depth as nat) + " seldepth "@ + decimal_digits(
        info.seldepth as nat,
    ) + " score cp "@ + signed_digits(info.score as int) + " nodes "@ + decimal_digits(
        info.nodes as nat,
    ) + " time "@ + decimal_digits(info.time_ms as nat) + " nps "@ + decimal_digits(
        nodes_per_second(info.nodes, info.time_ms),
    )
}

/// The text of an iteration: `info depth D seldepth S score cp C nodes N
/// time T nps P`, followed by ` pv` and the moves of the principal
/// variation if there is one.
pub open spec fn info_text(info: SearchInfo) -> Seq<char> {
    if info.pv@.len() > 0 {
        with_line(info_head(info) + " pv"@, info.pv@, info.pv@.len() as int)
    } else {
        info_head(info)
    }
}

impl Searcher {
    /// The table is in order and holds no score beyond the bound.
    pub open spec fn wf(&self) -> bool {
        self.tt.wf() && scores_bounded(self.tt@)
    }

    /// What the search reads and writes while it runs.
    pub open spec fn state(&self) -> crate::model::SearchState {
        crate::model::SearchState {
            table: self.tt@,
            scorer: self.scorer,
            nodes: self.info.nodes,
            seldepth: self.info.seldepth,
            stopped: self.stop_flag,
        }
    }

    /// A searcher with an empty table of the given budget.
    pub fn new(tt_size_mb: usize) -> (s: Searcher)
        requires
            tt_size_mb * MEGABYTE <= usize::MAX,
        ensures
            s.wf(),
            !s.stop_flag,
            s.info.nodes == 0,
            s.info.depth == 0,
            s.info.seldepth == 0,
            s.info.score == 0,
            s.info.time_ms == 0,
            s.info.pv@.len() == 0,
            s.lines@.len() == 0,
            s.scorer == MoveScorer::blank(),
            s.limits == (SearchLimits { depth: None, movetime: None, nodes: None }),
            crate::tt::is_power_of_two(s.tt@.len() as int),
            s.tt@.len() * crate::tt::ENTRY_BYTES <= tt_size_mb * MEGABYTE || s.tt@.len() == 1,
            2 * s.tt@.len() * crate::tt::ENTRY_BYTES > tt_size_mb * MEGABYTE,
            forall|i: int| 0 <= i < s.tt@.len() ==> s.tt@[i] == crate::tt::empty_entry(),
    {
        Searcher {
            tt: TranspositionTable::new(tt_size_mb),
            scorer: MoveScorer::new(),
            stop_flag: false,
            timer: Timer::new(),
            info: SearchInfo {
                nodes: 0,
                depth: 0,
                seldepth: 0,
                score: 0,
                pv: Vec::new(),
                time_ms: 0,
            },
            ply: 0,
            limits: SearchLimits { depth: None, movetime: None, nodes: None },
            lines: Vec::new(),
        }
    }

    /// Asks the search to end.
    pub fn stop(&mut self)
        ensures
            final(self).stop_flag,
            final(self).tt == old(self).tt,
            final(self).scorer == old(self).scorer,
            final(self).info == old(self).info,
            final(self).limits == old(self).limits,
            final(self).lines == old(self).lines,
    {
        self.stop_flag = true;
    }

    /// Whether the search has been asked to end.
    pub fn is_stopped(&self) -> (r: bool)
        ensures
            r == self.stop_flag,
    {
        self.stop_flag
    }

    /// Raises the stop flag when a limit on nodes or time has been reached.
    pub fn poll(&mut self)
        ensures
            final(self).tt == old(self).tt,
            final(self).scorer == old(self).scorer,
            final(self).info == old(self).info,
            final(self).limits == old(self).limits,
            final(self).lines == old(self).lines,
            old(self).stop_flag ==> final(self).stop_flag,
            old(self).limits.movetime is None ==> final(self).stop_flag == (old(self).stop_flag
                || limit_reached(old(self).limits, old(self).info.nodes, None)),
            old(self).limits.movetime is None ==> final(self).state() == crate::model::polled(
                old(self).state(),
                old(self).limits.nodes,
            ),
    {
        if !self.stop_flag {
            let elapsed: Option<u128> = match self.limits.movetime {
                Some(_) => Some(self.timer.elapsed_ms()),
                None => None,
            };
            if over_limit(&self.limits, self.info.nodes, elapsed) {
                self.stop_flag = true;
            }
        }
    }

    /// Orders moves by falling score; moves with equal scores keep their order.
    pub fn order_moves(&self, board: &Board, moves: &mut Vec<Move>, tt_move: Option<Move>, ply: usize)
        requires
            board.side <= 1,
        ensures
            final(moves)@.to_multiset() == old(moves)@.to_multiset(),
            forall|a: int, b: int|
                0 <= a < b < final(moves)@.len() ==> self.scorer.score_spec(
                    board@,
                    final(moves)@[a],
                    tt_move,
                    ply,
                ) >= self.scorer.score_spec(board@, final(moves)@[b], tt_move, ply),
            final(moves)@ == crate::model::ordered(
                self.scorer,
                board@,
                old(moves)@,
                tt_move,
                ply,
            ),
    {
        let ghost f = crate::model::score_fn(self.scorer, board@, tt_move, ply);
        let mut scores: Vec<i32> = Vec::new();
        let mut i: usize = 0;
        while i < moves.len()
            invariant
                board.side <= 1,
                i <= moves.len(),
                moves@ == old(moves)@,
                scores@.len() == i,
                forall|m: Move| #[trigger] f(m) == self.scorer.score_spec(board@, m, tt_move, ply),
                forall|k: int| 0 <= k < i ==> scores@[k] == #[trigger] f(moves@[k]),
            decreases moves.len() - i,
        {
            let s = self.scorer.score_move(board, moves[i], tt_move, ply);
            scores.push(s);
            i += 1;
        }
        sort_by_scores(moves, &mut scores, Ghost(f));
        proof {
            assert forall|a: int, b: int| 0 <= a < b < moves@.len() implies self.scorer.score_spec(
                board@,
                moves@[a],
                tt_move,
                ply,
            ) >= self.scorer.score_spec(board@, moves@[b], tt_move, ply) by {
                assert(scores@[a] == f(moves@[a]));
                assert(scores@[b] == f(moves@[b]));
            }
        }
    }

}

} // verus!
