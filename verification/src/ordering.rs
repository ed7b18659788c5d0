//! Move ordering: the score that decides which move is searched first,
//! the killer and history tables behind it, and the sort.

use crate::board::Board;
use crate::position::BoardView;
use crate::utils::Move;
use vstd::prelude::*;
use vstd::seq_lib::to_multiset_update;

verus! {

/// Plies for which killer moves are kept.
pub const MAX_PLY: usize = 128;

/// Score of the move that the transposition table names.
pub const TT_MOVE_SCORE: i32 = 10_000_000;

/// Base score of a capture.
pub const CAPTURE_SCORE: i32 = 1_000_000;

/// Base score of a promotion that captures nothing.
pub const PROMOTION_SCORE: i32 = 900_000;

/// Score of the first killer move of a ply.
pub const FIRST_KILLER_SCORE: i32 = 800_000;

/// Score of the second killer move of a ply.
pub const SECOND_KILLER_SCORE: i32 = 700_000;

/// Killer moves per ply and history credit per side, origin and destination.
pub struct MoveScorer {
    /// The two quiet moves that last cut off the search at each ply.
    pub killer_moves: [[Option<Move>; 2]; 128],
    /// Credit of each quiet move of each side: `history[side][from][to]`.
    pub history: [[[i32; 64]; 64]; 2],
}

/// Kind of the piece on a square; 0 when the square is empty.
pub open spec fn kind_at(v: BoardView, sq: u8) -> int {
    match v.piece_at(sq) {
        Some((kind, _)) => kind as int,
        None => 0,
    }
}

/// Whether an optional move is the given move.
pub fn is_this(slot: Option<Move>, mov: Move) -> (r: bool)
    ensures
        r == (slot == Some(mov)),
{
    match slot {
        Some(m) => m.0 == mov.0,
        None => false,
    }
}

impl MoveScorer {
    /// Score of a move, by the first rule that applies: the move of the
    /// transposition table; a capture, by victim and attacker; a
    /// promotion, by piece; the first and second killer of the ply; the
    /// history credit of the move.
    pub open spec fn score_spec(
        &self,
        v: BoardView,
        mov: Move,
        tt_move: Option<Move>,
        ply: usize,
    ) -> int {
        let from = mov.spec_from();
        let to = mov.spec_to();
        if tt_move == Some(mov) {
            TT_MOVE_SCORE as int
        } else if v.piece_at(to) is Some && v.piece_at(from) is Some {
            CAPTURE_SCORE + 100 * kind_at(v, to) - kind_at(v, from)
        } else if mov.spec_is_promotion() {
            PROMOTION_SCORE + 100 * mov.spec_promotion()
        } else if ply < MAX_PLY && self.killer_moves[ply as int][0] == Some(mov) {
            FIRST_KILLER_SCORE as int
        } else if ply < MAX_PLY && self.killer_moves[ply as int][1] == Some(mov) {
            SECOND_KILLER_SCORE as int
        } else {
            self.history[v.side as int][from as int][to as int] as int
        }
    }

    /// No killer moves, no history credit.
    pub open spec fn is_blank(&self) -> bool {
        &&& forall|p: int, k: int|
            0 <= p < 128 && 0 <= k < 2 ==> (#[trigger] self.killer_moves[p][k]) is None
        &&& forall|c: int, f: int, t: int|
            0 <= c < 2 && 0 <= f < 64 && 0 <= t < 64 ==> (#[trigger] self.history[c][f][t]) == 0
    }

    /// The scorer with no killer moves and no history credit.
    pub open spec fn blank() -> MoveScorer {
        MoveScorer {
            killer_moves: vstd::array::spec_array_fill_for_copy_type::<[Option<Move>; 2], 128>(
                vstd::array::spec_array_fill_for_copy_type::<Option<Move>, 2>(None),
            ),
            history: vstd::array::spec_array_fill_for_copy_type::<[[i32; 64]; 64], 2>(
                vstd::array::spec_array_fill_for_copy_type::<[i32; 64], 64>(
                    vstd::array::spec_array_fill_for_copy_type::<i32, 64>(0i32),
                ),
            ),
        }
    }

    /// A scorer with no killer moves and no history credit.
    pub fn new() -> (s: MoveScorer)
        ensures
            s == MoveScorer::blank(),
            s.is_blank(),
    {
        MoveScorer { killer_moves: [[None; 2]; 128], history: [[[0i32; 64]; 64]; 2] }
    }

    /// Forgets every killer move and all history credit.
    pub fn clear(&mut self)
        ensures
            *final(self) == MoveScorer::blank(),
            final(self).is_blank(),
    {
        self.killer_moves = [[None; 2]; 128];
        self.history = [[[0i32; 64]; 64]; 2];
    }

    /// Score of a move for ordering.
    pub fn score_move(&self, board: &Board, mov: Move, tt_move: Option<Move>, ply: usize) -> (score:
        i32)
        requires
            board.side <= 1,
        ensures
            score == self.score_spec(board@, mov, tt_move, ply),
    {
        if is_this(tt_move, mov) {
            return TT_MOVE_SCORE;
        }
        let from = mov.from();
        let to = mov.to();
        match board.piece_at(to) {
            Some((captured, _)) => {
                match board.piece_at(from) {
                    Some((attacker, _)) => {
                        return CAPTURE_SCORE + (captured as i32) * 100 - (attacker as i32);
                    },
                    None => {},
                }
            },
            None => {},
        }
        if mov.is_promotion() {
            return PROMOTION_SCORE + (mov.promotion() as i32) * 100;
        }
        if ply < MAX_PLY {
            if is_this(self.killer_moves[ply][0], mov) {
                return FIRST_KILLER_SCORE;
            }
            if is_this(self.killer_moves[ply][1], mov) {
                return SECOND_KILLER_SCORE;
            }
        }
        self.history[board.side as usize][from as usize][to as usize]
    }

    /// The scorer after a quiet move has cut off the search at `ply`: the
    /// move is the first killer of the ply and the former first is the
    /// second, unless the move was the first already. Beyond the last ply
    /// nothing changes.
    pub open spec fn killer_noted(self, mov: Move, ply: usize) -> MoveScorer {
        if ply < MAX_PLY && self.killer_moves[ply as int][0] != Some(mov) {
            MoveScorer {
                killer_moves: vstd::array::spec_array_update(
                    self.killer_moves,
                    ply as int,
                    vstd::array::spec_array_update(
                        vstd::array::spec_array_update(
                            self.killer_moves[ply as int],
                            1,
                            self.killer_moves[ply as int][0],
                        ),
                        0,
                        Some(mov),
                    ),
                ),
                history: self.history,
            }
        } else {
            self
        }
    }

    /// The credit of a move after a cutoff at the given depth: the credit
    /// before and the square of the depth, stopped at the largest 32-bit
    /// number.
    pub open spec fn credit_after(now: i32, depth: u8) -> i32 {
        if now + depth * depth > i32::MAX {
            i32::MAX
        } else {
            (now + depth * depth) as i32
        }
    }

    /// The scorer after a quiet move of `color` has cut off a search of
    /// the given depth.
    pub open spec fn history_credited(self, color: u8, mov: Move, depth: u8) -> MoveScorer {
        let c = color as int;
        let f = mov.spec_from() as int;
        let t = mov.spec_to() as int;
        MoveScorer {
            killer_moves: self.killer_moves,
            history: vstd::array::spec_array_update(
                self.history,
                c,
                vstd::array::spec_array_update(
                    self.history[c],
                    f,
                    vstd::array::spec_array_update(
                        self.history[c][f],
                        t,
                        Self::credit_after(self.history[c][f][t], depth),
                    ),
                ),
            ),
        }
    }

    /// Records a quiet move that cut off the search at `ply`: it becomes
    /// the first killer and the former first becomes the second, unless it
    /// is the first already. Beyond the last ply nothing is kept.
    pub fn update_killer(&mut self, mov: Move, ply: usize)
        ensures
            *final(self) == old(self).killer_noted(mov, ply),
    {
        if ply < MAX_PLY {
            if !is_this(self.killer_moves[ply][0], mov) {
                let first = self.killer_moves[ply][0];
                self.killer_moves[ply][1] = first;
                self.killer_moves[ply][0] = Some(mov);
                proof {
                    let want = old(self).killer_noted(mov, ply).killer_moves;
                    assert(self.killer_moves =~= want);
                }
            }
        }
    }

    /// Credits a quiet move of `color` that cut off a search of the given
    /// depth with the square of the depth. The credit stops at the largest
    /// 32-bit number.
    pub fn update_history(&mut self, color: u8, mov: Move, depth: u8)
        requires
            color <= 1,
        ensures
            *final(self) == old(self).history_credited(color, mov, depth),
    {
        let from = mov.from() as usize;
        let to = mov.to() as usize;
        let c = color as usize;
        assert(0 <= (depth as int) * (depth as int) <= 65025) by (nonlinear_arith)
            requires
                0 <= depth <= 255,
        ;
        let credit: i32 = (depth as i32) * (depth as i32);
        let now = self.history[c][from][to];
        let next: i32 = if now > i32::MAX - credit {
            i32::MAX
        } else {
            now + credit
        };
        self.history[c][from][to] = next;
    }
}

/// Exchanging two elements of a sequence keeps what it holds.
pub proof fn lemma_swap_multiset<A>(s: Seq<A>, i: int, j: int)
    requires
        0 <= i < s.len(),
        0 <= j < s.len(),
    ensures
        s.update(i, s[j]).update(j, s[i]).to_multiset() == s.to_multiset(),
{
    broadcast use vstd::multiset::group_multiset_axioms;

    to_multiset_update(s, i, s[j]);
    to_multiset_update(s.update(i, s[j]), j, s[i]);
    vstd::seq_lib::to_multiset_contains(s, s[i]);
    vstd::seq_lib::to_multiset_contains(s, s[j]);
}

/// Sequences that hold the same moves hold each move or not alike, and
/// neither repeats a move if the other does not.
pub proof fn lemma_same_moves(a: Seq<Move>, b: Seq<Move>)
    requires
        a.to_multiset() == b.to_multiset(),
    ensures
        a.len() == b.len(),
        forall|m: Move| a.contains(m) <==> b.contains(m),
        a.no_duplicates() ==> b.no_duplicates(),
{
    vstd::seq_lib::to_multiset_len(a);
    vstd::seq_lib::to_multiset_len(b);
    assert forall|m: Move| a.contains(m) <==> b.contains(m) by {
        vstd::seq_lib::to_multiset_contains(a, m);
        vstd::seq_lib::to_multiset_contains(b, m);
    }
    if a.no_duplicates() {
        a.lemma_multiset_has_no_duplicates();
        b.lemma_multiset_has_no_duplicates_conv();
    }
}

/// `s`, sorted by falling `f`, with `x` put in behind the moves that score
/// no less than it.
pub open spec fn insert_by(s: Seq<Move>, x: Move, f: spec_fn(Move) -> int) -> Seq<Move>
    decreases s.len(),
{
    if s.len() == 0 {
        seq![x]
    } else if f(s.last()) >= f(x) {
        s.push(x)
    } else {
        insert_by(s.drop_last(), x, f).push(s.last())
    }
}

/// The first `n` moves of `s` sorted by falling `f`; moves of equal score
/// keep their order.
pub open spec fn sorted_upto(s: Seq<Move>, f: spec_fn(Move) -> int, n: nat) -> Seq<Move>
    decreases n,
{
    if n == 0 {
        Seq::<Move>::empty()
    } else {
        insert_by(sorted_upto(s, f, (n - 1) as nat), s[n - 1], f)
    }
}

/// Putting a move into a list adds one to its length.
pub proof fn lemma_insert_len(s: Seq<Move>, x: Move, f: spec_fn(Move) -> int)
    ensures
        insert_by(s, x, f).len() == s.len() + 1,
    decreases s.len(),
{
    if s.len() > 0 && f(s.last()) < f(x) {
        lemma_insert_len(s.drop_last(), x, f);
    }
}

/// Sorting keeps the number of moves.
pub proof fn lemma_sorted_len(s: Seq<Move>, f: spec_fn(Move) -> int, n: nat)
    ensures
        sorted_upto(s, f, n).len() == n,
    decreases n,
{
    if n > 0 {
        lemma_sorted_len(s, f, (n - 1) as nat);
        lemma_insert_len(sorted_upto(s, f, (n - 1) as nat), s[n - 1], f);
    }
}

/// Sorting by two scores that agree on every move gives the same order.
pub proof fn lemma_sorted_same(
    s: Seq<Move>,
    f: spec_fn(Move) -> int,
    g: spec_fn(Move) -> int,
    n: nat,
)
    requires
        forall|m: Move| #[trigger] f(m) == g(m),
    ensures
        sorted_upto(s, f, n) == sorted_upto(s, g, n),
    decreases n,
{
    if n > 0 {
        lemma_sorted_same(s, f, g, (n - 1) as nat);
        lemma_insert_same(sorted_upto(s, f, (n - 1) as nat), s[n - 1], f, g);
    }
}

/// Putting in by two scores that agree on every move gives the same list.
pub proof fn lemma_insert_same(
    s: Seq<Move>,
    x: Move,
    f: spec_fn(Move) -> int,
    g: spec_fn(Move) -> int,
)
    requires
        forall|m: Move| #[trigger] f(m) == g(m),
    ensures
        insert_by(s, x, f) == insert_by(s, x, g),
    decreases s.len(),
{
    if s.len() > 0 {
        if f(s.last()) < f(x) {
            lemma_insert_same(s.drop_last(), x, f, g);
        }
    }
}

/// Sorts `moves` by falling score, keeping the order of moves with equal
/// scores; `scores` holds the score `f` of each move and is sorted with them.
pub(crate) fn sort_by_scores(
    moves: &mut Vec<Move>,
    scores: &mut Vec<i32>,
    Ghost(f): Ghost<spec_fn(Move) -> int>,
)
    requires
        old(moves)@.len() == old(scores)@.len(),
        forall|k: int| 0 <= k < old(moves)@.len() ==> old(scores)@[k] == #[trigger] f(old(moves)@[k]),
    ensures
        final(moves)@.len() == final(scores)@.len(),
        final(moves)@.to_multiset() == old(moves)@.to_multiset(),
        forall|a: int, b: int|
            0 <= a < b < final(scores)@.len() ==> final(scores)@[a] >= final(scores)@[b],
        forall|k: int|
            0 <= k < final(moves)@.len() ==> final(scores)@[k] == #[trigger] f(final(moves)@[k]),
        final(moves)@ == sorted_upto(old(moves)@, f, old(moves)@.len()),
{
    let n = moves.len();
    let ghost start_moves = moves@;
    if n == 0 {
        return ;
    }
    let mut i: usize = 1;
    proof {
        assert(sorted_upto(start_moves, f, 0) =~= Seq::<Move>::empty());
    }
    while i < n
        invariant
            1 <= i <= n,
            moves@.len() == n,
            scores@.len() == n,
            start_moves.len() == n,
            moves@.to_multiset() == start_moves.to_multiset(),
            forall|a: int, b: int| 0 <= a < b < i && b < n ==> scores@[a] >= scores@[b],
            forall|k: int| 0 <= k < n ==> scores@[k] == #[trigger] f(moves@[k]),
            moves@.subrange(0, i as int) == sorted_upto(start_moves, f, i as nat),
            forall|k: int| i <= k < n ==> moves@[k] == start_moves[k],
        decreases n - i,
    {
        let mut j: usize = i;
        let ghost sorted = sorted_upto(start_moves, f, i as nat);
        let ghost x = start_moves[i as int];
        proof {
            lemma_sorted_len(start_moves, f, i as nat);
            assert(sorted.subrange(0, i as int) =~= sorted);
        }
        while j > 0 && scores[j - 1] < scores[j]
            invariant
                j <= i < n,
                moves@.len() == n,
                scores@.len() == n,
                start_moves.len() == n,
                sorted.len() == i,
                sorted == sorted_upto(start_moves, f, i as nat),
                x == start_moves[i as int],
                moves@.to_multiset() == start_moves.to_multiset(),
                forall|a: int, b: int|
                    0 <= a < b <= i && a != j && b != j ==> scores@[a] >= scores@[b],
                forall|b: int| j < b <= i ==> scores@[j as int] >= scores@[b],
                forall|k: int| 0 <= k < n ==> scores@[k] == #[trigger] f(moves@[k]),
                forall|k: int| 0 <= k < j ==> moves@[k] == sorted[k],
                moves@[j as int] == x,
                forall|k: int| j < k <= i ==> moves@[k] == sorted[k - 1],
                forall|k: int| i < k < n ==> moves@[k] == start_moves[k],
                insert_by(sorted, x, f) == insert_by(sorted.subrange(0, j as int), x, f)
                    + sorted.subrange(j as int, i as int),
            decreases j,
        {
            let ghost before_moves = moves@;
            let left_move = moves[j - 1];
            let right_move = moves[j];
            let left_score = scores[j - 1];
            let right_score = scores[j];
            moves[j - 1] = right_move;
            moves[j] = left_move;
            scores[j - 1] = right_score;
            scores[j] = left_score;
            proof {
                lemma_swap_multiset(before_moves, j - 1, j as int);
                let head = sorted.subrange(0, j as int);
                assert(head.drop_last() =~= sorted.subrange(0, j - 1));
            }
            j -= 1;
        }
        i += 1;
    }
}

} // verus!
