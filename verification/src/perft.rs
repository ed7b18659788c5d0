//! Perft: the number of leaf positions of the legal-move tree, the usual
//! test of a move generator.

use crate::board::Board;
use crate::listing::lists;
use crate::movegen::generate_legal_moves;
use crate::position::{make_spec, playable, BoardView};
use crate::rules::legal;
use crate::soundness::lemma_pseudo_playable;
use crate::utils::Move;
use vstd::prelude::*;

verus! {

/// Number of positions reached from `v` by `depth` legal moves, counting
/// only first moves whose code is below `n`. With `n` at 65536 every move
/// counts.
pub open spec fn perft_upto(v: BoardView, depth: nat, n: nat) -> nat
    decreases depth, n,
{
    if depth == 0 {
        1
    } else if n == 0 {
        0
    } else {
        perft_upto(v, depth, (n - 1) as nat) + if legal(v, Move((n - 1) as u16)) {
            perft_upto(make_spec(v, Move((n - 1) as u16)), (depth - 1) as nat, 65536)
        } else {
            0
        }
    }
}

/// Number of positions reached from `v` by exactly `depth` legal moves.
pub open spec fn perft_nodes(v: BoardView, depth: nat) -> nat {
    perft_upto(v, depth, 65536)
}

/// Number of positions reached by `m` and `depth` further legal moves.
pub open spec fn nodes_after(v: BoardView, depth: nat, m: Move) -> nat {
    perft_nodes(make_spec(v, m), depth)
}

/// Sum of `nodes_after` over the first `k` moves of a list.
pub open spec fn list_nodes(v: BoardView, depth: nat, s: Seq<Move>, k: nat) -> nat
    decreases k,
{
    if k == 0 {
        0
    } else {
        list_nodes(v, depth, s, (k - 1) as nat) + nodes_after(v, depth, s[k - 1])
    }
}

/// Sum of `nodes_after` over those of the first `k` moves of a list whose
/// code is below `n`.
pub open spec fn list_nodes_below(v: BoardView, depth: nat, s: Seq<Move>, n: nat, k: nat) -> nat
    decreases k,
{
    if k == 0 {
        0
    } else {
        list_nodes_below(v, depth, s, n, (k - 1) as nat) + if s[k - 1].0 < n {
            nodes_after(v, depth, s[k - 1])
        } else {
            0
        }
    }
}

/// A count, stopped at the largest 64-bit number.
pub open spec fn capped(n: nat) -> u64 {
    if n > u64::MAX {
        u64::MAX
    } else {
        n as u64
    }
}

/// Raising the bound on the codes by one adds the move with that code, if
/// the list holds it.
proof fn lemma_below_step(v: BoardView, depth: nat, s: Seq<Move>, n: nat, k: nat)
    requires
        s.no_duplicates(),
        k <= s.len(),
        n >= 1,
    ensures
        list_nodes_below(v, depth, s, n, k) == list_nodes_below(v, depth, s, (n - 1) as nat, k)
            + if s.subrange(0, k as int).contains(Move((n - 1) as u16)) && n <= 65536 {
            nodes_after(v, depth, Move((n - 1) as u16))
        } else {
            0
        },
    decreases k,
{
    if k > 0 {
        let j = (k - 1) as nat;
        lemma_below_step(v, depth, s, n, j);
        let a = s.subrange(0, j as int);
        let b = s.subrange(0, k as int);
        assert forall|m: Move| b.contains(m) <==> (a.contains(m) || m == s[j as int]) by {
            if m == s[j as int] {
                assert(b[j as int] == m);
            }
        }
    }
}

/// Every move has a code below 65536.
proof fn lemma_below_all(v: BoardView, depth: nat, s: Seq<Move>, k: nat)
    requires
        k <= s.len(),
    ensures
        list_nodes_below(v, depth, s, 65536, k) == list_nodes(v, depth, s, k),
        list_nodes_below(v, depth, s, 0, k) == 0,
    decreases k,
{
    if k > 0 {
        lemma_below_all(v, depth, s, (k - 1) as nat);
    }
}

/// The sum over a list of the legal moves, taken up to a bound on the
/// codes, is the sum over the codes up to that bound.
proof fn lemma_codes_are_list(v: BoardView, depth: nat, s: Seq<Move>, n: nat)
    requires
        lists(s, |m: Move| legal(v, m)),
        n <= 65536,
        depth >= 1,
    ensures
        perft_upto(v, depth, n) == list_nodes_below(v, (depth - 1) as nat, s, n, s.len()),
    decreases n,
{
    if n == 0 {
        lemma_below_all(v, (depth - 1) as nat, s, s.len());
    } else {
        lemma_codes_are_list(v, depth, s, (n - 1) as nat);
        lemma_below_step(v, (depth - 1) as nat, s, n, s.len());
        assert(s.subrange(0, s.len() as int) =~= s);
    }
}

/// Perft is the sum, over a list of the legal moves, of the perft of the
/// positions that they lead to.
pub proof fn lemma_perft_is_list_sum(v: BoardView, depth: nat, s: Seq<Move>)
    requires
        lists(s, |m: Move| legal(v, m)),
        depth >= 1,
    ensures
        perft_nodes(v, depth) == list_nodes(v, (depth - 1) as nat, s, s.len()),
{
    lemma_codes_are_list(v, depth, s, 65536);
    lemma_below_all(v, (depth - 1) as nat, s, s.len());
}

/// At depth 0 each move leads to one position.
proof fn lemma_list_nodes_leaves(v: BoardView, s: Seq<Move>, k: nat)
    requires
        k <= s.len(),
    ensures
        list_nodes(v, 0, s, k) == k,
    decreases k,
{
    if k > 0 {
        lemma_list_nodes_leaves(v, s, (k - 1) as nat);
    }
}

/// Counts the positions reached after `mov` and `depth - 1` further legal
/// moves.
fn perft_after(board: &mut Board, mov: Move, depth: u8) -> (nodes: u64)
    requires
        old(board).wf(),
        playable(old(board)@, mov),
        depth >= 1,
    ensures
        final(board).wf(),
        final(board)@ == old(board)@,
        final(board).keys == old(board).keys,
        nodes == capped(nodes_after(old(board)@, (depth - 1) as nat, mov)),
    decreases depth, 0nat,
{
    board.make_move(mov);
    let nodes = perft(board, depth - 1);
    board.unmake_move();
    nodes
}

/// Counts the positions reached after exactly `depth` legal moves: 1 at
/// depth 0, the number of legal moves at depth 1. The count stops at the
/// largest 64-bit number. The board is left as it was found.
pub fn perft(board: &mut Board, depth: u8) -> (nodes: u64)
    requires
        old(board).wf(),
    ensures
        final(board).wf(),
        final(board)@ == old(board)@,
        final(board).keys == old(board).keys,
        nodes == capped(perft_nodes(old(board)@, depth as nat)),
    decreases depth, 1nat,
{
    if depth == 0 {
        return 1;
    }
    let ghost v = board@;
    let legal_moves = generate_legal_moves(board);
    proof {
        lemma_perft_is_list_sum(v, depth as nat, legal_moves@);
    }
    if depth == 1 {
        proof {
            lemma_list_nodes_leaves(v, legal_moves@, legal_moves@.len());
        }
        return legal_moves.len() as u64;
    }
    proof {
        assert forall|j: int| 0 <= j < legal_moves@.len() implies playable(
            v,
            #[trigger] legal_moves@[j],
        ) by {
            assert(legal_moves@.contains(legal_moves@[j]));
            lemma_pseudo_playable(v, legal_moves@[j]);
        }
    }
    let mut nodes: u64 = 0;
    let mut i: usize = 0;
    while i < legal_moves.len()
        invariant
            i <= legal_moves.len(),
            depth >= 2,
            board.wf(),
            board@ == v,
            board.keys == old(board).keys,
            forall|j: int| 0 <= j < legal_moves@.len() ==> playable(v, #[trigger] legal_moves@[j]),
            nodes == capped(list_nodes(v, (depth - 1) as nat, legal_moves@, i as nat)),
        decreases legal_moves.len() - i,
    {
        let below = perft_after(board, legal_moves[i], depth);
        nodes = nodes.saturating_add(below);
        i += 1;
    }
    nodes
}

} // verus!
