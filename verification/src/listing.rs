//! Move lists as sets: what it means for a list to hold exactly the moves
//! that satisfy a rule, once each, and how such lists combine.

use crate::utils::Move;
use vstd::prelude::*;

verus! {

/// `new` is `old` with moves appended.
pub open spec fn grows(old: Seq<Move>, new: Seq<Move>) -> bool {
    old.len() <= new.len() && new.subrange(0, old.len() as int) =~= old
}

/// The moves that were appended to `old` to give `new`.
pub open spec fn tail(old: Seq<Move>, new: Seq<Move>) -> Seq<Move> {
    new.subrange(old.len() as int, new.len() as int)
}

/// `s` holds exactly the moves that satisfy `p`, each once.
pub open spec fn lists(s: Seq<Move>, p: spec_fn(Move) -> bool) -> bool {
    &&& s.no_duplicates()
    &&& forall|m: Move| #[trigger] s.contains(m) <==> p(m)
}

/// A list that satisfies a rule satisfies every rule with the same moves.
pub proof fn lemma_lists_same(s: Seq<Move>, p: spec_fn(Move) -> bool, r: spec_fn(Move) -> bool)
    requires
        lists(s, p),
        forall|m: Move| #[trigger] r(m) <==> p(m),
    ensures
        lists(s, r),
{
}

/// One more move, not yet listed, extends the rule by that move.
pub proof fn lemma_lists_push(
    s: Seq<Move>,
    x: Move,
    p: spec_fn(Move) -> bool,
    r: spec_fn(Move) -> bool,
)
    requires
        lists(s, p),
        !p(x),
        forall|m: Move| #[trigger] r(m) <==> (p(m) || m == x),
    ensures
        lists(s.push(x), r),
{
    let t = s.push(x);
    assert(!s.contains(x));
    assert forall|m: Move| #[trigger] t.contains(m) <==> r(m) by {
        if t.contains(m) {
            let i = choose|i: int| 0 <= i < t.len() && t[i] == m;
            if i < s.len() {
                assert(s.contains(m));
            }
        }
        if r(m) {
            if m == x {
                assert(t[s.len() as int] == m);
            } else {
                assert(s.contains(m));
                let i = choose|i: int| 0 <= i < s.len() && s[i] == m;
                assert(t[i] == m);
            }
        }
    }
}

/// Two lists for rules that exclude each other, one after the other, list
/// the moves of either rule.
pub proof fn lemma_lists_append(
    a: Seq<Move>,
    b: Seq<Move>,
    p: spec_fn(Move) -> bool,
    q: spec_fn(Move) -> bool,
    r: spec_fn(Move) -> bool,
)
    requires
        lists(a, p),
        lists(b, q),
        forall|m: Move| !(#[trigger] p(m) && q(m)),
        forall|m: Move| #[trigger] r(m) <==> (p(m) || q(m)),
    ensures
        lists(a + b, r),
{
    let t = a + b;
    assert forall|i: int, j: int| 0 <= i < t.len() && 0 <= j < t.len() && i != j implies t[i]
        != t[j] by {
        if i < a.len() && j >= a.len() {
            assert(a.contains(t[i]));
            assert(b.contains(b[j - a.len()]));
        } else if j < a.len() && i >= a.len() {
            assert(a.contains(t[j]));
            assert(b.contains(b[i - a.len()]));
        }
    }
    assert forall|m: Move| #[trigger] t.contains(m) <==> r(m) by {
        if t.contains(m) {
            let i = choose|i: int| 0 <= i < t.len() && t[i] == m;
            if i < a.len() {
                assert(a.contains(m));
            } else {
                assert(b.contains(m));
            }
        }
        if p(m) {
            assert(a.contains(m));
            let i = choose|i: int| 0 <= i < a.len() && a[i] == m;
            assert(t[i] == m);
        }
        if q(m) {
            assert(b.contains(m));
            let i = choose|i: int| 0 <= i < b.len() && b[i] == m;
            assert(t[a.len() + i] == m);
        }
    }
}

/// What was appended in two rounds is what was appended in the first
/// followed by what was appended in the second.
pub proof fn lemma_tail_concat(old: Seq<Move>, mid: Seq<Move>, new: Seq<Move>)
    requires
        grows(old, mid),
        grows(mid, new),
    ensures
        grows(old, new),
        tail(old, new) =~= tail(old, mid) + tail(mid, new),
{
}

/// Two rounds of appending, each listing the moves of a rule that excludes
/// the other, together list the moves of either rule.
pub proof fn lemma_rounds(
    old: Seq<Move>,
    mid: Seq<Move>,
    new: Seq<Move>,
    p: spec_fn(Move) -> bool,
    q: spec_fn(Move) -> bool,
    r: spec_fn(Move) -> bool,
)
    requires
        grows(old, mid),
        grows(mid, new),
        lists(tail(old, mid), p),
        lists(tail(mid, new), q),
        forall|m: Move| !(#[trigger] p(m) && q(m)),
        forall|m: Move| #[trigger] r(m) <==> (p(m) || q(m)),
    ensures
        grows(old, new),
        lists(tail(old, new), r),
{
    lemma_tail_concat(old, mid, new);
    lemma_lists_append(tail(old, mid), tail(mid, new), p, q, r);
}

/// Appending one move that the rule so far does not hold.
pub proof fn lemma_round_push(
    old: Seq<Move>,
    mid: Seq<Move>,
    x: Move,
    p: spec_fn(Move) -> bool,
    r: spec_fn(Move) -> bool,
)
    requires
        grows(old, mid),
        lists(tail(old, mid), p),
        !p(x),
        forall|m: Move| #[trigger] r(m) <==> (p(m) || m == x),
    ensures
        grows(old, mid.push(x)),
        lists(tail(old, mid.push(x)), r),
{
    assert(tail(old, mid.push(x)) =~= tail(old, mid).push(x));
    lemma_lists_push(tail(old, mid), x, p, r);
}

} // verus!
