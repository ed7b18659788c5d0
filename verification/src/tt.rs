//! Transposition table: a fixed array of search results, one slot for each
//! value of the low bits of the position hash.

use crate::utils::Move;
use vstd::prelude::*;

verus! {

/// What the score of an entry says about the true value of its position.
#[derive(Copy, Clone, PartialEq, Eq, Debug, Structural)]
pub enum Bound {
    /// The score is the value.
    Exact,
    /// The value is at least the score.
    Lower,
    /// The value is at most the score.
    Upper,
}

/// One search result.
#[derive(Copy, Clone, Debug)]
pub struct TTEntry {
    /// Hash of the position.
    pub hash: u64,
    /// Depth to which the position was searched.
    pub depth: u8,
    /// Score found.
    pub score: i32,
    /// Best move found, if any.
    pub best_move: Option<Move>,
    /// What the score bounds.
    pub bound: Bound,
}

/// Bytes that one entry takes of the budget given to `new`.
pub const ENTRY_BYTES: usize = 24;

/// Bytes in a megabyte.
pub const MEGABYTE: usize = 1048576;

/// The entry of a slot that nothing was stored in.
pub open spec fn empty_entry() -> TTEntry {
    TTEntry { hash: 0, depth: 0, score: 0, best_move: None, bound: Bound::Exact }
}

impl TTEntry {
    /// The entry of a slot that nothing was stored in.
    pub fn empty() -> (e: TTEntry)
        ensures
            e == empty_entry(),
    {
        TTEntry { hash: 0, depth: 0, score: 0, best_move: None, bound: Bound::Exact }
    }
}

/// A power of two.
pub open spec fn is_power_of_two(n: int) -> bool
    decreases n,
{
    n == 1 || (n > 1 && n % 2 == 0 && is_power_of_two(n / 2))
}

/// Slot of a hash in a table of `size` slots: the hash and `size - 1`.
pub open spec fn slot_of(hash: u64, size: usize) -> int {
    ((hash as usize) & ((size - 1) as usize)) as int
}

/// The entry found for a hash: the one in its slot, if it carries the hash.
pub open spec fn probe_spec(t: Seq<TTEntry>, hash: u64) -> Option<TTEntry> {
    let e = t[slot_of(hash, t.len() as usize)];
    if e.hash == hash {
        Some(e)
    } else {
        None
    }
}

/// The table after a result is stored: the slot of the hash takes the new
/// entry unless it holds a deeper result for the same hash.
pub open spec fn store_spec(t: Seq<TTEntry>, e: TTEntry) -> Seq<TTEntry> {
    let i = slot_of(e.hash, t.len() as usize);
    if t[i].hash != e.hash || e.depth >= t[i].depth {
        t.update(i, e)
    } else {
        t
    }
}

/// Number of the first `n` slots that hold a hash other than zero.
pub open spec fn used_upto(t: Seq<TTEntry>, n: int) -> int
    decreases n,
{
    if n <= 0 {
        0
    } else {
        used_upto(t, n - 1) + if t[n - 1].hash != 0 {
            1int
        } else {
            0int
        }
    }
}

/// A slot index is below the size of the table.
pub proof fn lemma_slot_in_range(hash: u64, size: usize)
    requires
        size >= 1,
    ensures
        0 <= slot_of(hash, size) < size,
{
    let x: usize = hash as usize;
    let m: usize = (size - 1) as usize;
    assert(x & m <= m) by (bit_vector);
}

/// After a result is stored, its hash is found: the stored entry itself,
/// or the entry that was there for the same hash with a greater depth.
pub proof fn lemma_store_then_probe(t: Seq<TTEntry>, e: TTEntry)
    requires
        t.len() >= 1,
        t.len() <= usize::MAX,
    ensures
        ({
            let i = slot_of(e.hash, t.len() as usize);
            let found = probe_spec(store_spec(t, e), e.hash);
            found == Some(e) || (found == Some(t[i]) && t[i].hash == e.hash && t[i].depth > e.depth)
        }),
{
    lemma_slot_in_range(e.hash, t.len() as usize);
}

/// An entry found for a hash stays found, at the same or a greater depth,
/// whatever is stored later, unless a position with another hash takes
/// its slot.
pub proof fn lemma_probe_after_later_store(t: Seq<TTEntry>, hash: u64, later: TTEntry)
    requires
        t.len() >= 1,
        t.len() <= usize::MAX,
        probe_spec(t, hash) is Some,
    ensures
        ({
            let before = probe_spec(t, hash)->0;
            let after = probe_spec(store_spec(t, later), hash);
            match after {
                Some(e) => e.hash == hash && e.depth >= before.depth && (e == before || e == later),
                None => later.hash != hash && slot_of(later.hash, t.len() as usize) == slot_of(
                    hash,
                    t.len() as usize,
                ),
            }
        }),
{
    lemma_slot_in_range(hash, t.len() as usize);
    lemma_slot_in_range(later.hash, t.len() as usize);
}

/// Transposition table.
pub struct TranspositionTable {
    table: Vec<TTEntry>,
    size: usize,
}

impl View for TranspositionTable {
    type V = Seq<TTEntry>;

    closed spec fn view(&self) -> Seq<TTEntry> {
        self.table@
    }
}

impl TranspositionTable {
    /// The table has as many slots as it says, at least one, and their
    /// number is a power of two.
    pub closed spec fn wf(&self) -> bool {
        &&& self.table@.len() == self.size
        &&& self.size >= 1
        &&& is_power_of_two(self.size as int)
    }

    /// A well-formed table has at least one slot.
    pub proof fn lemma_wf(&self)
        requires
            self.wf(),
        ensures
            1 <= self@.len() <= usize::MAX,
            is_power_of_two(self@.len() as int),
    {
    }

    /// An empty table for a budget of `size_mb` megabytes: the largest
    /// power of two of slots whose entries fit in the budget, and one slot
    /// if not even one entry fits.
    pub fn new(size_mb: usize) -> (t: TranspositionTable)
        requires
            size_mb * MEGABYTE <= usize::MAX,
        ensures
            t.wf(),
            is_power_of_two(t@.len() as int),
            t@.len() * ENTRY_BYTES <= size_mb * MEGABYTE || t@.len() == 1,
            2 * t@.len() * ENTRY_BYTES > size_mb * MEGABYTE,
            forall|i: int| 0 <= i < t@.len() ==> t@[i] == empty_entry(),
    {
        let entries: usize = (size_mb * MEGABYTE) / ENTRY_BYTES;
        let mut size: usize = 1;
        while size <= entries / 2
            invariant
                size >= 1,
                is_power_of_two(size as int),
                size <= entries || size == 1,
            decreases entries - size,
        {
            size = size * 2;
        }
        let mut table: Vec<TTEntry> = Vec::new();
        let mut i: usize = 0;
        while i < size
            invariant
                i <= size,
                table@.len() == i,
                forall|j: int| 0 <= j < i ==> table@[j] == empty_entry(),
            decreases size - i,
        {
            table.push(TTEntry::empty());
            i += 1;
        }
        TranspositionTable { table, size }
    }

    /// Number of slots.
    pub fn len(&self) -> (n: usize)
        requires
            self.wf(),
        ensures
            n == self@.len(),
    {
        self.size
    }

    /// Slot of a hash.
    pub fn index(&self, hash: u64) -> (i: usize)
        requires
            self.wf(),
        ensures
            i == slot_of(hash, self@.len() as usize),
            i < self@.len(),
    {
        proof {
            lemma_slot_in_range(hash, self.size);
        }
        (#[verifier::truncate] (hash as usize)) & (self.size - 1)
    }

    /// The entry stored for a hash, if its slot carries that hash.
    pub fn probe(&self, hash: u64) -> (r: Option<&TTEntry>)
        requires
            self.wf(),
        ensures
            match r {
                Some(e) => probe_spec(self@, hash) == Some(*e),
                None => probe_spec(self@, hash) is None,
            },
    {
        let entry = &self.table[self.index(hash)];
        if entry.hash == hash {
            Some(entry)
        } else {
            None
        }
    }

    /// Stores a result in the slot of its hash, unless the slot holds a
    /// deeper result for the same hash.
    pub fn store(&mut self, hash: u64, depth: u8, score: i32, best_move: Option<Move>, bound: Bound)
        requires
            old(self).wf(),
        ensures
            final(self).wf(),
            final(self)@ == store_spec(
                old(self)@,
                TTEntry { hash, depth, score, best_move, bound },
            ),
    {
        let idx = self.index(hash);
        let entry = self.table[idx];
        if entry.hash != hash || depth >= entry.depth {
            self.table[idx] = TTEntry { hash, depth, score, best_move, bound };
        }
    }

    /// Empties every slot.
    pub fn clear(&mut self)
        requires
            old(self).wf(),
        ensures
            final(self).wf(),
            final(self)@.len() == old(self)@.len(),
            forall|i: int| 0 <= i < final(self)@.len() ==> final(self)@[i] == empty_entry(),
    {
        let mut i: usize = 0;
        while i < self.size
            invariant
                self.wf(),
                self.size == old(self).size,
                i <= self.size,
                forall|j: int| 0 <= j < i ==> self.table@[j] == empty_entry(),
            decreases self.size - i,
        {
            self.table[i] = TTEntry::empty();
            i += 1;
        }
    }

    /// Number of slots that hold a hash other than zero.
    pub fn used_entries(&self) -> (n: usize)
        requires
            self.wf(),
        ensures
            n == used_upto(self@, self@.len() as int),
    {
        let mut n: usize = 0;
        let mut i: usize = 0;
        while i < self.size
            invariant
                self.wf(),
                i <= self.size,
                n == used_upto(self.table@, i as int),
                n <= i,
            decreases self.size - i,
        {
            if self.table[i].hash != 0 {
                n += 1;
            }
            i += 1;
        }
        n
    }
}

impl Default for TranspositionTable {
    /// An empty table for a budget of 64 megabytes.
    fn default() -> (t: TranspositionTable)
        ensures
            t.wf(),
            is_power_of_two(t@.len() as int),
            t@.len() * ENTRY_BYTES <= 64 * MEGABYTE,
            2 * t@.len() * ENTRY_BYTES > 64 * MEGABYTE,
            forall|i: int| 0 <= i < t@.len() ==> t@[i] == empty_entry(),
    {
        TranspositionTable::new(64)
    }
}

} // verus!
