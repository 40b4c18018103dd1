use vstd::prelude::*;

verus! {

/// Size of the table in mebibytes.
pub const SIZE_IN_MB: u64 = 64;

/// Size of one entry in bytes (hash, score, depth, kind, padded to 8).
pub const ENTRY_SIZE: u64 = 24;

/// Number of slots: as many entries as fit in the table's size.
pub const ENTRY_COUNT: u64 = 1024 * 1024 * SIZE_IN_MB / ENTRY_SIZE;

/// How a stored score relates to the true value of the position.
#[derive(Debug, Clone, Copy, PartialEq, Eq, Structural)]
pub enum NodeKind {
    LowerBound,
    Exact,
    UpperBound,
}

/// One slot of the table.
#[derive(Debug, Clone, Copy, PartialEq, Eq, Structural)]
pub struct TranspositionEntry {
    pub zobrist_hash: u64,
    pub kind: NodeKind,
    pub score: i32,
    pub depth: i32,
}

impl TranspositionEntry {
    /// An entry with the given fields.
    pub fn new(hash: u64, kind: NodeKind, score: i32, depth: i32) -> (r: Self)
        ensures
            r == (TranspositionEntry { zobrist_hash: hash, kind, score, depth }),
    {
        TranspositionEntry { zobrist_hash: hash, kind: kind, score: score, depth: depth }
    }
}

impl Default for TranspositionEntry {
    /// The entry every slot starts with.
    fn default() -> (r: Self)
        ensures
            r == empty_entry(),
    {
        TranspositionEntry { zobrist_hash: 0, kind: NodeKind::Exact, score: 0, depth: 0 }
    }
}

pub open spec fn empty_entry() -> TranspositionEntry {
    TranspositionEntry { zobrist_hash: 0, kind: NodeKind::Exact, score: 0, depth: 0 }
}

/// Slot of a hash.
pub open spec fn slot_of(hash: u64) -> int {
    (hash % ENTRY_COUNT) as int
}

/// What a probe of `e` yields for a search of `depth` in window
/// `[alpha, beta]`: the score when the entry is for this position, deep
/// enough, and its bound settles the window.
pub open spec fn probe_result(e: TranspositionEntry, hash: u64, depth: i32, alpha: i32, beta: i32) -> Option<i32> {
    if e.zobrist_hash == hash && e.depth >= depth {
        match e.kind {
            NodeKind::Exact => Some(e.score),
            NodeKind::UpperBound => if e.score <= alpha { Some(e.score) } else { None },
            NodeKind::LowerBound => if e.score >= beta { Some(e.score) } else { None },
        }
    } else {
        None
    }
}

/// A direct-mapped table of search results keyed by position hash.
#[derive(Debug, Clone)]
pub struct TranspositionTable {
    table: Vec<TranspositionEntry>,
    pub writes: u64,
    pub lookups: u64,
}

impl TranspositionTable {
    pub closed spec fn entries(&self) -> Seq<TranspositionEntry> {
        self.table@
    }

    pub closed spec fn write_count(&self) -> u64 {
        self.writes
    }

    pub closed spec fn lookup_count(&self) -> u64 {
        self.lookups
    }

    pub open spec fn wf(&self) -> bool {
        self.entries().len() == ENTRY_COUNT
    }

    /// A table whose every slot holds the empty entry.
    pub fn new() -> (r: Self)
        ensures
            r.wf(),
            forall|i: int| 0 <= i < ENTRY_COUNT ==> #[trigger] r.entries()[i] == empty_entry(),
            r.write_count() == 0,
            r.lookup_count() == 0,
    {
        let table = vec![TranspositionEntry::default(); ENTRY_COUNT as usize];
        TranspositionTable { table, writes: 0, lookups: 0 }
    }

    /// Overwrites the slot of `hash` with the given result.
    pub fn store_evaluation(&mut self, kind: NodeKind, hash: u64, depth: i32, score: i32)
        requires
            old(self).wf(),
        ensures
            final(self).wf(),
            final(self).entries() == old(self).entries().update(
                slot_of(hash),
                TranspositionEntry { zobrist_hash: hash, kind, score, depth },
            ),
            final(self).write_count() == old(self).write_count().wrapping_add(1),
            final(self).lookup_count() == old(self).lookup_count(),
    {
        let key: usize = (hash % ENTRY_COUNT) as usize;
        self.table.set(key, TranspositionEntry::new(hash, kind, score, depth));
        self.writes = self.writes.wrapping_add(1);
    }

    /// The stored score for `hash`, when the slot holds this position at
    /// `depth` or deeper and its bound kind settles the window
    /// `[alpha, beta]`: always for an exact score, for an upper bound at or
    /// below `alpha`, for a lower bound at or above `beta`.
    pub fn probe_hash(&mut self, hash: u64, depth: i32, alpha: i32, beta: i32) -> (r: Option<i32>)
        requires
            old(self).wf(),
        ensures
            final(self).wf(),
            r == probe_result(old(self).entries()[slot_of(hash)], hash, depth, alpha, beta),
            final(self).entries() == old(self).entries(),
            final(self).write_count() == old(self).write_count(),
            final(self).lookup_count() == if r is Some { old(self).lookup_count().wrapping_add(1) } else { old(self).lookup_count() },
    {
        let index: usize = (hash % ENTRY_COUNT) as usize;
        let entry = self.table[index];
        if entry.zobrist_hash == hash && entry.depth >= depth {
            let usable = match entry.kind {
                NodeKind::Exact => true,
                NodeKind::UpperBound => entry.score <= alpha,
                NodeKind::LowerBound => entry.score >= beta,
            };
            if usable {
                self.lookups = self.lookups.wrapping_add(1);
                return Some(entry.score);
            }
        }
        None
    }
}

} // verus!
