//! The two hash-indexed tables of the search: the transposition table, which
//! keeps one search result per slot, and the repetition table, which counts
//! how often a position lies on the current path.
//!
//! Both are direct-mapped caches of a fixed, power-of-two number of slots. A
//! key goes to the slot `key mod capacity`; whatever was there is replaced.

use vstd::prelude::*;
use chess::CacheTable;
use crate::moves::Move;

verus! {

/// What a stored score says about the true value of its position.
#[derive(Clone, Copy, Debug, PartialEq, Eq, PartialOrd, Structural)]
pub enum NodeType {
    /// The score is exact.
    PV,
    /// The node failed low: the score is an upper bound.
    All,
    /// The node failed high: the score is a lower bound.
    Cut,
}

/// One search result, as the transposition table keeps it.
#[derive(Clone, Copy, Debug, PartialEq, Eq, PartialOrd, Structural)]
pub struct TTEntry {
    pub key: u64,
    pub best: Move,
    pub score: i32,
    pub depth: u16,
    pub kind: NodeType,
}

/// `chess::CacheTable`, taken as it is. Nothing is known of a table but what
/// the functions below say of its slots.
#[verifier::external_type_specification]
#[verifier::external_body]
#[verifier::reject_recursive_types(T)]
pub struct ExCacheTable<T: Copy + Clone + PartialEq + PartialOrd>(CacheTable<T>);

/// The slots of a table of search results, first to last: each holds the key
/// it was last written under and the entry written.
pub uninterp spec fn result_slots(t: CacheTable<TTEntry>) -> Seq<(u64, TTEntry)>;

/// The slots of a table of counters, first to last: each holds the key it was
/// last written under and the count written.
pub uninterp spec fn counter_slots(t: CacheTable<u16>) -> Seq<(u64, u16)>;

/// The largest number of slots a table can have. It fits a `usize` of 32
/// bits, so that a key goes to the same slot on every machine.
pub const MAX_CAPACITY: usize = 0x8000_0000;

/// The capacities a table can have: the powers of two up to `MAX_CAPACITY`.
pub open spec fn is_capacity(n: usize) -> bool {
    0 < n <= MAX_CAPACITY && n & ((n - 1) as usize) == 0
}

/// Tells whether a table can have `n` slots.
pub fn is_table_size(n: usize) -> (b: bool)
    ensures
        b == is_capacity(n),
{
    0 < n && n <= MAX_CAPACITY && n & (n - 1) == 0
}

/// The slot a key goes to in a table of `capacity` slots.
pub open spec fn slot_of(key: u64, capacity: int) -> int {
    key as int % capacity
}

/// The entry that fills every slot of a new transposition table.
pub open spec fn blank_entry() -> TTEntry {
    TTEntry { key: 0, best: Move::none(), score: 0, depth: 0, kind: NodeType::All }
}

/// What a lookup of `key` finds in `slots`: the entry of the key's slot if
/// that slot was last written under this key, and nothing otherwise.
pub open spec fn lookup<T>(slots: Seq<(u64, T)>, key: u64) -> Option<T> {
    let s = slots[slot_of(key, slots.len() as int)];
    if s.0 == key {
        Some(s.1)
    } else {
        None
    }
}

/// The slots after `entry` was written under `key`.
pub open spec fn written<T>(slots: Seq<(u64, T)>, key: u64, entry: T) -> Seq<(u64, T)> {
    slots.update(slot_of(key, slots.len() as int), (key, entry))
}

/// `CacheTable::new` for search results. The size must have exactly one bit
/// set, or the call panics. Every slot of the new table holds key 0 and
/// `default`.
#[verifier::external_body]
fn new_results(size: usize, default: TTEntry) -> (t: CacheTable<TTEntry>)
    requires
        is_capacity(size),
    ensures
        result_slots(t) == Seq::new(size as nat, |i: int| (0u64, default)),
{
    CacheTable::new(size, default)
}

/// `CacheTable::get` for search results: the entry of the slot
/// `hash & (size - 1)` if the key stored there is `hash`. The size is a power
/// of two, so that this slot is `hash mod size`.
#[verifier::external_body]
fn get_result(t: &CacheTable<TTEntry>, hash: u64) -> (r: Option<TTEntry>)
    ensures
        r == lookup(result_slots(*t), hash),
{
    t.get(hash)
}

/// `CacheTable::add` for search results: overwrites the slot
/// `hash & (size - 1)`, which is `hash mod size`, with the key and the entry.
#[verifier::external_body]
fn add_result(t: &mut CacheTable<TTEntry>, hash: u64, entry: TTEntry)
    ensures
        result_slots(*final(t)) == written(result_slots(*old(t)), hash, entry),
{
    t.add(hash, entry)
}

/// `CacheTable::new` for counters. The size must have exactly one bit set, or
/// the call panics. Every slot of the new table holds key 0 and `default`.
#[verifier::external_body]
fn new_counters(size: usize, default: u16) -> (t: CacheTable<u16>)
    requires
        is_capacity(size),
    ensures
        counter_slots(t) == Seq::new(size as nat, |i: int| (0u64, default)),
{
    CacheTable::new(size, default)
}

/// `CacheTable::get` for counters: the count of the slot `hash & (size - 1)`
/// if the key stored there is `hash`. The size is a power of two, so that
/// this slot is `hash mod size`.
#[verifier::external_body]
fn get_counter(t: &CacheTable<u16>, hash: u64) -> (r: Option<u16>)
    ensures
        r == lookup(counter_slots(*t), hash),
{
    t.get(hash)
}

/// `CacheTable::add` for counters: overwrites the slot `hash & (size - 1)`,
/// which is `hash mod size`, with the key and the count.
#[verifier::external_body]
fn add_counter(t: &mut CacheTable<u16>, hash: u64, count: u16)
    ensures
        counter_slots(*final(t)) == written(counter_slots(*old(t)), hash, count),
{
    t.add(hash, count)
}

/// The slots after each write of `writes` was made, first to last.
pub open spec fn written_all<T>(slots: Seq<(u64, T)>, writes: Seq<(u64, T)>) -> Seq<(u64, T)>
    decreases writes.len(),
{
    if writes.len() == 0 {
        slots
    } else {
        written_all(written(slots, writes[0].0, writes[0].1), writes.drop_first())
    }
}

/// A lookup right after a write under the same key finds what was written.
pub proof fn lemma_lookup_after_write<T>(slots: Seq<(u64, T)>, key: u64, entry: T)
    requires
        slots.len() > 0,
    ensures
        lookup(written(slots, key, entry), key) == Some(entry),
        written(slots, key, entry).len() == slots.len(),
{
}

/// A write that goes to another slot leaves a lookup as it was.
pub proof fn lemma_lookup_after_other_write<T>(
    slots: Seq<(u64, T)>,
    key: u64,
    other: u64,
    entry: T,
)
    requires
        slots.len() > 0,
        slot_of(other, slots.len() as int) != slot_of(key, slots.len() as int),
    ensures
        lookup(written(slots, other, entry), key) == lookup(slots, key),
{
}

/// What is written under a key is found under it for as long as no later
/// write goes to the key's slot.
pub proof fn lemma_written_entry_stays<T>(
    slots: Seq<(u64, T)>,
    key: u64,
    entry: T,
    later: Seq<(u64, T)>,
)
    requires
        slots.len() > 0,
        forall|i: int|
            0 <= i < later.len() ==> slot_of(#[trigger] later[i].0, slots.len() as int) != slot_of(
                key,
                slots.len() as int,
            ),
    ensures
        lookup(written_all(written(slots, key, entry), later), key) == Some(entry),
{
    lemma_lookup_kept(written(slots, key, entry), key, later);
}

/// Writes that all go to other slots leave a lookup as it was, and the number
/// of slots as well.
pub proof fn lemma_lookup_kept<T>(slots: Seq<(u64, T)>, key: u64, writes: Seq<(u64, T)>)
    requires
        slots.len() > 0,
        forall|i: int|
            0 <= i < writes.len() ==> slot_of(#[trigger] writes[i].0, slots.len() as int)
                != slot_of(key, slots.len() as int),
    ensures
        lookup(written_all(slots, writes), key) == lookup(slots, key),
        written_all(slots, writes).len() == slots.len(),
    decreases writes.len(),
{
    if writes.len() > 0 {
        let next = written(slots, writes[0].0, writes[0].1);
        let rest = writes.drop_first();
        assert forall|i: int| 0 <= i < rest.len() implies slot_of(
            #[trigger] rest[i].0,
            next.len() as int,
        ) != slot_of(key, next.len() as int) by {
            assert(rest[i] == writes[i + 1]);
        }
        lemma_lookup_kept(next, key, rest);
    }
}

/// The transposition table: one search result per slot, always replaced.
pub struct TranspositionTable {
    table: CacheTable<TTEntry>,
    capacity: usize,
}

impl View for TranspositionTable {
    type V = Seq<(u64, TTEntry)>;

    closed spec fn view(&self) -> Seq<(u64, TTEntry)> {
        result_slots(self.table)
    }
}

impl TranspositionTable {
    /// The table has the number of slots it was made with.
    pub closed spec fn wf(&self) -> bool {
        &&& is_capacity(self.capacity)
        &&& result_slots(self.table).len() == self.capacity
    }

    /// The number of slots.
    pub closed spec fn slot_count(&self) -> usize {
        self.capacity
    }

    /// In a well-formed table the view has as many slots as the capacity
    /// says, and at least one.
    pub proof fn lemma_wf(&self)
        requires
            self.wf(),
        ensures
            self@.len() == self.slot_count(),
            is_capacity(self.slot_count()),
    {
    }

    /// Makes a table of `capacity` slots, each holding key 0 and the blank
    /// entry.
    pub fn new(capacity: usize) -> (t: TranspositionTable)
        requires
            is_capacity(capacity),
        ensures
            t.wf(),
            t.slot_count() == capacity,
            t@ == Seq::new(capacity as nat, |i: int| (0u64, blank_entry())),
    {
        let blank = TTEntry {
            key: 0,
            best: Move::empty(),
            score: 0,
            depth: 0,
            kind: NodeType::All,
        };
        TranspositionTable { table: new_results(capacity, blank), capacity }
    }

    /// The number of slots.
    pub fn capacity(&self) -> (n: usize)
        ensures
            n == self.slot_count(),
    {
        self.capacity
    }

    /// Looks `key` up: the entry of its slot if the slot was last written
    /// under `key`.
    pub fn probe(&self, key: u64) -> (r: Option<TTEntry>)
        requires
            self.wf(),
        ensures
            r == lookup(self@, key),
    {
        get_result(&self.table, key)
    }

    /// Writes `entry` under `key`, replacing whatever the slot held.
    pub fn store(&mut self, key: u64, entry: TTEntry)
        requires
            old(self).wf(),
        ensures
            final(self).wf(),
            final(self).slot_count() == old(self).slot_count(),
            final(self)@ == written(old(self)@, key, entry),
    {
        add_result(&mut self.table, key, entry);
    }
}

/// The count that `slots` hold for `key`: what a lookup finds, and 0 where it
/// finds nothing.
pub open spec fn count_of(slots: Seq<(u64, u16)>, key: u64) -> u16 {
    match lookup(slots, key) {
        Some(c) => c,
        None => 0,
    }
}

/// The slots after a node with `key` was entered: its count goes up by one,
/// and stays where it is at the largest count.
pub open spec fn entered(slots: Seq<(u64, u16)>, key: u64) -> Seq<(u64, u16)> {
    let c = count_of(slots, key);
    written(slots, key, if c < u16::MAX { (c + 1) as u16 } else { c })
}

/// The slots after a node with `key` was left: its count goes down by one. A
/// count of 0 stays as it is, and nothing is written.
pub open spec fn left(slots: Seq<(u64, u16)>, key: u64) -> Seq<(u64, u16)> {
    let c = count_of(slots, key);
    if c > 0 {
        written(slots, key, (c - 1) as u16)
    } else {
        slots
    }
}

/// The slots after each of `keys` was entered, first to last.
pub open spec fn entered_all(slots: Seq<(u64, u16)>, keys: Seq<u64>) -> Seq<(u64, u16)>
    decreases keys.len(),
{
    if keys.len() == 0 {
        slots
    } else {
        entered(entered_all(slots, keys.drop_last()), keys.last())
    }
}

/// Entering other keys leaves a count of 0 at 0, and the number of slots as
/// it was.
pub proof fn lemma_others_entered(slots: Seq<(u64, u16)>, keys: Seq<u64>, key: u64)
    requires
        slots.len() > 0,
        count_of(slots, key) == 0,
        forall|i: int| 0 <= i < keys.len() ==> keys[i] != key,
    ensures
        count_of(entered_all(slots, keys), key) == 0,
        entered_all(slots, keys).len() == slots.len(),
    decreases keys.len(),
{
    if keys.len() > 0 {
        lemma_others_entered(slots, keys.drop_last(), key);
    }
}

/// The repetition table: per slot, how often the position written there
/// lies on the current path.
pub struct RepetitionTable {
    table: CacheTable<u16>,
    capacity: usize,
}

impl View for RepetitionTable {
    type V = Seq<(u64, u16)>;

    closed spec fn view(&self) -> Seq<(u64, u16)> {
        counter_slots(self.table)
    }
}

impl RepetitionTable {
    /// The table has the number of slots it was made with.
    pub closed spec fn wf(&self) -> bool {
        &&& is_capacity(self.capacity)
        &&& counter_slots(self.table).len() == self.capacity
    }

    /// The number of slots.
    pub closed spec fn slot_count(&self) -> usize {
        self.capacity
    }

    /// In a well-formed table the view has as many slots as the capacity
    /// says, and at least one.
    pub proof fn lemma_wf(&self)
        requires
            self.wf(),
        ensures
            self@.len() == self.slot_count(),
            is_capacity(self.slot_count()),
    {
    }

    /// Makes a table of `capacity` slots in which every count is 0.
    pub fn new(capacity: usize) -> (t: RepetitionTable)
        requires
            is_capacity(capacity),
        ensures
            t.wf(),
            t.slot_count() == capacity,
            t@ == Seq::new(capacity as nat, |i: int| (0u64, 0u16)),
    {
        RepetitionTable { table: new_counters(capacity, 0), capacity }
    }

    /// The number of slots.
    pub fn capacity(&self) -> (n: usize)
        ensures
            n == self.slot_count(),
    {
        self.capacity
    }

    /// The count kept for `key`, 0 if its slot holds another key.
    pub fn get(&self, key: u64) -> (c: u16)
        requires
            self.wf(),
        ensures
            c == count_of(self@, key),
    {
        match get_counter(&self.table, key) {
            Some(c) => c,
            None => 0,
        }
    }

    /// Writes `count` under `key`, replacing whatever the slot held.
    pub fn add(&mut self, key: u64, count: u16)
        requires
            old(self).wf(),
        ensures
            final(self).wf(),
            final(self).slot_count() == old(self).slot_count(),
            final(self)@ == written(old(self)@, key, count),
    {
        add_counter(&mut self.table, key, count);
    }

    /// Counts one more visit of `key`.
    pub fn enter(&mut self, key: u64)
        requires
            old(self).wf(),
        ensures
            final(self).wf(),
            final(self).slot_count() == old(self).slot_count(),
            final(self)@ == entered(old(self)@, key),
    {
        let c = self.get(key);
        let next: u16 = if c < u16::MAX { c + 1 } else { c };
        self.add(key, next);
    }

    /// Counts one visit of `key` less.
    pub fn leave(&mut self, key: u64)
        requires
            old(self).wf(),
        ensures
            final(self).wf(),
            final(self).slot_count() == old(self).slot_count(),
            final(self)@ == left(old(self)@, key),
    {
        let c = self.get(key);
        if c > 0 {
            self.add(key, c - 1);
        }
    }
}

/// Entering a key raises its count by one, and leaving it again restores the
/// count it had.
pub proof fn lemma_enter_then_leave(slots: Seq<(u64, u16)>, key: u64)
    requires
        slots.len() > 0,
        count_of(slots, key) < u16::MAX,
    ensures
        count_of(entered(slots, key), key) == count_of(slots, key) + 1,
        count_of(left(entered(slots, key), key), key) == count_of(slots, key),
        entered(slots, key).len() == slots.len(),
        left(entered(slots, key), key).len() == slots.len(),
{
}

} // verus!
