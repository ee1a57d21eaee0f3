use kekchess::moves::Move;
use kekchess::tables::{NodeType, RepetitionTable, TTEntry, TranspositionTable};

fn entry(key: u64, score: i32) -> TTEntry {
    TTEntry {
        key,
        best: Move { from: 12, to: 28, promotion: None },
        score,
        depth: 3,
        kind: NodeType::PV,
    }
}

#[test]
fn probe_finds_what_was_stored() {
    let mut table = TranspositionTable::new(16);
    assert_eq!(table.capacity(), 16);
    assert_eq!(table.probe(5), None);
    table.store(5, entry(5, 42));
    assert_eq!(table.probe(5), Some(entry(5, 42)));
    table.store(7, entry(7, -1));
    assert_eq!(table.probe(5), Some(entry(5, 42)));
    assert_eq!(table.probe(7), Some(entry(7, -1)));
}

#[test]
fn a_store_to_the_same_slot_replaces() {
    let mut table = TranspositionTable::new(16);
    table.store(5, entry(5, 42));
    table.store(21, entry(21, 7));
    assert_eq!(table.probe(5), None);
    assert_eq!(table.probe(21), Some(entry(21, 7)));
    table.store(5, entry(5, 1));
    table.store(5, entry(5, 2));
    assert_eq!(table.probe(5), Some(entry(5, 2)));
    assert_eq!(table.probe(21), None);
}

#[test]
fn a_new_table_holds_the_blank_entry_under_key_zero() {
    let table = TranspositionTable::new(8);
    let blank = TTEntry {
        key: 0,
        best: Move { from: 0, to: 0, promotion: None },
        score: 0,
        depth: 0,
        kind: NodeType::All,
    };
    assert_eq!(table.probe(0), Some(blank));
    assert_eq!(table.probe(8), None);
    assert_eq!(table.probe(3), None);
}

#[test]
fn the_slot_is_the_key_modulo_the_capacity() {
    let mut table = TranspositionTable::new(1024);
    let key = 0xDEAD_BEEF_1234_5678u64;
    table.store(key, entry(key, 9));
    assert_eq!(table.probe(key), Some(entry(key, 9)));
    // Same low ten bits, another key.
    let other = key ^ (1u64 << 40);
    assert_eq!(table.probe(other), None);
    table.store(other, entry(other, 3));
    assert_eq!(table.probe(key), None);
}

#[test]
fn counts_go_up_and_down() {
    let mut table = RepetitionTable::new(16);
    assert_eq!(table.capacity(), 16);
    assert_eq!(table.get(9), 0);
    assert_eq!(table.get(0), 0);
    table.enter(9);
    assert_eq!(table.get(9), 1);
    table.enter(9);
    assert_eq!(table.get(9), 2);
    table.leave(9);
    assert_eq!(table.get(9), 1);
    table.leave(9);
    assert_eq!(table.get(9), 0);
    table.leave(9);
    assert_eq!(table.get(9), 0);
}

#[test]
fn add_writes_the_count() {
    let mut table = RepetitionTable::new(4);
    table.add(2, 7);
    assert_eq!(table.get(2), 7);
    // 6 goes to the slot of 2.
    assert_eq!(table.get(6), 0);
    table.add(6, 1);
    assert_eq!(table.get(2), 0);
    assert_eq!(table.get(6), 1);
}

#[test]
fn the_largest_count_stays() {
    let mut table = RepetitionTable::new(4);
    table.add(1, u16::MAX);
    table.enter(1);
    assert_eq!(table.get(1), u16::MAX);
}
