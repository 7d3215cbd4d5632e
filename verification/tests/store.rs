use price_oracle::{ledgers_to_live, price_key, PriceData, PriceRecord, PriceStore};
use std::collections::HashMap;

#[test]
fn ledgers_to_live_is_the_period_in_ledgers_and_one() {
    assert_eq!(ledgers_to_live(86_400_000), 17_281);
    assert_eq!(ledgers_to_live(0), 1);
    assert_eq!(ledgers_to_live(4_999), 1);
    assert_eq!(ledgers_to_live(5_000), 2);
    assert_eq!(ledgers_to_live(9_999), 2);
    assert_eq!(ledgers_to_live(10_000), 3);
    assert_eq!(ledgers_to_live(u64::MAX), 3_689_348_814_741_911);
}

#[test]
fn price_key_puts_the_index_above_the_bucket() {
    assert_eq!(price_key(0, 0), 0);
    assert_eq!(price_key(0, 1_000_000_000), 1_000_000_000);
    assert_eq!(price_key(1, 0), 1u128 << 64);
    assert_eq!(price_key(2, 5), (2u128 << 64) + 5);
    assert_eq!(price_key(255, u64::MAX), (255u128 << 64) + u64::MAX as u128);
    assert_ne!(price_key(1, 0), price_key(0, u64::MAX));
}

#[test]
fn store_reads_back_what_was_written() {
    let mut store = PriceStore::new();
    assert_eq!(store.ledger(), 0);
    assert_eq!(store.get(0, 1_000), None);
    store.set(0, 42, 1_000, 10);
    assert_eq!(store.get(0, 1_000), Some(PriceData { price: 42, timestamp: 1_000 }));
    assert_eq!(store.get(1, 1_000), None);
    assert_eq!(store.get(0, 1_001), None);
    assert_eq!(store.get(0, 999), None);
}

#[test]
fn store_keeps_the_timestamp_as_the_bucket() {
    let mut store = PriceStore::new();
    store.set(3, -5, 1_234_567, 1);
    assert_eq!(store.get(3, 1_234_567), Some(PriceData { price: -5, timestamp: 1_234_567 }));
    assert_eq!(store.get(3, 1_234_000), None);
}

#[test]
fn store_overwrites_a_slot() {
    let mut store = PriceStore::new();
    store.set(7, 1, 500, 10);
    store.set(7, 2, 500, 10);
    assert_eq!(store.get(7, 500), Some(PriceData { price: 2, timestamp: 500 }));
    store.set(7, i128::MIN, 500, 10);
    assert_eq!(store.get(7, 500), Some(PriceData { price: i128::MIN, timestamp: 500 }));
}

#[test]
fn store_keeps_slots_apart() {
    let mut store = PriceStore::new();
    store.set(0, 10, 100, 5);
    store.set(1, 11, 100, 5);
    store.set(0, 12, 200, 5);
    store.set(255, 13, u64::MAX, 5);
    assert_eq!(store.get(0, 100), Some(PriceData { price: 10, timestamp: 100 }));
    assert_eq!(store.get(1, 100), Some(PriceData { price: 11, timestamp: 100 }));
    assert_eq!(store.get(0, 200), Some(PriceData { price: 12, timestamp: 200 }));
    assert_eq!(store.get(255, u64::MAX), Some(PriceData { price: 13, timestamp: u64::MAX }));
    assert_eq!(store.get(1, 200), None);
}

#[test]
fn store_entry_lapses_after_its_lifetime() {
    let mut store = PriceStore::new();
    store.set_ledger(100);
    store.set(0, 42, 1_000, 10);
    store.set_ledger(109);
    assert_eq!(store.get(0, 1_000), Some(PriceData { price: 42, timestamp: 1_000 }));
    store.set_ledger(110);
    assert_eq!(store.get(0, 1_000), Some(PriceData { price: 42, timestamp: 1_000 }));
    store.set_ledger(111);
    assert_eq!(store.get(0, 1_000), None);
    store.set_ledger(u32::MAX);
    assert_eq!(store.get(0, 1_000), None);
}

#[test]
fn store_write_never_shortens_a_lifetime() {
    let mut store = PriceStore::new();
    store.set_ledger(100);
    store.set(0, 1, 1_000, 50);
    store.set_ledger(120);
    store.set(0, 2, 1_000, 5);
    store.set_ledger(150);
    assert_eq!(store.get(0, 1_000), Some(PriceData { price: 2, timestamp: 1_000 }));
    store.set_ledger(151);
    assert_eq!(store.get(0, 1_000), None);
}

#[test]
fn store_write_extends_a_lifetime() {
    let mut store = PriceStore::new();
    store.set_ledger(100);
    store.set(0, 1, 1_000, 5);
    store.set_ledger(104);
    store.set(0, 2, 1_000, 50);
    store.set_ledger(154);
    assert_eq!(store.get(0, 1_000), Some(PriceData { price: 2, timestamp: 1_000 }));
    store.set_ledger(155);
    assert_eq!(store.get(0, 1_000), None);
}

#[test]
fn store_write_revives_a_lapsed_slot() {
    let mut store = PriceStore::new();
    store.set(0, 1, 1_000, 5);
    store.set_ledger(50);
    assert_eq!(store.get(0, 1_000), None);
    store.set(0, 2, 1_000, 5);
    assert_eq!(store.get(0, 1_000), Some(PriceData { price: 2, timestamp: 1_000 }));
    store.set_ledger(55);
    assert_eq!(store.get(0, 1_000), Some(PriceData { price: 2, timestamp: 1_000 }));
    store.set_ledger(56);
    assert_eq!(store.get(0, 1_000), None);
}

#[test]
fn store_lifetime_stops_at_the_largest_ledger() {
    let mut store = PriceStore::new();
    store.set_ledger(u32::MAX);
    store.set(0, 9, 1, u64::MAX);
    assert_eq!(store.get(0, 1), Some(PriceData { price: 9, timestamp: 1 }));
    let entries = store.entries();
    assert_eq!(entries.get(&price_key(0, 1)), Some(&PriceRecord { price: 9, live_until: u64::MAX }));
}

#[test]
fn store_with_no_extension_lives_through_the_current_ledger() {
    let mut store = PriceStore::new();
    store.set_ledger(7);
    store.set(0, 9, 1, 0);
    assert_eq!(store.get(0, 1), Some(PriceData { price: 9, timestamp: 1 }));
    store.set_ledger(8);
    assert_eq!(store.get(0, 1), None);
}

#[test]
fn store_hands_out_and_takes_back_its_entries() {
    let mut store = PriceStore::new();
    store.set_ledger(10);
    store.set(2, 77, 300, 4);
    let entries = store.entries();
    assert_eq!(entries.len(), 1);
    assert_eq!(entries.get(&price_key(2, 300)), Some(&PriceRecord { price: 77, live_until: 14 }));
    let again = PriceStore::from_entries(entries, 14);
    assert_eq!(again.ledger(), 14);
    assert_eq!(again.get(2, 300), Some(PriceData { price: 77, timestamp: 300 }));
    let later = PriceStore::from_entries(again.entries(), 15);
    assert_eq!(later.get(2, 300), None);
    let empty = PriceStore::from_entries(HashMap::new(), 0);
    assert_eq!(empty.get(2, 300), None);
}
