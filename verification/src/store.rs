//! The price store: one observation per asset index and time bucket, each
//! kept alive until a ledger of its own.

use std::collections::HashMap;
use vstd::prelude::*;
use crate::types::PriceData;

verus! {

/// Seconds between two ledgers, by which a retention period is converted.
pub const LEDGER_INTERVAL_SECONDS: u64 = 5;

/// The number of ledgers that an observation is kept for when the retention
/// period is `period` milliseconds: the period in whole ledgers, and one more.
pub open spec fn lifetime_extension(period: u64) -> nat {
    (period / 1000 / LEDGER_INTERVAL_SECONDS + 1) as nat
}

/// Converts a retention period in milliseconds to a lifetime in ledgers.
pub fn ledgers_to_live(period: u64) -> (ledgers: u64)
    ensures
        ledgers == lifetime_extension(period),
{
    period / 1000 / LEDGER_INTERVAL_SECONDS + 1
}

/// A stored price and the last ledger at which it can still be read.
#[derive(Clone, Copy, Debug, PartialEq, Eq, Structural)]
pub struct PriceRecord {
    pub price: i128,
    pub live_until: u64,
}

/// The last ledger of an entry that is written at ledger `now` with the given
/// extension, where `previous` is what the slot held before. A lifetime is
/// never shortened, and it stops growing at the largest ledger number.
pub open spec fn extended_until(previous: Option<PriceRecord>, now: u32, extension: u64) -> u64 {
    let fresh = if now + extension > u64::MAX {
        u64::MAX
    } else {
        (now + extension) as u64
    };
    match previous {
        Some(record) => if record.live_until > fresh {
            record.live_until
        } else {
            fresh
        },
        None => fresh,
    }
}

/// The key under which the slot of `index` and `bucket` is stored.
pub open spec fn slot_key(index: u8, bucket: u64) -> u128 {
    (index * 0x1_0000_0000_0000_0000 + bucket) as u128
}

/// Computes the storage key of a slot.
pub fn price_key(index: u8, bucket: u64) -> (key: u128)
    ensures
        key == slot_key(index, bucket),
{
    (index as u128) * 0x1_0000_0000_0000_0000u128 + (bucket as u128)
}

/// Different slots have different keys.
pub proof fn lemma_slot_key_injective(i1: u8, b1: u64, i2: u8, b2: u64)
    ensures
        slot_key(i1, b1) == slot_key(i2, b2) <==> (i1 == i2 && b1 == b2),
{
}

/// What `records` holds in the slot of `index` and `bucket`, alive or not.
pub open spec fn record_at(records: Map<(u8, u64), PriceRecord>, index: u8, bucket: u64) -> Option<
    PriceRecord,
> {
    if records.contains_key((index, bucket)) {
        Some(records[(index, bucket)])
    } else {
        None
    }
}

/// What a read of the slot gives at ledger `now`: its price at its bucket
/// while the slot is alive, nothing once it has lapsed or if it was never
/// written.
pub open spec fn observation(
    records: Map<(u8, u64), PriceRecord>,
    now: u32,
    index: u8,
    bucket: u64,
) -> Option<PriceData> {
    match record_at(records, index, bucket) {
        Some(record) => if record.live_until >= now {
            Some(PriceData { price: record.price, timestamp: bucket })
        } else {
            None
        },
        None => None,
    }
}

/// `records` after `price` is written into the slot of `index` and `bucket`
/// at ledger `now`, to be kept for `extension` ledgers.
pub open spec fn after_write(
    records: Map<(u8, u64), PriceRecord>,
    now: u32,
    index: u8,
    price: i128,
    bucket: u64,
    extension: u64,
) -> Map<(u8, u64), PriceRecord> {
    records.insert(
        (index, bucket),
        PriceRecord {
            price,
            live_until: extended_until(record_at(records, index, bucket), now, extension),
        },
    )
}

/// The records by slot that a map by storage key holds.
pub open spec fn slots_of(entries: Map<u128, PriceRecord>) -> Map<(u8, u64), PriceRecord> {
    Map::new(
        |slot: (u8, u64)| entries.contains_key(slot_key(slot.0, slot.1)),
        |slot: (u8, u64)| entries[slot_key(slot.0, slot.1)],
    )
}

/// Price observations by asset index and bucket, with the ledger clock by
/// which their lifetimes are measured.
pub struct PriceStore {
    entries: HashMap<u128, PriceRecord>,
    ledger: u32,
}

impl PriceStore {
    /// Every record ever written and not overwritten, by slot.
    pub closed spec fn records(&self) -> Map<(u8, u64), PriceRecord> {
        slots_of(self.entries@)
    }

    /// The current ledger.
    pub closed spec fn now(&self) -> u32 {
        self.ledger
    }

    /// An empty store at ledger 0.
    pub fn new() -> (store: Self)
        ensures
            store.records() == Map::<(u8, u64), PriceRecord>::empty(),
            store.now() == 0,
    {
        broadcast use vstd::std_specs::hash::group_hash_axioms;

        let store = PriceStore { entries: HashMap::new(), ledger: 0 };
        assert(store.records() =~= Map::<(u8, u64), PriceRecord>::empty());
        store
    }

    /// A store that holds `entries`, by storage key, at `ledger`.
    pub fn from_entries(entries: HashMap<u128, PriceRecord>, ledger: u32) -> (store: Self)
        ensures
            store.records() == slots_of(entries@),
            store.now() == ledger,
    {
        PriceStore { entries, ledger }
    }

    /// A copy of everything stored, by storage key.
    pub fn entries(&self) -> (entries: HashMap<u128, PriceRecord>)
        ensures
            slots_of(entries@) == self.records(),
    {
        self.entries.clone()
    }

    /// The current ledger.
    pub fn ledger(&self) -> (ledger: u32)
        ensures
            ledger == self.now(),
    {
        self.ledger
    }

    /// Moves the clock to `ledger`. No record is touched.
    pub fn set_ledger(&mut self, ledger: u32)
        ensures
            final(self).now() == ledger,
            final(self).records() == old(self).records(),
    {
        self.ledger = ledger;
    }

    /// Writes `price` into the slot of `index` and `timestamp`, replacing
    /// what was there, and keeps the slot alive for `lifetime_extension`
    /// ledgers from now. The timestamp is taken as the bucket, unchanged.
    pub fn set(&mut self, index: u8, price: i128, timestamp: u64, lifetime_extension: u64)
        ensures
            final(self).now() == old(self).now(),
            final(self).records() == after_write(
                old(self).records(),
                old(self).now(),
                index,
                price,
                timestamp,
                lifetime_extension,
            ),
    {
        broadcast use vstd::std_specs::hash::group_hash_axioms;

        let key = price_key(index, timestamp);
        let now: u64 = self.ledger as u64;
        let fresh: u64 = if lifetime_extension > u64::MAX - now {
            u64::MAX
        } else {
            now + lifetime_extension
        };
        let live_until: u64 = match self.entries.get(&key) {
            Some(record) => if record.live_until > fresh {
                record.live_until
            } else {
                fresh
            },
            None => fresh,
        };
        let record = PriceRecord { price, live_until };
        self.entries.insert(key, record);
        proof {
            let after = old(self).records().insert((index, timestamp), record);
            assert forall|slot: (u8, u64)| #[trigger]
                self.records().contains_key(slot) == after.contains_key(slot) by {
                lemma_slot_key_injective(slot.0, slot.1, index, timestamp);
            }
            assert forall|slot: (u8, u64)| self.records().contains_key(slot) implies #[trigger]
                self.records()[slot] == after[slot] by {
                lemma_slot_key_injective(slot.0, slot.1, index, timestamp);
            }
            assert(self.records() =~= after);
        }
    }

    /// The observation in the slot of `index` and `bucket`, if one was
    /// written and the current ledger is not past its last.
    pub fn get(&self, index: u8, bucket: u64) -> (found: Option<PriceData>)
        ensures
            found == observation(self.records(), self.now(), index, bucket),
    {
        broadcast use vstd::std_specs::hash::group_hash_axioms;

        let key = price_key(index, bucket);
        match self.entries.get(&key) {
            Some(record) => if record.live_until >= self.ledger as u64 {
                Some(PriceData { price: record.price, timestamp: bucket })
            } else {
                None
            },
            None => None,
        }
    }
}

} // verus!
