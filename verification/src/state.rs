//! The oracle as mathematics: what the store holds, and what every
//! operation makes of it.

use vstd::prelude::*;
use crate::bucket::bucket_of;
use crate::registry::{index_in, registration, MAX_ASSETS};
use crate::store::{extended_until, lifetime_extension, observation, after_write, record_at, PriceRecord};
use crate::types::{Address, Asset, ConfigData, Error, PriceData};

verus! {

/// The parameters that `config` fixes. Only the retention period can be
/// changed afterwards.
#[derive(Clone, Copy, Debug)]
pub struct Settings {
    pub admin: Address,
    pub base_asset: Asset,
    pub decimals: u32,
    /// Bucket width in milliseconds.
    pub resolution: u32,
    /// Retention period in milliseconds.
    pub period: u64,
}

/// Everything the oracle holds.
pub struct OracleState {
    /// `None` until `config` has succeeded.
    pub settings: Option<Settings>,
    /// The registered assets; an asset's index is its position.
    pub assets: Seq<Asset>,
    /// The largest timestamp that a price batch was written with.
    pub last_timestamp: u64,
    /// The price records by asset index and bucket.
    pub records: Map<(u8, u64), PriceRecord>,
    /// The current ledger.
    pub ledger: u32,
    /// The last ledger through which the oracle's own state is kept.
    pub live_until: u64,
}

/// A state together with what the operation that led to it reported.
pub struct Outcome {
    pub state: OracleState,
    pub result: Result<(), Error>,
}

/// The last position below `len` that is written to the slot of `index`:
/// positions are taken to indices by their low eight bits.
pub open spec fn last_position(len: nat, index: u8) -> int
    recommends
        index < len,
{
    index + 256 * ((len - 1 - index) / 256)
}

/// `records` after the batch `updates` is written at `timestamp`: position
/// `i` goes to the slot of index `i % 256`, a later position over an earlier
/// one, and every slot written is kept for `extension` ledgers from `now`.
pub open spec fn write_batch(
    records: Map<(u8, u64), PriceRecord>,
    now: u32,
    updates: Seq<i128>,
    timestamp: u64,
    extension: u64,
) -> Map<(u8, u64), PriceRecord> {
    Map::new(
        |slot: (u8, u64)| records.contains_key(slot) || (slot.1 == timestamp && slot.0 < updates.len()),
        |slot: (u8, u64)|
            if slot.1 == timestamp && slot.0 < updates.len() {
                PriceRecord {
                    price: updates[last_position(updates.len(), slot.0)],
                    live_until: extended_until(record_at(records, slot.0, slot.1), now, extension),
                }
            } else {
                records[slot]
            },
    )
}

/// A batch of no prices writes nothing.
pub proof fn lemma_write_batch_first(
    records: Map<(u8, u64), PriceRecord>,
    now: u32,
    updates: Seq<i128>,
    timestamp: u64,
    extension: u64,
)
    ensures
        write_batch(records, now, updates.take(0), timestamp, extension) == records,
{
    assert(write_batch(records, now, updates.take(0), timestamp, extension) =~= records);
}

/// A batch of `i + 1` prices is the batch of the first `i`, followed by one
/// write of the price at position `i` to the index `i % 256`.
pub proof fn lemma_write_batch_next(
    records: Map<(u8, u64), PriceRecord>,
    now: u32,
    updates: Seq<i128>,
    i: int,
    timestamp: u64,
    extension: u64,
)
    requires
        0 <= i < updates.len(),
    ensures
        write_batch(records, now, updates.take(i + 1), timestamp, extension) == after_write(
            write_batch(records, now, updates.take(i), timestamp, extension),
            now,
            (i % 256) as u8,
            updates[i],
            timestamp,
            extension,
        ),
{
    let shorter = write_batch(records, now, updates.take(i), timestamp, extension);
    let longer = write_batch(records, now, updates.take(i + 1), timestamp, extension);
    let index = (i % 256) as u8;
    let next = after_write(shorter, now, index, updates[i], timestamp, extension);
    assert(last_position((i + 1) as nat, index) == i);
    assert forall|slot: (u8, u64)| longer.contains_key(slot) == next.contains_key(slot) by {}
    assert forall|slot: (u8, u64)| longer.contains_key(slot) implies longer[slot] == next[slot] by {
        if slot.1 == timestamp && slot.0 < i + 1 && slot.0 != index {
            assert(slot.0 < i);
            assert(last_position((i + 1) as nat, slot.0) == last_position(i as nat, slot.0));
        }
    }
    assert(longer =~= next);
}

impl OracleState {
    /// The state before anything has happened.
    pub open spec fn initial() -> OracleState {
        OracleState {
            settings: None,
            assets: Seq::empty(),
            last_timestamp: 0,
            records: Map::empty(),
            ledger: 0,
            live_until: 0,
        }
    }

    /// No asset is registered twice; every index fits in eight bits; assets
    /// are registered only once the oracle is configured; and the grid of a
    /// configured oracle has a width.
    pub open spec fn wf(self) -> bool {
        &&& self.assets.no_duplicates()
        &&& self.assets.len() <= MAX_ASSETS
        &&& self.settings is None ==> self.assets.len() == 0
        &&& self.settings matches Some(settings) ==> settings.resolution > 0
    }

    /// Whether `caller` is the stored administrator.
    pub open spec fn is_admin(self, caller: Address) -> bool {
        self.settings matches Some(settings) && settings.admin == caller
    }

    /// The operation is refused with `error` and nothing changes.
    pub open spec fn refused(self, error: Error) -> Outcome {
        Outcome { state: self, result: Err(error) }
    }

    /// The operation succeeds and leaves `state`.
    pub open spec fn accepted(state: OracleState) -> Outcome {
        Outcome { state, result: Ok(()) }
    }

    /// One-time initialisation: fixes the settings and registers the initial
    /// assets, all or nothing.
    pub open spec fn config(self, config: ConfigData) -> Outcome {
        if self.settings is Some {
            self.refused(Error::AlreadyInitialized)
        } else {
            match registration(self.assets, config.assets@) {
                Err(error) => self.refused(error),
                Ok(assets) => Self::accepted(
                    OracleState {
                        settings: Some(
                            Settings {
                                admin: config.admin,
                                base_asset: config.base_asset,
                                decimals: config.decimals,
                                resolution: config.resolution,
                                period: config.period,
                            },
                        ),
                        assets,
                        ..self
                    },
                ),
            }
        }
    }

    /// Appends `batch` to the registry on behalf of `caller`.
    pub open spec fn add_assets(self, caller: Address, batch: Seq<Asset>) -> Outcome {
        if !self.is_admin(caller) {
            self.refused(Error::Unauthorized)
        } else {
            match registration(self.assets, batch) {
                Err(error) => self.refused(error),
                Ok(assets) => Self::accepted(OracleState { assets, ..self }),
            }
        }
    }

    /// Overwrites the retention period on behalf of `caller`.
    pub open spec fn set_period(self, caller: Address, period: u64) -> Outcome {
        if !self.is_admin(caller) {
            self.refused(Error::Unauthorized)
        } else {
            Self::accepted(
                OracleState {
                    settings: Some(Settings { period, ..self.settings.unwrap() }),
                    ..self
                },
            )
        }
    }

    /// Writes the batch `updates` at `timestamp` on behalf of `caller`, and
    /// moves the watermark up to `timestamp` if it was below.
    pub open spec fn set_price(self, caller: Address, updates: Seq<i128>, timestamp: u64) -> Outcome {
        if !self.is_admin(caller) {
            self.refused(Error::Unauthorized)
        } else {
            Self::accepted(
                OracleState {
                    records: write_batch(
                        self.records,
                        self.ledger,
                        updates,
                        timestamp,
                        lifetime_extension(self.settings.unwrap().period) as u64,
                    ),
                    last_timestamp: if timestamp > self.last_timestamp {
                        timestamp
                    } else {
                        self.last_timestamp
                    },
                    ..self
                },
            )
        }
    }

    /// What `caller` gets when asking to replace the oracle's code by the
    /// code that `wasm_hash` names: the administrator gets the hash back.
    pub open spec fn update_contract(self, caller: Address, wasm_hash: [u8; 32]) -> Result<
        [u8; 32],
        Error,
    > {
        if self.is_admin(caller) {
            Ok(wasm_hash)
        } else {
            Err(Error::Unauthorized)
        }
    }

    /// Keeps the oracle's own state for at least `ledgers_to_live` ledgers
    /// from now. Anyone may ask for this.
    pub open spec fn bump(self, ledgers_to_live: u32) -> OracleState {
        OracleState {
            live_until: if self.ledger + ledgers_to_live > self.live_until {
                (self.ledger + ledgers_to_live) as u64
            } else {
                self.live_until
            },
            ..self
        }
    }

    /// The clock moves to `ledger`.
    pub open spec fn at_ledger(self, ledger: u32) -> OracleState {
        OracleState { ledger, ..self }
    }

    /// The index of `asset`, if it is registered.
    pub open spec fn index_of(self, asset: Asset) -> Option<u8> {
        index_in(self.assets, asset)
    }

    /// What is readable now in the slot of `index` and `bucket`.
    pub open spec fn price_by_index(self, index: u8, bucket: u64) -> Option<PriceData> {
        observation(self.records, self.ledger, index, bucket)
    }

    /// What is readable now for `asset` in exactly the bucket `bucket`;
    /// nothing for an asset that is not registered.
    pub open spec fn price_data(self, asset: Asset, bucket: u64) -> Option<PriceData> {
        match self.index_of(asset) {
            Some(index) => self.price_by_index(index, bucket),
            None => None,
        }
    }

    /// The observation for `asset` in the bucket that `timestamp` falls in.
    pub open spec fn price(self, asset: Asset, timestamp: u64) -> Option<PriceData> {
        match self.settings {
            Some(settings) => self.price_data(
                asset,
                bucket_of(timestamp as nat, settings.resolution as nat) as u64,
            ),
            None => None,
        }
    }

    /// The observation for `asset` at the watermark, which is taken as the
    /// bucket as it stands.
    pub open spec fn lastprice(self, asset: Asset) -> Option<PriceData> {
        self.price_data(asset, self.last_timestamp)
    }

    /// The bucket width as reported: in seconds, rounded down; 0 while unset.
    pub open spec fn resolution(self) -> u32 {
        match self.settings {
            Some(settings) => settings.resolution / 1000,
            None => 0,
        }
    }

    /// The decimal precision of prices; 0 while unset.
    pub open spec fn decimals(self) -> u32 {
        match self.settings {
            Some(settings) => settings.decimals,
            None => 0,
        }
    }

    /// The base asset, once configured.
    pub open spec fn base(self) -> Option<Asset> {
        match self.settings {
            Some(settings) => Some(settings.base_asset),
            None => None,
        }
    }

    /// The retention period in milliseconds, once configured.
    pub open spec fn period(self) -> Option<u64> {
        match self.settings {
            Some(settings) => Some(settings.period),
            None => None,
        }
    }

    /// The administrator, once configured.
    pub open spec fn admin(self) -> Option<Address> {
        match self.settings {
            Some(settings) => Some(settings.admin),
            None => None,
        }
    }
}

} // verus!
