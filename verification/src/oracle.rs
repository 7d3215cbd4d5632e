//! The oracle itself: configuration, registry, price store and watermark
//! behind the public operations.

use std::collections::HashMap;
use vstd::prelude::*;
use vstd::string::StringSliceAdditionalSpecFns;
use crate::bucket::normalize;
use crate::registry::{lemma_repeats_from_empty, AssetRegistry};
use crate::state::{lemma_write_batch_first, lemma_write_batch_next, write_batch, OracleState, Settings};
use crate::store::{ledgers_to_live, slots_of, PriceRecord, PriceStore};
use crate::types::{Address, Asset, ConfigData, Error, PriceData};
use crate::version::{major_of, major_version};

verus! {

/// A price oracle: one administrator writes batches of prices for the
/// registered assets, anyone reads them back by asset and time.
pub struct PriceOracleContract {
    settings: Option<Settings>,
    registry: AssetRegistry,
    store: PriceStore,
    last_timestamp: u64,
    live_until: u64,
}

impl View for PriceOracleContract {
    type V = OracleState;

    closed spec fn view(&self) -> OracleState {
        OracleState {
            settings: self.settings,
            assets: self.registry@,
            last_timestamp: self.last_timestamp,
            records: self.store.records(),
            ledger: self.store.now(),
            live_until: self.live_until,
        }
    }
}

/// All that an oracle holds, as plain values for a host to keep between
/// calls.
pub struct Snapshot {
    pub settings: Option<Settings>,
    pub assets: Vec<Asset>,
    pub last_timestamp: u64,
    pub ledger: u32,
    pub live_until: u64,
    /// The price records by storage key.
    pub records: HashMap<u128, PriceRecord>,
}

impl View for Snapshot {
    type V = OracleState;

    open spec fn view(&self) -> OracleState {
        OracleState {
            settings: self.settings,
            assets: self.assets@,
            last_timestamp: self.last_timestamp,
            records: slots_of(self.records@),
            ledger: self.ledger,
            live_until: self.live_until,
        }
    }
}

impl PriceOracleContract {
    /// The invariant that every operation keeps.
    pub open spec fn wf(&self) -> bool {
        self@.wf()
    }

    /// An oracle that has not been configured, at ledger 0.
    pub fn new() -> (oracle: Self)
        ensures
            oracle.wf(),
            oracle@ == OracleState::initial(),
    {
        PriceOracleContract {
            settings: None,
            registry: AssetRegistry::new(),
            store: PriceStore::new(),
            last_timestamp: 0,
            live_until: 0,
        }
    }

    /// Everything the oracle holds, to be kept and handed to `restore`.
    pub fn snapshot(&self) -> (snapshot: Snapshot)
        ensures
            snapshot@ == self@,
    {
        Snapshot {
            settings: self.settings,
            assets: self.registry.list(),
            last_timestamp: self.last_timestamp,
            ledger: self.store.ledger(),
            live_until: self.live_until,
            records: self.store.entries(),
        }
    }

    /// The oracle that `snapshot` was taken of. What no oracle can have
    /// come to hold is refused.
    pub fn restore(snapshot: Snapshot) -> (oracle: Option<Self>)
        ensures
            match oracle {
                Some(oracle) => oracle.wf() && oracle@ == snapshot@,
                None => !snapshot@.wf(),
            },
    {
        proof {
            lemma_repeats_from_empty(snapshot.assets@);
        }
        let mut registry = AssetRegistry::new();
        if registry.register(&snapshot.assets).is_err() {
            return None;
        }
        match &snapshot.settings {
            Some(settings) => if settings.resolution == 0 {
                return None;
            },
            None => if snapshot.assets.len() > 0 {
                return None;
            },
        }
        assert(Seq::<Asset>::empty() + snapshot.assets@ == snapshot.assets@);
        Some(
            PriceOracleContract {
                settings: snapshot.settings,
                registry,
                store: PriceStore::from_entries(snapshot.records, snapshot.ledger),
                last_timestamp: snapshot.last_timestamp,
                live_until: snapshot.live_until,
            },
        )
    }

    /// The major version that the version string of a package names, such
    /// as 2 for `2.1.0`; `None` where the string starts with no number.
    pub fn version(package_version: &str) -> (major: Option<u32>)
        ensures
            major == major_version(package_version.spec_bytes()),
    {
        major_of(package_version.as_bytes())
    }

    /// Moves the clock to `ledger`, as the host reports it.
    pub fn set_ledger(&mut self, ledger: u32)
        requires
            old(self).wf(),
        ensures
            final(self).wf(),
            final(self)@ == old(self)@.at_ledger(ledger),
    {
        self.store.set_ledger(ledger);
    }

    /// Whether `caller` is the administrator. Nobody is before `config`.
    pub fn is_admin(&self, caller: &Address) -> (yes: bool)
        ensures
            yes == self@.is_admin(*caller),
    {
        match &self.settings {
            Some(settings) => settings.admin == *caller,
            None => false,
        }
    }

    /// The base asset, once configured.
    pub fn base(&self) -> (asset: Option<Asset>)
        ensures
            asset == self@.base(),
    {
        match &self.settings {
            Some(settings) => Some(settings.base_asset),
            None => None,
        }
    }

    /// The decimal precision of prices; 0 until configured.
    pub fn decimals(&self) -> (decimals: u32)
        ensures
            decimals == self@.decimals(),
    {
        match &self.settings {
            Some(settings) => settings.decimals,
            None => 0,
        }
    }

    /// The bucket width in seconds: the stored width, which is in
    /// milliseconds, divided by 1000. 0 until configured.
    pub fn resolution(&self) -> (seconds: u32)
        ensures
            seconds == self@.resolution(),
    {
        match &self.settings {
            Some(settings) => settings.resolution / 1000,
            None => 0,
        }
    }

    /// The retention period in milliseconds, once configured.
    pub fn period(&self) -> (period: Option<u64>)
        ensures
            period == self@.period(),
    {
        match &self.settings {
            Some(settings) => Some(settings.period),
            None => None,
        }
    }

    /// The registered assets, in index order.
    pub fn assets(&self) -> (assets: Vec<Asset>)
        ensures
            assets@ == self@.assets,
    {
        self.registry.list()
    }

    /// The largest timestamp that a price batch was written with; 0 before
    /// the first.
    pub fn last_timestamp(&self) -> (timestamp: u64)
        ensures
            timestamp == self@.last_timestamp,
    {
        self.last_timestamp
    }

    /// The administrator, once configured.
    pub fn admin(&self) -> (admin: Option<Address>)
        ensures
            admin == self@.admin(),
    {
        match &self.settings {
            Some(settings) => Some(settings.admin),
            None => None,
        }
    }

    /// The last ledger through which the oracle's own state is kept.
    pub fn live_until(&self) -> (ledger: u64)
        ensures
            ledger == self@.live_until,
    {
        self.live_until
    }

    /// The index of `asset`, if it is registered.
    pub fn index_of(&self, asset: &Asset) -> (index: Option<u8>)
        requires
            self.wf(),
        ensures
            index == self@.index_of(*asset),
    {
        self.registry.index_of(asset)
    }

    /// The observation readable now in the slot of `index` and `timestamp`,
    /// where `timestamp` is the bucket itself.
    pub fn get_price_data_by_index(&self, index: u8, timestamp: u64) -> (found: Option<PriceData>)
        ensures
            found == self@.price_by_index(index, timestamp),
    {
        self.store.get(index, timestamp)
    }

    /// The observation readable now for `asset` in exactly the bucket
    /// `timestamp`. An asset that is not registered has none.
    pub fn get_price_data(&self, asset: Asset, timestamp: u64) -> (found: Option<PriceData>)
        requires
            self.wf(),
        ensures
            found == self@.price_data(asset, timestamp),
    {
        match self.registry.index_of(&asset) {
            Some(index) => self.get_price_data_by_index(index, timestamp),
            None => None,
        }
    }

    /// The observation for `asset` in the bucket that `timestamp` falls in.
    pub fn price(&self, asset: Asset, timestamp: u64) -> (found: Option<PriceData>)
        requires
            self.wf(),
        ensures
            found == self@.price(asset, timestamp),
    {
        match &self.settings {
            Some(settings) => {
                let bucket = normalize(timestamp, settings.resolution as u64);
                self.get_price_data(asset, bucket)
            },
            None => None,
        }
    }

    /// The observation for `asset` at the watermark.
    pub fn lastprice(&self, asset: Asset) -> (found: Option<PriceData>)
        requires
            self.wf(),
        ensures
            found == self@.lastprice(asset),
    {
        self.get_price_data(asset, self.last_timestamp)
    }

    /// Sets the configuration and registers the initial assets. This can be
    /// done once; a failed attempt changes nothing.
    pub fn config(&mut self, config: ConfigData) -> (result: Result<(), Error>)
        requires
            old(self).wf(),
            config.resolution > 0,
        ensures
            final(self).wf(),
            final(self)@ == old(self)@.config(config).state,
            result == old(self)@.config(config).result,
    {
        if self.settings.is_some() {
            return Err(Error::AlreadyInitialized);
        }
        match self.registry.register(&config.assets) {
            Err(error) => Err(error),
            Ok(()) => {
                self.settings = Some(
                    Settings {
                        admin: config.admin,
                        base_asset: config.base_asset,
                        decimals: config.decimals,
                        resolution: config.resolution,
                        period: config.period,
                    },
                );
                Ok(())
            },
        }
    }

    /// Keeps the oracle's own state for at least `ledgers_to_live` ledgers
    /// from now.
    pub fn bump(&mut self, ledgers_to_live: u32)
        requires
            old(self).wf(),
        ensures
            final(self).wf(),
            final(self)@ == old(self)@.bump(ledgers_to_live),
    {
        let until: u64 = self.store.ledger() as u64 + ledgers_to_live as u64;
        if until > self.live_until {
            self.live_until = until;
        }
    }

    /// Registers `assets` behind those already registered, all or none.
    pub fn add_assets(&mut self, admin: Address, assets: Vec<Asset>) -> (result: Result<(), Error>)
        requires
            old(self).wf(),
        ensures
            final(self).wf(),
            final(self)@ == old(self)@.add_assets(admin, assets@).state,
            result == old(self)@.add_assets(admin, assets@).result,
    {
        if !self.is_admin(&admin) {
            return Err(Error::Unauthorized);
        }
        self.registry.register(&assets)
    }

    /// Overwrites the retention period.
    pub fn set_period(&mut self, admin: Address, period: u64) -> (result: Result<(), Error>)
        requires
            old(self).wf(),
        ensures
            final(self).wf(),
            final(self)@ == old(self)@.set_period(admin, period).state,
            result == old(self)@.set_period(admin, period).result,
    {
        if !self.is_admin(&admin) {
            return Err(Error::Unauthorized);
        }
        let settings = self.settings.unwrap();
        self.settings = Some(Settings { period, ..settings });
        Ok(())
    }

    /// Writes one batch of prices at `timestamp`: the price at position `i`
    /// is for the asset of index `i`. The timestamp is the bucket as it
    /// stands; a caller who wants the prices found again by `price` passes a
    /// multiple of the resolution.
    pub fn set_price(&mut self, admin: Address, updates: Vec<i128>, timestamp: u64) -> (result: Result<
        (),
        Error,
    >)
        requires
            old(self).wf(),
        ensures
            final(self).wf(),
            final(self)@ == old(self)@.set_price(admin, updates@, timestamp).state,
            result == old(self)@.set_price(admin, updates@, timestamp).result,
    {
        if !self.is_admin(&admin) {
            return Err(Error::Unauthorized);
        }
        let retention_period = self.settings.unwrap().period;
        let extension = ledgers_to_live(retention_period);
        let ghost before = self@;
        proof {
            lemma_write_batch_first(before.records, before.ledger, updates@, timestamp, extension);
        }
        let mut i: usize = 0;
        while i < updates.len()
            invariant
                i <= updates.len(),
                self@ == (OracleState {
                    records: write_batch(
                        before.records,
                        before.ledger,
                        updates@.take(i as int),
                        timestamp,
                        extension,
                    ),
                    ..before
                }),
            decreases updates.len() - i,
        {
            let index = (i % 256) as u8;
            self.store.set(index, updates[i], timestamp, extension);
            proof {
                lemma_write_batch_next(
                    before.records,
                    before.ledger,
                    updates@,
                    i as int,
                    timestamp,
                    extension,
                );
            }
            i += 1;
        }
        assert(updates@.take(updates@.len() as int) == updates@);
        if timestamp > self.last_timestamp {
            self.last_timestamp = timestamp;
        }
        Ok(())
    }

    /// Decides whether `admin` may replace the oracle's code, and with what:
    /// the administrator gets `wasm_hash` back, to be handed to the host.
    pub fn update_contract(&self, admin: Address, wasm_hash: [u8; 32]) -> (result: Result<
        [u8; 32],
        Error,
    >)
        ensures
            result == self@.update_contract(admin, wasm_hash),
    {
        if self.is_admin(&admin) {
            Ok(wasm_hash)
        } else {
            Err(Error::Unauthorized)
        }
    }
}

} // verus!
