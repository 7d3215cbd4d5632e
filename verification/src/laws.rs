//! What holds of the oracle whatever is done to it, proved over the
//! mathematical state.

use vstd::prelude::*;
use crate::bucket::bucket_of;
use crate::registry::{index_in, registration, repeats, MAX_ASSETS};
use crate::state::{last_position, OracleState};
use crate::store::lifetime_extension;
use crate::types::{Address, Asset, ConfigData, Error, PriceData};

verus! {

/// One thing that can be done to the oracle.
pub enum Operation {
    Config(ConfigData),
    AddAssets(Address, Seq<Asset>),
    SetPeriod(Address, u64),
    SetPrice(Address, Seq<i128>, u64),
    Bump(u32),
    SetLedger(u32),
}

impl Operation {
    /// A configuration must name a grid of some width; anything else may
    /// always be asked for.
    pub open spec fn admissible(self) -> bool {
        self matches Operation::Config(config) ==> config.resolution > 0
    }

    /// The state that the operation leaves, accepted or refused.
    pub open spec fn apply(self, state: OracleState) -> OracleState {
        match self {
            Operation::Config(config) => state.config(config).state,
            Operation::AddAssets(caller, batch) => state.add_assets(caller, batch).state,
            Operation::SetPeriod(caller, period) => state.set_period(caller, period).state,
            Operation::SetPrice(caller, updates, timestamp) => state.set_price(
                caller,
                updates,
                timestamp,
            ).state,
            Operation::Bump(ledgers_to_live) => state.bump(ledgers_to_live),
            Operation::SetLedger(ledger) => state.at_ledger(ledger),
        }
    }
}

/// The state after `operations`, in order, from `state`.
pub open spec fn run(state: OracleState, operations: Seq<Operation>) -> OracleState
    decreases operations.len(),
{
    if operations.len() == 0 {
        state
    } else {
        operations.last().apply(run(state, operations.drop_last()))
    }
}

/// Whether every operation of the sequence is admissible.
pub open spec fn all_admissible(operations: Seq<Operation>) -> bool {
    forall|k: int| 0 <= k < operations.len() ==> (#[trigger] operations[k]).admissible()
}

/// A registration that is accepted appends the batch, and leaves a list
/// without repetition that an 8-bit index can still name; one that is
/// refused says that an asset repeats, or that the list would grow too long.
pub proof fn lemma_registration(assets: Seq<Asset>, batch: Seq<Asset>)
    requires
        assets.no_duplicates(),
    ensures
        match registration(assets, batch) {
            Ok(extended) => {
                &&& extended == assets + batch
                &&& extended.no_duplicates()
                &&& extended.len() <= MAX_ASSETS
            },
            Err(error) => error == Error::AssetAlreadyPresented || error
                == Error::AssetLimitExceeded,
        },
{
    if registration(assets, batch) is Ok {
        let extended = assets + batch;
        assert forall|i: int, j: int| 0 <= i < j < extended.len() implies extended[i]
            != extended[j] by {
            if j >= assets.len() {
                let k = j - assets.len();
                let earlier = assets + batch.take(k);
                assert(!earlier.contains(batch[k]));
                assert(earlier[i] == extended[i]);
            }
        }
    }
}

/// Registering behind an asset does not move it.
pub proof fn lemma_index_kept(assets: Seq<Asset>, batch: Seq<Asset>, asset: Asset)
    requires
        (assets + batch).no_duplicates(),
        assets.contains(asset),
    ensures
        index_in(assets + batch, asset) == index_in(assets, asset),
{
    let i = assets.index_of(asset);
    assert((assets + batch)[i] == asset);
}

/// Every operation keeps the state well formed.
pub proof fn law_step_keeps_invariant(state: OracleState, operation: Operation)
    requires
        state.wf(),
        operation.admissible(),
    ensures
        operation.apply(state).wf(),
{
    match operation {
        Operation::Config(config) => {
            lemma_registration(state.assets, config.assets@);
        },
        Operation::AddAssets(caller, batch) => {
            lemma_registration(state.assets, batch);
        },
        _ => {},
    }
}

/// Whatever is done, the state stays well formed.
pub proof fn law_invariant(state: OracleState, operations: Seq<Operation>)
    requires
        state.wf(),
        all_admissible(operations),
    ensures
        run(state, operations).wf(),
    decreases operations.len(),
{
    if operations.len() > 0 {
        law_invariant(state, operations.drop_last());
        law_step_keeps_invariant(run(state, operations.drop_last()), operations.last());
    }
}

/// An asset that is already registered cannot be registered again: the
/// whole batch is refused and nothing changes.
pub proof fn law_registered_asset_is_refused(
    state: OracleState,
    caller: Address,
    batch: Seq<Asset>,
    j: int,
)
    requires
        state.is_admin(caller),
        0 <= j < batch.len(),
        state.assets.contains(batch[j]),
    ensures
        state.add_assets(caller, batch) == state.refused(Error::AssetAlreadyPresented),
{
    let k = state.assets.index_of(batch[j]);
    assert((state.assets + batch.take(j))[k] == batch[j]);
    assert((state.assets + batch.take(j)).contains(batch[j]));
}

/// An asset cannot be registered twice in one batch: the whole batch is
/// refused and nothing changes, by `add_assets` and by `config` alike.
pub proof fn law_repeated_asset_is_refused(
    state: OracleState,
    caller: Address,
    config: ConfigData,
    batch: Seq<Asset>,
    i: int,
    j: int,
)
    requires
        0 <= i < j < batch.len(),
        batch[i] == batch[j],
    ensures
        repeats(state.assets, batch),
        state.is_admin(caller) ==> state.add_assets(caller, batch) == state.refused(
            Error::AssetAlreadyPresented,
        ),
        state.settings is None && config.assets@ == batch ==> state.config(config)
            == state.refused(Error::AssetAlreadyPresented),
{
    let earlier = state.assets + batch.take(j);
    assert(earlier[state.assets.len() + i] == batch[j]);
    assert(earlier.contains(batch[j]));
}

/// What one call has registered, a later call cannot register again.
pub proof fn law_second_registration_is_refused(
    state: OracleState,
    caller: Address,
    first: Seq<Asset>,
    second: Seq<Asset>,
    i: int,
    j: int,
)
    requires
        state.is_admin(caller),
        state.add_assets(caller, first).result is Ok,
        0 <= i < first.len(),
        0 <= j < second.len(),
        first[i] == second[j],
    ensures
        ({
            let registered = state.add_assets(caller, first).state;
            registered.add_assets(caller, second) == registered.refused(
                Error::AssetAlreadyPresented,
            )
        }),
{
    let registered = state.add_assets(caller, first).state;
    assert(registered.assets[state.assets.len() + i] == second[j]);
    law_registered_asset_is_refused(registered, caller, second, j);
}

/// One operation leaves every assigned index as it is.
pub proof fn law_step_keeps_index(
    state: OracleState,
    operation: Operation,
    asset: Asset,
    index: u8,
)
    requires
        state.wf(),
        state.index_of(asset) == Some(index),
    ensures
        operation.apply(state).index_of(asset) == Some(index),
{
    match operation {
        Operation::Config(config) => {},
        Operation::AddAssets(caller, batch) => {
            lemma_registration(state.assets, batch);
            if state.add_assets(caller, batch).result is Ok {
                lemma_index_kept(state.assets, batch, asset);
            }
        },
        _ => {},
    }
}

/// Index stability: once an asset has an index, it has that index after
/// any sequence of operations.
pub proof fn law_index_stable(
    state: OracleState,
    operations: Seq<Operation>,
    asset: Asset,
    index: u8,
)
    requires
        state.wf(),
        all_admissible(operations),
        state.index_of(asset) == Some(index),
    ensures
        run(state, operations).index_of(asset) == Some(index),
    decreases operations.len(),
{
    if operations.len() > 0 {
        let before = run(state, operations.drop_last());
        law_index_stable(state, operations.drop_last(), asset, index);
        law_invariant(state, operations.drop_last());
        law_step_keeps_index(before, operations.last(), asset, index);
    }
}

/// The configuration is set once: on a configured oracle `config` is
/// refused and changes nothing, so a second attempt after a first that
/// succeeded leaves what the first one set.
pub proof fn law_config_once(state: OracleState, first: ConfigData, second: ConfigData)
    ensures
        state.settings is Some ==> state.config(second) == state.refused(
            Error::AlreadyInitialized,
        ),
        state.config(first).result is Ok ==> state.config(first).state.config(second)
            == state.config(first).state.refused(Error::AlreadyInitialized),
{
}

/// Once set, the administrator, the base asset, the decimals and the
/// resolution stay as they are, whatever is done; only the retention period
/// can change.
pub proof fn law_settings_fixed(state: OracleState, operations: Seq<Operation>)
    requires
        state.settings is Some,
    ensures
        run(state, operations).settings is Some,
        run(state, operations).admin() == state.admin(),
        run(state, operations).base() == state.base(),
        run(state, operations).decimals() == state.decimals(),
        run(state, operations).resolution() == state.resolution(),
        run(state, operations).settings.unwrap().resolution == state.settings.unwrap().resolution,
    decreases operations.len(),
{
    if operations.len() > 0 {
        law_settings_fixed(state, operations.drop_last());
    }
}

/// Round trip: after the administrator has written a batch at `timestamp`,
/// a read of a registered asset at any time `at` in the bucket `timestamp`
/// gives the price that the batch holds for the asset's index, at
/// `timestamp`, for as long as the entry is kept: through `ledger`, no more
/// than the retention in ledgers after the write. In a batch of up to 256
/// prices that is the price at the position of the index.
pub proof fn law_round_trip(
    state: OracleState,
    caller: Address,
    updates: Seq<i128>,
    timestamp: u64,
    asset: Asset,
    index: u8,
    at: u64,
    ledger: u32,
)
    requires
        state.wf(),
        state.is_admin(caller),
        state.index_of(asset) == Some(index),
        index < updates.len(),
        bucket_of(at as nat, state.settings.unwrap().resolution as nat) == timestamp,
        ledger <= state.ledger + lifetime_extension(state.settings.unwrap().period),
    ensures
        ({
            let written = state.set_price(caller, updates, timestamp).state.at_ledger(ledger);
            let position = last_position(updates.len(), index);
            &&& index <= position < updates.len()
            &&& updates.len() <= 256 ==> position == index
            &&& written.price(asset, at) == Some(
                PriceData { price: updates[position], timestamp },
            )
            &&& written.price_data(asset, timestamp) == written.price(asset, at)
        }),
{
}

/// A read straight after a write at the watermark: `lastprice` gives what
/// the batch holds for the asset, if the batch is at least as new as all
/// before it.
pub proof fn law_last_price(
    state: OracleState,
    caller: Address,
    updates: Seq<i128>,
    timestamp: u64,
    asset: Asset,
    index: u8,
)
    requires
        state.wf(),
        state.is_admin(caller),
        state.index_of(asset) == Some(index),
        index < updates.len(),
        timestamp >= state.last_timestamp,
    ensures
        state.set_price(caller, updates, timestamp).state.lastprice(asset) == Some(
            PriceData { price: updates[last_position(updates.len(), index)], timestamp },
        ),
{
}

/// An entry lapses: a slot that was empty before the write reads as empty
/// again once the clock is past the retention in ledgers.
pub proof fn law_lapse(
    state: OracleState,
    caller: Address,
    updates: Seq<i128>,
    timestamp: u64,
    index: u8,
    ledger: u32,
)
    requires
        state.is_admin(caller),
        !state.records.contains_key((index, timestamp)),
        ledger > state.ledger + lifetime_extension(state.settings.unwrap().period),
    ensures
        state.set_price(caller, updates, timestamp).state.at_ledger(ledger).price_by_index(
            index,
            timestamp,
        ) is None,
{
}

/// An asset that is not registered has no price, at any time.
pub proof fn law_unknown_asset_has_no_price(state: OracleState, asset: Asset, timestamp: u64)
    requires
        state.index_of(asset) is None,
    ensures
        state.price(asset, timestamp) is None,
        state.lastprice(asset) is None,
{
}

/// The greatest of `floor` and the timestamps of `batches`.
pub open spec fn newest(floor: u64, batches: Seq<(Seq<i128>, u64)>) -> u64
    decreases batches.len(),
{
    if batches.len() == 0 {
        floor
    } else {
        let before = newest(floor, batches.drop_last());
        if batches.last().1 > before {
            batches.last().1
        } else {
            before
        }
    }
}

/// The state after `caller` has written `batches`, in order.
pub open spec fn after_batches(
    state: OracleState,
    caller: Address,
    batches: Seq<(Seq<i128>, u64)>,
) -> OracleState
    decreases batches.len(),
{
    if batches.len() == 0 {
        state
    } else {
        after_batches(state, caller, batches.drop_last()).set_price(
            caller,
            batches.last().0,
            batches.last().1,
        ).state
    }
}

/// `newest` is the maximum: no timestamp is above it, and it is the floor or
/// one of the timestamps.
pub proof fn lemma_newest_is_maximum(floor: u64, batches: Seq<(Seq<i128>, u64)>)
    ensures
        newest(floor, batches) >= floor,
        forall|k: int| 0 <= k < batches.len() ==> newest(floor, batches) >= (#[trigger] batches[k]).1,
        newest(floor, batches) == floor || exists|k: int|
            0 <= k < batches.len() && newest(floor, batches) == (#[trigger] batches[k]).1,
    decreases batches.len(),
{
    if batches.len() > 0 {
        let shorter = batches.drop_last();
        lemma_newest_is_maximum(floor, shorter);
        assert forall|k: int| 0 <= k < batches.len() implies newest(floor, batches) >= (
        #[trigger] batches[k]).1 by {
            if k < shorter.len() {
                assert(shorter[k] == batches[k]);
            }
        }
        if newest(floor, batches) != floor {
            if newest(floor, batches) == batches.last().1 {
                assert(batches[batches.len() - 1] == batches.last());
            } else {
                let k = choose|k: int|
                    0 <= k < shorter.len() && newest(floor, shorter) == (#[trigger] shorter[k]).1;
                assert(shorter[k] == batches[k]);
            }
        }
    }
}

/// Watermark: after any sequence of writes by the administrator, the
/// watermark is the greatest of what it was and the timestamps written.
pub proof fn law_watermark_is_newest(
    state: OracleState,
    caller: Address,
    batches: Seq<(Seq<i128>, u64)>,
)
    requires
        state.is_admin(caller),
    ensures
        after_batches(state, caller, batches).is_admin(caller),
        after_batches(state, caller, batches).last_timestamp == newest(
            state.last_timestamp,
            batches,
        ),
    decreases batches.len(),
{
    if batches.len() > 0 {
        law_watermark_is_newest(state, caller, batches.drop_last());
    }
}

/// The watermark never goes down, whatever is done.
pub proof fn law_watermark_monotonic(state: OracleState, operations: Seq<Operation>)
    ensures
        run(state, operations).last_timestamp >= state.last_timestamp,
    decreases operations.len(),
{
    if operations.len() > 0 {
        law_watermark_monotonic(state, operations.drop_last());
    }
}

/// A caller who is not the administrator is refused by every guarded
/// operation, and nothing changes.
pub proof fn law_unauthorized_changes_nothing(
    state: OracleState,
    caller: Address,
    batch: Seq<Asset>,
    period: u64,
    updates: Seq<i128>,
    timestamp: u64,
    wasm_hash: [u8; 32],
)
    requires
        !state.is_admin(caller),
    ensures
        state.add_assets(caller, batch) == state.refused(Error::Unauthorized),
        state.set_period(caller, period) == state.refused(Error::Unauthorized),
        state.set_price(caller, updates, timestamp) == state.refused(Error::Unauthorized),
        state.update_contract(caller, wasm_hash) == Err::<[u8; 32], Error>(Error::Unauthorized),
{
}

/// An operation changes only what it is for: a new period leaves assets,
/// prices and watermark alone; a batch of prices leaves assets and settings
/// alone; a bump leaves all of them alone, and never shortens the oracle's
/// own lifetime.
pub proof fn law_frames(
    state: OracleState,
    caller: Address,
    period: u64,
    updates: Seq<i128>,
    timestamp: u64,
    ledgers_to_live: u32,
)
    ensures
        ({
            let after = state.set_period(caller, period).state;
            &&& after.assets == state.assets
            &&& after.records == state.records
            &&& after.last_timestamp == state.last_timestamp
        }),
        ({
            let after = state.set_price(caller, updates, timestamp).state;
            &&& after.assets == state.assets
            &&& after.settings == state.settings
        }),
        ({
            let after = state.bump(ledgers_to_live);
            &&& after.assets == state.assets
            &&& after.settings == state.settings
            &&& after.records == state.records
            &&& after.last_timestamp == state.last_timestamp
            &&& after.live_until >= state.live_until
            &&& after.live_until >= state.ledger + ledgers_to_live
        }),
{
}

} // verus!
