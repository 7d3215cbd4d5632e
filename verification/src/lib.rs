//! A single-writer, many-reader price oracle store.
//!
//! The store records periodic price observations for a fixed set of
//! registered assets and answers point-in-time and latest-value queries.
//! All state lives in an explicit [`PriceOracleContract`] value; the
//! surrounding host supplies persistence and caller verification.

pub mod bucket;
pub mod laws;
pub mod oracle;
pub mod registry;
pub mod state;
pub mod store;
pub mod types;
pub mod version;

pub use bucket::normalize;
pub use oracle::{PriceOracleContract, Snapshot};
pub use registry::{has_asset, AssetRegistry};
pub use state::Settings;
pub use store::{ledgers_to_live, price_key, PriceRecord, PriceStore};
pub use types::{Address, Asset, ConfigData, Error, PriceData, Symbol};
pub use version::major_of;
