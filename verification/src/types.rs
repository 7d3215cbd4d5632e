//! Plain data carried through the oracle: identities, assets, observations.

use vstd::prelude::*;
use vstd::std_specs::cmp::PartialEqSpecImpl;

verus! {

/// Whether two 32-byte strings hold the same bytes.
pub fn bytes32_eq(a: &[u8; 32], b: &[u8; 32]) -> (same: bool)
    ensures
        same == (*a == *b),
{
    let mut i: usize = 0;
    while i < 32
        invariant
            i <= 32,
            forall|j: int| 0 <= j < i ==> a[j] == b[j],
        decreases 32 - i,
    {
        if a[i] != b[i] {
            return false;
        }
        i += 1;
    }
    assert(*a =~= *b);
    true
}

/// A principal: an account key or a contract identifier, 32 bytes either way.
#[derive(Clone, Copy, Debug, Eq)]
pub enum Address {
    Account([u8; 32]),
    Contract([u8; 32]),
}

impl PartialEq for Address {
    fn eq(&self, other: &Self) -> (same: bool) {
        match (self, other) {
            (Address::Account(a), Address::Account(b)) => bytes32_eq(a, b),
            (Address::Contract(a), Address::Contract(b)) => bytes32_eq(a, b),
            _ => false,
        }
    }
}

impl PartialEqSpecImpl for Address {
    open spec fn obeys_eq_spec() -> bool {
        true
    }

    open spec fn eq_spec(&self, other: &Self) -> bool {
        *self == *other
    }
}

/// A short asset code, padded on the right with zero bytes.
#[derive(Clone, Copy, Debug, Eq)]
pub struct Symbol {
    pub code: [u8; 32],
}

impl PartialEq for Symbol {
    fn eq(&self, other: &Self) -> (same: bool) {
        bytes32_eq(&self.code, &other.code)
    }
}

impl PartialEqSpecImpl for Symbol {
    open spec fn obeys_eq_spec() -> bool {
        true
    }

    open spec fn eq_spec(&self, other: &Self) -> bool {
        *self == *other
    }
}

/// An asset identifier. Assets are only ever compared for equality.
#[derive(Clone, Copy, Debug, Eq)]
pub enum Asset {
    /// An asset issued on the host chain, named by its contract or issuer.
    Stellar(Address),
    /// Any other asset, named by its code.
    Other(Symbol),
}

impl PartialEq for Asset {
    fn eq(&self, other: &Self) -> (same: bool) {
        match (self, other) {
            (Asset::Stellar(a), Asset::Stellar(b)) => *a == *b,
            (Asset::Other(a), Asset::Other(b)) => *a == *b,
            _ => false,
        }
    }
}

impl PartialEqSpecImpl for Asset {
    open spec fn obeys_eq_spec() -> bool {
        true
    }

    open spec fn eq_spec(&self, other: &Self) -> bool {
        *self == *other
    }
}

/// Why an operation was refused.
#[derive(Clone, Copy, Debug, PartialEq, Eq, Structural)]
pub enum Error {
    /// The configuration has already been set.
    AlreadyInitialized,
    /// The caller is not the stored administrator.
    Unauthorized,
    /// An asset of the batch is already registered, or occurs twice in it.
    AssetAlreadyPresented,
    /// The registry cannot hold more assets than an 8-bit index can name.
    AssetLimitExceeded,
}

/// One price observation.
#[derive(Clone, Copy, Debug, PartialEq, Eq, Structural)]
pub struct PriceData {
    /// Fixed-point price.
    pub price: i128,
    /// The bucket, in milliseconds, that the price was recorded at.
    pub timestamp: u64,
}

/// Everything `config` needs to bring the oracle to life.
#[derive(Clone, Debug, PartialEq, Eq)]
pub struct ConfigData {
    pub admin: Address,
    /// Retention period in milliseconds.
    pub period: u64,
    /// The assets to register at once, in index order.
    pub assets: Vec<Asset>,
    pub base_asset: Asset,
    pub decimals: u32,
    /// Bucket width in milliseconds.
    pub resolution: u32,
}

} // verus!
