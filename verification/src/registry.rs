//! The asset registry: an append-only list that gives every asset a stable
//! index, its position at the time it was added.

use vstd::prelude::*;
use crate::types::{Asset, Error};

verus! {

/// The most assets a registry can hold: as many as an 8-bit index can name.
pub const MAX_ASSETS: usize = 256;

/// The index of `asset` among `assets`, if it is registered.
pub open spec fn index_in(assets: Seq<Asset>, asset: Asset) -> Option<u8> {
    if assets.contains(asset) {
        Some(assets.index_of(asset) as u8)
    } else {
        None
    }
}

/// Whether some asset of `batch` is already among `assets` or occurs earlier
/// in `batch` itself.
pub open spec fn repeats(assets: Seq<Asset>, batch: Seq<Asset>) -> bool {
    exists|j: int| 0 <= j < batch.len() && #[trigger] (assets + batch.take(j)).contains(batch[j])
}

/// What registering `batch` on top of `assets` gives: the extended list, or
/// the reason why nothing is registered.
pub open spec fn registration(assets: Seq<Asset>, batch: Seq<Asset>) -> Result<Seq<Asset>, Error> {
    if repeats(assets, batch) {
        Err(Error::AssetAlreadyPresented)
    } else if assets.len() + batch.len() > MAX_ASSETS {
        Err(Error::AssetLimitExceeded)
    } else {
        Ok(assets + batch)
    }
}

/// A batch registered into an empty registry repeats an asset exactly when
/// it holds one twice.
pub proof fn lemma_repeats_from_empty(batch: Seq<Asset>)
    ensures
        repeats(Seq::empty(), batch) <==> !batch.no_duplicates(),
{
    if repeats(Seq::empty(), batch) {
        let j = choose|j: int|
            0 <= j < batch.len() && #[trigger] (Seq::<Asset>::empty() + batch.take(j)).contains(
                batch[j],
            );
        let earlier = Seq::<Asset>::empty() + batch.take(j);
        let i = earlier.index_of(batch[j]);
        assert(batch[i] == batch[j]);
    }
    if !batch.no_duplicates() {
        let (i, j) = choose|i: int, j: int|
            0 <= i < batch.len() && 0 <= j < batch.len() && i != j && batch[i] == batch[j];
        let (low, high) = if i < j {
            (i, j)
        } else {
            (j, i)
        };
        let earlier = Seq::<Asset>::empty() + batch.take(high);
        assert(earlier[low] == batch[high]);
        assert(earlier.contains(batch[high]));
    }
}

/// Whether `asset` occurs in `assets`.
pub fn has_asset(assets: &Vec<Asset>, asset: &Asset) -> (found: bool)
    ensures
        found == assets@.contains(*asset),
{
    let mut i: usize = 0;
    while i < assets.len()
        invariant
            i <= assets.len(),
            forall|j: int| 0 <= j < i ==> assets@[j] != *asset,
        decreases assets.len() - i,
    {
        if assets[i] == *asset {
            return true;
        }
        i += 1;
    }
    false
}

/// The registered assets, in registration order.
pub struct AssetRegistry {
    assets: Vec<Asset>,
}

impl View for AssetRegistry {
    type V = Seq<Asset>;

    closed spec fn view(&self) -> Seq<Asset> {
        self.assets@
    }
}

impl AssetRegistry {
    /// No asset is registered twice, and every index fits in eight bits.
    pub open spec fn wf(&self) -> bool {
        &&& self@.no_duplicates()
        &&& self@.len() <= MAX_ASSETS
    }

    /// An empty registry.
    pub fn new() -> (registry: Self)
        ensures
            registry@ == Seq::<Asset>::empty(),
            registry.wf(),
    {
        AssetRegistry { assets: Vec::new() }
    }

    /// Number of registered assets.
    pub fn len(&self) -> (n: usize)
        ensures
            n == self@.len(),
    {
        self.assets.len()
    }

    /// The index that `asset` was given when it was registered.
    pub fn index_of(&self, asset: &Asset) -> (index: Option<u8>)
        requires
            self.wf(),
        ensures
            index == index_in(self@, *asset),
    {
        let mut i: usize = 0;
        while i < self.assets.len()
            invariant
                i <= self.assets.len(),
                self.wf(),
                forall|j: int| 0 <= j < i ==> self.assets@[j] != *asset,
            decreases self.assets.len() - i,
        {
            if self.assets[i] == *asset {
                assert(self@.contains(*asset));
                assert(self@.index_of(*asset) == i);
                return Some(i as u8);
            }
            i += 1;
        }
        None
    }

    /// All registered assets, in index order.
    pub fn list(&self) -> (assets: Vec<Asset>)
        ensures
            assets@ == self@,
    {
        let mut out: Vec<Asset> = Vec::new();
        let mut i: usize = 0;
        while i < self.assets.len()
            invariant
                i <= self.assets.len(),
                out@ == self.assets@.take(i as int),
            decreases self.assets.len() - i,
        {
            out.push(self.assets[i]);
            i += 1;
        }
        out
    }

    /// Registers every asset of `batch`, in order, or none of them.
    pub fn register(&mut self, batch: &Vec<Asset>) -> (result: Result<(), Error>)
        requires
            old(self).wf(),
        ensures
            final(self).wf(),
            match registration(old(self)@, batch@) {
                Ok(assets) => result == Ok::<(), Error>(()) && final(self)@ == assets,
                Err(e) => result == Err::<(), Error>(e) && final(self)@ == old(self)@,
            },
    {
        let start = self.assets.len();
        let mut j: usize = 0;
        while j < batch.len()
            invariant
                j <= batch.len(),
                old(self).wf(),
                start == old(self)@.len(),
                self.assets@ == old(self)@ + batch@.take(j as int),
                self.assets@.no_duplicates(),
                forall|k: int| 0 <= k < j ==> !(#[trigger] (old(self)@ + batch@.take(k)).contains(batch@[k])),
            decreases batch.len() - j,
        {
            if has_asset(&self.assets, &batch[j]) {
                self.assets.truncate(start);
                assert(self.assets@ == old(self)@);
                return Err(Error::AssetAlreadyPresented);
            }
            self.assets.push(batch[j]);
            assert(batch@.take(j + 1) == batch@.take(j as int).push(batch@[j as int]));
            j += 1;
        }
        assert(batch@.take(batch@.len() as int) == batch@);
        if self.assets.len() > MAX_ASSETS {
            self.assets.truncate(start);
            assert(self.assets@ == old(self)@);
            return Err(Error::AssetLimitExceeded);
        }
        Ok(())
    }
}

} // verus!
