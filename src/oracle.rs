use vstd::prelude::*;

use crate::address::Address;
use crate::price_store::{history, in_window, last_n, pruned, Asset, PriceData, PriceStore};

verus! {

/// The feed that queries without a source read from.
pub const DEFAULT_SOURCE: u32 = 0;

/// Settings fixed when the oracle is initialised.
#[derive(Clone, Copy, Debug, PartialEq, Eq, Structural)]
pub struct OracleMetadata {
    pub admin: Address,
    pub base: Asset,
    pub decimals: u32,
    pub resolution: u32,
}

#[derive(Clone, Copy, Debug, PartialEq, Eq, Structural)]
pub enum OracleError {
    AlreadyInitialized,
    NotInitialized,
}

/// The state of one oracle instance: its settings, once initialised, and its
/// price histories.
///
/// Operations that change prices return the address whose authorisation the
/// host must check before the change is committed: the admin's.
pub struct Oracle {
    pub metadata: Option<OracleMetadata>,
    pub prices: PriceStore,
}

impl Oracle {
    pub open spec fn wf(&self) -> bool {
        self.prices.wf()
    }

    /// An oracle that has not been initialised.
    pub fn new() -> (r: Oracle)
        ensures
            r.wf(),
            r.metadata is None,
            r.prices@ == Map::<(u32, Asset), Seq<PriceData>>::empty(),
    {
        Oracle { metadata: None, prices: PriceStore::new() }
    }

    /// Fixes the settings and starts with no prices; refused once settings exist.
    pub fn initialize(&mut self, admin: Address, base: Asset, decimals: u32, resolution: u32) -> (r:
        Result<(), OracleError>)
        requires
            old(self).wf(),
        ensures
            final(self).wf(),
            old(self).metadata is Some ==> r == Err::<(), OracleError>(OracleError::AlreadyInitialized)
                && final(self).metadata == old(self).metadata && final(self).prices@ == old(self).prices@,
            old(self).metadata is None ==> r is Ok && final(self).metadata == Some(
                OracleMetadata { admin, base, decimals, resolution },
            ) && final(self).prices@ == Map::<(u32, Asset), Seq<PriceData>>::empty(),
    {
        if self.metadata.is_some() {
            return Err(OracleError::AlreadyInitialized);
        }
        self.metadata = Some(OracleMetadata { admin, base, decimals, resolution });
        self.prices = PriceStore::new();
        Ok(())
    }

    pub fn has_admin(&self) -> (r: bool)
        ensures
            r == self.metadata is Some,
    {
        self.metadata.is_some()
    }

    pub fn read_admin(&self) -> (r: Result<Address, OracleError>)
        ensures
            match self.metadata {
                Some(m) => r == Ok::<Address, OracleError>(m.admin),
                None => r == Err::<Address, OracleError>(OracleError::NotInitialized),
            },
    {
        match self.metadata {
            Some(m) => Ok(m.admin),
            None => Err(OracleError::NotInitialized),
        }
    }

    pub fn base(&self) -> (r: Result<Asset, OracleError>)
        ensures
            match self.metadata {
                Some(m) => r == Ok::<Asset, OracleError>(m.base),
                None => r == Err::<Asset, OracleError>(OracleError::NotInitialized),
            },
    {
        match self.metadata {
            Some(m) => Ok(m.base),
            None => Err(OracleError::NotInitialized),
        }
    }

    pub fn decimals(&self) -> (r: Result<u32, OracleError>)
        ensures
            match self.metadata {
                Some(m) => r == Ok::<u32, OracleError>(m.decimals),
                None => r == Err::<u32, OracleError>(OracleError::NotInitialized),
            },
    {
        match self.metadata {
            Some(m) => Ok(m.decimals),
            None => Err(OracleError::NotInitialized),
        }
    }

    pub fn resolution(&self) -> (r: Result<u32, OracleError>)
        ensures
            match self.metadata {
                Some(m) => r == Ok::<u32, OracleError>(m.resolution),
                None => r == Err::<u32, OracleError>(OracleError::NotInitialized),
            },
    {
        match self.metadata {
            Some(m) => Ok(m.resolution),
            None => Err(OracleError::NotInitialized),
        }
    }

    /// Records `price` for `asset` from `source`, stamped `timestamp`; the
    /// admin must authorise it.
    pub fn add_price(&mut self, source: u32, asset: Asset, price: i128, timestamp: u64) -> (r: Result<
        Address,
        OracleError,
    >)
        requires
            old(self).wf(),
        ensures
            final(self).wf(),
            final(self).metadata == old(self).metadata,
            match old(self).metadata {
                None => r == Err::<Address, OracleError>(OracleError::NotInitialized)
                    && final(self).prices@ == old(self).prices@,
                Some(m) => r == Ok::<Address, OracleError>(m.admin) && final(self).prices@ == old(
                    self,
                ).prices@.insert(
                    (source, asset),
                    crate::price_store::push_capped(
                        history(old(self).prices@, (source, asset)),
                        PriceData { price, timestamp },
                    ),
                ),
            },
    {
        match self.metadata {
            None => Err(OracleError::NotInitialized),
            Some(m) => {
                self.prices.insert(source, asset, price, timestamp);
                Ok(m.admin)
            },
        }
    }

    /// Removes the prices that the filter and bounds select (see
    /// `PriceStore::prune`); the admin must authorise it.
    pub fn remove_prices(
        &mut self,
        sources: &Vec<u32>,
        assets: &Vec<Asset>,
        start_timestamp: Option<u64>,
        end_timestamp: Option<u64>,
    ) -> (r: Result<Address, OracleError>)
        requires
            old(self).wf(),
        ensures
            final(self).wf(),
            final(self).metadata == old(self).metadata,
            match old(self).metadata {
                None => r == Err::<Address, OracleError>(OracleError::NotInitialized)
                    && final(self).prices@ == old(self).prices@,
                Some(m) => r == Ok::<Address, OracleError>(m.admin) && final(self).prices@ == pruned(
                    old(self).prices@,
                    sources@,
                    assets@,
                    start_timestamp,
                    end_timestamp,
                ),
            },
    {
        match self.metadata {
            None => Err(OracleError::NotInitialized),
            Some(m) => {
                self.prices.prune(sources, assets, start_timestamp, end_timestamp);
                Ok(m.admin)
            },
        }
    }

    /// The distinct assets that have prices, over all sources.
    pub fn assets(&self) -> (r: Vec<Asset>)
        requires
            self.wf(),
        ensures
            r@.no_duplicates(),
            forall|a: Asset| r@.contains(a) <==> exists|s: u32| #[trigger]
                self.prices@.contains_key((s, a)),
    {
        self.prices.assets()
    }

    /// The distinct sources that have prices.
    pub fn sources(&self) -> (r: Vec<u32>)
        requires
            self.wf(),
        ensures
            r@.no_duplicates(),
            forall|s: u32| r@.contains(s) <==> exists|a: Asset| #[trigger]
                self.prices@.contains_key((s, a)),
    {
        self.prices.sources()
    }

    pub fn prices(&self, asset: Asset, start_timestamp: u64, end_timestamp: u64) -> (r: Vec<PriceData>)
        requires
            self.wf(),
        ensures
            r@ == in_window(history(self.prices@, (DEFAULT_SOURCE, asset)), start_timestamp, end_timestamp),
    {
        self.prices_by_source(DEFAULT_SOURCE, asset, start_timestamp, end_timestamp)
    }

    pub fn lastprice(&self, asset: Asset) -> (r: Option<PriceData>)
        requires
            self.wf(),
        ensures
            r == latest(history(self.prices@, (DEFAULT_SOURCE, asset))),
    {
        self.lastprice_by_source(DEFAULT_SOURCE, asset)
    }

    pub fn lastprices(&self, asset: Asset, records: u32) -> (r: Vec<PriceData>)
        requires
            self.wf(),
        ensures
            r@ == last_n(history(self.prices@, (DEFAULT_SOURCE, asset)), records as nat),
    {
        self.lastprices_by_source(DEFAULT_SOURCE, asset, records)
    }

    /// The prices of `asset` from `source` stamped within `[start_timestamp,
    /// end_timestamp]`, oldest first.
    pub fn prices_by_source(&self, source: u32, asset: Asset, start_timestamp: u64, end_timestamp: u64) -> (r:
        Vec<PriceData>)
        requires
            self.wf(),
        ensures
            r@ == in_window(history(self.prices@, (source, asset)), start_timestamp, end_timestamp),
    {
        self.prices.range_query(source, asset, start_timestamp, end_timestamp)
    }

    /// The `records` most recent prices of `asset` from `source`, oldest first.
    pub fn lastprices_by_source(&self, source: u32, asset: Asset, records: u32) -> (r: Vec<PriceData>)
        requires
            self.wf(),
        ensures
            r@ == last_n(history(self.prices@, (source, asset)), records as nat),
    {
        self.prices.last_n(source, asset, records)
    }

    /// The most recent price of `asset` from `source`, if any.
    pub fn lastprice_by_source(&self, source: u32, asset: Asset) -> (r: Option<PriceData>)
        requires
            self.wf(),
        ensures
            r == latest(history(self.prices@, (source, asset))),
    {
        let last = self.lastprices_by_source(source, asset, 1);
        if last.len() > 0 {
            Some(last[0])
        } else {
            None
        }
    }
}

/// The most recent observation of `h`, if any.
pub open spec fn latest(h: Seq<PriceData>) -> Option<PriceData> {
    if h.len() == 0 {
        None
    } else {
        Some(h.last())
    }
}

} // verus!
