//! A fixed-price oracle: stored prices per asset and the set of sybil
//! accounts allowed to refresh them.
//!
//! Access control over the setters belongs to the outer layer; the
//! engine only keeps the tables and answers lookups. A price is scaled
//! by `10^18`.

use crate::assoc::{assoc_lookup, assoc_set, spec_assoc_lookup};
use crate::types::{AccountId, Error};
use vstd::prelude::*;

verus! {

/// One whole unit of price precision: prices are scaled by `10^18`.
pub const PRICE_PRECISION: u128 = 1000000000000000000;

/// The oracle's persisted state.
pub struct Data {
    /// Fixed prices per asset, scaled by `10^18`.
    pub fixed_prices: Vec<(AccountId, u128)>,
    /// Which accounts may update prices.
    pub sybils: Vec<(AccountId, bool)>,
}

impl Data {
    /// An empty oracle: no prices, no sybils.
    pub fn new() -> (r: Data)
        ensures
            r.fixed_prices@.len() == 0,
            r.sybils@.len() == 0,
    {
        Data { fixed_prices: Vec::new(), sybils: Vec::new() }
    }

    /// The stored price of an asset, if one was set.
    pub fn get_price(&self, asset: AccountId) -> (r: Option<u128>)
        ensures
            r == spec_assoc_lookup(self.fixed_prices@, asset),
    {
        assoc_lookup(&self.fixed_prices, asset)
    }

    /// The stored price of a pool's underlying asset: the pool names its
    /// underlying, or has none.
    pub fn get_underlying_price(&self, underlying: Option<AccountId>) -> (r: Option<u128>)
        ensures
            underlying is Some ==> r == spec_assoc_lookup(self.fixed_prices@, underlying->0),
            underlying is None ==> r is None,
    {
        match underlying {
            Some(asset) => self.get_price(asset),
            None => None,
        }
    }

    /// Stores a fixed price for an asset.
    pub fn set_fixed_price(&mut self, asset: AccountId, value: u128) -> (r: Result<(), Error>)
        ensures
            r is Ok,
            forall|a: AccountId| #![auto]
                spec_assoc_lookup(final (self).fixed_prices@, a) == (if a == asset {
                    Some(value)
                } else {
                    spec_assoc_lookup(old(self).fixed_prices@, a)
                }),
            final (self).sybils == old(self).sybils,
    {
        assoc_set(&mut self.fixed_prices, asset, value);
        Ok(())
    }

    /// Marks an account as an authorized sybil.
    pub fn authorize_sybil(&mut self, sybil: AccountId) -> (r: Result<(), Error>)
        ensures
            r is Ok,
            forall|a: AccountId| #![auto]
                spec_assoc_lookup(final (self).sybils@, a) == (if a == sybil {
                    Some(true)
                } else {
                    spec_assoc_lookup(old(self).sybils@, a)
                }),
            final (self).fixed_prices == old(self).fixed_prices,
    {
        assoc_set(&mut self.sybils, sybil, true);
        Ok(())
    }

    /// Withdraws an account's sybil authorization.
    pub fn unauthorize_sybil(&mut self, sybil: AccountId) -> (r: Result<(), Error>)
        ensures
            r is Ok,
            forall|a: AccountId| #![auto]
                spec_assoc_lookup(final (self).sybils@, a) == (if a == sybil {
                    Some(false)
                } else {
                    spec_assoc_lookup(old(self).sybils@, a)
                }),
            final (self).fixed_prices == old(self).fixed_prices,
    {
        assoc_set(&mut self.sybils, sybil, false);
        Ok(())
    }
}

} // verus!
