//! In-memory stores: portfolios, derived summaries keyed by portfolio id and view, and
//! resume checkpoints keyed by consumer identity. Every write is an unconditional
//! overwrite of the entry under its key.
use vstd::prelude::*;
use crate::allocation::AssetClass;
use crate::currency::CurrencyModel;
use crate::summary::{Id, Portfolio, PortfolioSummary};
use std::collections::HashMap;

verus! {

broadcast use vstd::std_specs::hash::group_hash_axioms;

/// What a view store holds: the groups of each portfolio's summary, by asset class and
/// by symbol.
pub struct ViewStoreModel {
    pub by_asset_class: Map<Id, Seq<(AssetClass, CurrencyModel)>>,
    pub by_symbol: Map<Id, Seq<(Seq<char>, CurrencyModel)>>,
}

/// Portfolios and their derived summaries, held in memory.
pub struct MemoryStore {
    portfolios: HashMap<Id, Portfolio>,
    by_asset_class: HashMap<Id, PortfolioSummary<AssetClass>>,
    by_symbol: HashMap<Id, PortfolioSummary<String>>,
}

impl MemoryStore {
    /// Summaries are stored under their own id.
    pub closed spec fn well_formed(&self) -> bool {
        &&& forall|k: Id| #[trigger] self.by_asset_class@.contains_key(k) ==> self.by_asset_class@[k].id == k
        &&& forall|k: Id| #[trigger] self.by_symbol@.contains_key(k) ==> self.by_symbol@[k].id == k
        &&& forall|k: Id| #[trigger] self.portfolios@.contains_key(k) ==> self.portfolios@[k].id == k
    }

    /// The stored portfolios, by id.
    pub closed spec fn portfolios(&self) -> Map<Id, Portfolio> {
        self.portfolios@
    }

    /// The stored summaries.
    pub closed spec fn views(&self) -> ViewStoreModel {
        ViewStoreModel {
            by_asset_class: self.by_asset_class@.map_values(
                |s: PortfolioSummary<AssetClass>| s@.1,
            ),
            by_symbol: self.by_symbol@.map_values(|s: PortfolioSummary<String>| s@.1),
        }
    }

    /// An empty store.
    pub fn new() -> (r: MemoryStore)
        ensures
            r.well_formed(),
            r.portfolios() == Map::<Id, Portfolio>::empty(),
            r.views() == (ViewStoreModel { by_asset_class: Map::empty(), by_symbol: Map::empty() }),
    {
        let r = MemoryStore {
            portfolios: HashMap::new(),
            by_asset_class: HashMap::new(),
            by_symbol: HashMap::new(),
        };
        assert(r.views().by_asset_class == Map::<Id, Seq<(AssetClass, CurrencyModel)>>::empty());
        assert(r.views().by_symbol == Map::<Id, Seq<(Seq<char>, CurrencyModel)>>::empty());
        r
    }

    /// Stores a portfolio under its id, replacing any portfolio there.
    pub fn put_portfolio(&mut self, portfolio: Portfolio)
        requires
            old(self).well_formed(),
        ensures
            final(self).well_formed(),
            final(self).portfolios() == old(self).portfolios().insert(portfolio.id, portfolio),
            final(self).views() == old(self).views(),
    {
        self.portfolios.insert(portfolio.id, portfolio);
    }

    /// The portfolio stored under an id, if any.
    pub fn get_portfolio(&self, id: Id) -> (r: Option<&Portfolio>)
        ensures
            r is Some <==> self.portfolios().contains_key(id),
            r matches Some(p) ==> *p == self.portfolios()[id],
    {
        self.portfolios.get(&id)
    }

    /// Stores a summary by asset class under its portfolio's id, replacing any there.
    pub fn put_summary_by_asset_class(&mut self, summary: PortfolioSummary<AssetClass>)
        requires
            old(self).well_formed(),
        ensures
            final(self).well_formed(),
            final(self).views() == (ViewStoreModel {
                by_asset_class: old(self).views().by_asset_class.insert(summary.id, summary@.1),
                ..old(self).views()
            }),
            final(self).portfolios() == old(self).portfolios(),
    {
        let ghost old_views = self.views();
        let id = summary.id;
        self.by_asset_class.insert(id, summary);
        assert(self.views().by_asset_class == old_views.by_asset_class.insert(id, summary@.1));
    }

    /// Stores a summary by symbol under its portfolio's id, replacing any there.
    pub fn put_summary_by_symbol(&mut self, summary: PortfolioSummary<String>)
        requires
            old(self).well_formed(),
        ensures
            final(self).well_formed(),
            final(self).views() == (ViewStoreModel {
                by_symbol: old(self).views().by_symbol.insert(summary.id, summary@.1),
                ..old(self).views()
            }),
            final(self).portfolios() == old(self).portfolios(),
    {
        let ghost old_views = self.views();
        let id = summary.id;
        self.by_symbol.insert(id, summary);
        assert(self.views().by_symbol == old_views.by_symbol.insert(id, summary@.1));
    }

    /// The summary by asset class stored for a portfolio, if any.
    pub fn get_summary_by_asset_class(&self, id: Id) -> (r: Option<&PortfolioSummary<AssetClass>>)
        requires
            self.well_formed(),
        ensures
            r is Some <==> self.views().by_asset_class.contains_key(id),
            r matches Some(s) ==> s@ == (id, self.views().by_asset_class[id]),
    {
        self.by_asset_class.get(&id)
    }

    /// The summary by symbol stored for a portfolio, if any.
    pub fn get_summary_by_symbol(&self, id: Id) -> (r: Option<&PortfolioSummary<String>>)
        requires
            self.well_formed(),
        ensures
            r is Some <==> self.views().by_symbol.contains_key(id),
            r matches Some(s) ==> s@ == (id, self.views().by_symbol[id]),
    {
        self.by_symbol.get(&id)
    }
}

} // verus!
