//! Where the durable stores keep their documents: the database and one collection per
//! kind of document, each keyed by a unique `id` field.
use vstd::prelude::*;

verus! {

/// The database of the service and the pipeline.
pub const DB_NAME: &'static str = "portools";

/// The field that keys every document.
pub const ID_FIELD: &'static str = "id";

/// The collection of portfolios.
pub struct PortfolioConfig;

impl PortfolioConfig {
    /// The collection's name.
    pub fn collection_name() -> (r: &'static str)
        ensures
            r@ == "portfolio"@,
    {
        "portfolio"
    }
}

/// The collection of summaries by asset class.
pub struct PortfolioSummaryByAssetClassConfig;

impl PortfolioSummaryByAssetClassConfig {
    /// The collection's name.
    pub fn collection_name() -> (r: &'static str)
        ensures
            r@ == "portfolio_by_asset_class"@,
    {
        "portfolio_by_asset_class"
    }
}

/// The collection of summaries by symbol.
pub struct PortfolioSummaryBySymbolConfig;

impl PortfolioSummaryBySymbolConfig {
    /// The collection's name.
    pub fn collection_name() -> (r: &'static str)
        ensures
            r@ == "portfolio_by_symbol"@,
    {
        "portfolio_by_symbol"
    }
}

/// The collection of resume checkpoints.
pub struct ResumeTokenRecordCollConf;

impl ResumeTokenRecordCollConf {
    /// The collection's name.
    pub fn collection_name() -> (r: &'static str)
        ensures
            r@ == "resume_token"@,
    {
        "resume_token"
    }
}

} // verus!
