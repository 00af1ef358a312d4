//! Classification of lots by asset class, and summaries by asset class.
use vstd::prelude::*;
use crate::lot::{Lot, LotModel};
use crate::summary::{
    GroupKey,
    Portfolio,
    PortfolioSummary,
    PortfolioSummaryError,
    lots_view,
    summary_of,
    summary_result_view,
};
use crate::text::{trimmed, ascii_uppercase};

verus! {

/// The kinds of asset that a security holds.
#[derive(Clone, Copy, Debug, PartialEq, Eq, Hash, Structural)]
pub enum AssetClass {
    IntlBonds,
    UsBonds,
    IntlRealEstate,
    UsRealEstate,
    UsStocks,
    IntlStocks,
    Unknown,
}

impl View for AssetClass {
    type V = AssetClass;

    open spec fn view(&self) -> AssetClass {
        *self
    }
}

/// The asset class of a ticker symbol in upper case, from a fixed table; any symbol
/// outside the table is `Unknown`.
pub open spec fn asset_class_of(symbol: Seq<char>) -> AssetClass {
    if symbol == "VOO"@ || symbol == "VTI"@ {
        AssetClass::UsStocks
    } else if symbol == "VEA"@ || symbol == "VEU"@ {
        AssetClass::IntlStocks
    } else if symbol == "VNQ"@ {
        AssetClass::UsRealEstate
    } else if symbol == "VNQI"@ {
        AssetClass::IntlRealEstate
    } else if symbol == "BND"@ {
        AssetClass::UsBonds
    } else if symbol == "BNDX"@ {
        AssetClass::IntlBonds
    } else {
        AssetClass::Unknown
    }
}

/// The asset class of a ticker symbol, trimmed and in upper case first.
pub open spec fn symbol_asset_class(symbol: Seq<char>) -> AssetClass {
    asset_class_of(ascii_uppercase(trimmed(symbol)))
}

/// The asset class of a ticker symbol: trimmed and put in upper case, then looked up in
/// a fixed table; any symbol outside the table is `Unknown`.
pub fn asset_class_of_symbol(symbol: &str) -> (r: AssetClass)
    ensures
        r == symbol_asset_class(symbol@),
{
    let key = symbol.trim().to_ascii_uppercase();
    let key = key.as_str();
    if key.eq("VOO") || key.eq("VTI") {
        AssetClass::UsStocks
    } else if key.eq("VEA") || key.eq("VEU") {
        AssetClass::IntlStocks
    } else if key.eq("VNQ") {
        AssetClass::UsRealEstate
    } else if key.eq("VNQI") {
        AssetClass::IntlRealEstate
    } else if key.eq("BND") {
        AssetClass::UsBonds
    } else if key.eq("BNDX") {
        AssetClass::IntlBonds
    } else {
        AssetClass::Unknown
    }
}

/// The asset class of a lot's security.
pub fn get_asset_class(lot: &Lot) -> (r: AssetClass)
    ensures
        r == symbol_asset_class(lot@.symbol),
{
    asset_class_of_symbol(lot.symbol().as_str())
}

impl GroupKey for AssetClass {
    open spec fn key_of(lot: LotModel) -> AssetClass {
        symbol_asset_class(lot.symbol)
    }

    fn classify(lot: &Lot) -> (r: AssetClass) {
        get_asset_class(lot)
    }

    fn same_key(&self, other: &AssetClass) -> (r: bool) {
        *self == *other
    }
}

/// The summary of a portfolio grouped by asset class.
pub fn get_summary_by_asset_class(portfolio: &Portfolio) -> (r: Result<
    PortfolioSummary<AssetClass>,
    PortfolioSummaryError,
>)
    ensures
        summary_result_view(r) == summary_of::<AssetClass>(portfolio.id, lots_view(portfolio.lots@)),
{
    portfolio.get_summary_by::<AssetClass>()
}

} // verus!
