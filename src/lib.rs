//! Portfolio tracking: validated lots and portfolios, summaries of cost by asset
//! class and by ticker symbol, and the change-feed pipeline that keeps those
//! summaries and its own resume checkpoint up to date.
use vstd::prelude::*;

pub mod decimal;
pub mod text;
pub mod validate;
pub mod currency;
pub mod date;
pub mod lot;
pub mod summary;
pub mod allocation;
pub mod store;
pub mod checkpoint;
pub mod pipeline;
pub mod assertion;
pub mod ingest;
pub mod digest;
pub mod service;
pub mod collections;

verus! {

} // verus!
