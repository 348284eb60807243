//! Detection of short arbitrage cycles in a graph of currency conversion rates.
//!
//! A [`Graph`] holds, for every asset, the ordered list of conversions out of
//! it; each conversion carries a fee-adjusted rate and the quantity available
//! at that rate. [`apply_book_update`] folds one top-of-book quote into the
//! graph, and [`find_arbitrage`] looks for the first closed walk of at most
//! [`MAX_HOPS`] conversions from a start asset whose rates multiply to more
//! than one.
//!
//! Rates and quantities are [`Dec`] values: 96-bit decimal fixed-point numbers
//! whose arithmetic is carried out by the `rust_decimal` crate.

pub mod decimal;
pub mod fees;
pub mod graph;
pub mod ingest;
pub mod search;

pub use decimal::{Dec, DecView};
pub use fees::FeeModel;
pub use graph::{Edge, EdgeView, Graph, GraphView};
pub use ingest::{
    apply_book_update, declare_pair, first_unbacked_pair, Pair, Quote, SideOutcome, TopOfBook,
    UpdateOutcome,
};
pub use search::{find_arbitrage, ArbitrageResult, ArbitrageView, SearchError, MAX_HOPS};
