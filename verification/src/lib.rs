//! A cost-basis ledger for portfolios of currencies and crypto assets.
//!
//! Trades are read from the records of a trade log and checked, turned into
//! exchanges of one currency for another, and applied to a ledger that keeps,
//! for each currency, a balance and the average cost it was acquired at.
//! Quotes are cached for a while, and a report values the ledger at them.

pub mod amount;
pub mod currency;
pub mod digits;
pub mod fault;
pub mod portfolio;
pub mod position;
pub mod quote;
pub mod quote_currency;
pub mod report;
pub mod side;
pub mod text;
pub mod trade;
pub mod trading_pair;
pub mod ts_seconds;
pub mod tx;
