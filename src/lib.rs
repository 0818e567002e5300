//! A bookkeeping engine for a coin ledger: an unspent-output set, a log of
//! transactions, double-entry accounting lines derived from them, and
//! period reports priced against a table of historical exchange rates.
pub mod amount;
pub mod records;
pub mod unspent;
pub mod ledger;
pub mod laws;
