pub mod account;
pub mod decimal;
pub mod ledger;
pub mod raw_csv;
pub mod transaction;
