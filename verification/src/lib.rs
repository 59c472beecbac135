pub mod config;
pub mod contract;
pub mod errors;
pub mod fees;
pub mod laws;
pub mod ledger;
pub mod series;
pub mod storage_types;
