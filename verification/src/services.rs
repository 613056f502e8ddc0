//! The operations on the ledger: the timer, the reports, the export query
//! and the time utilities they share.

pub mod export;
pub mod report;
pub mod task;
pub mod timer;
pub mod timeutil;
