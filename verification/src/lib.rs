//! A personal time-tracking ledger: time entries recorded against tasks, a
//! single active timer, and the reports computed from closed entries.
//!
//! The ledger keeps two stores, the time entries and the one-slot register
//! that names the running entry, and changes them only together. Every
//! operation states its effect over the ledger's view and preserves
//! `Ledger::wf`, which holds among other things that at most one entry is
//! open.

pub mod cli;
pub mod db;
pub mod error;
pub mod instant;
pub mod ledger;
pub mod models;
pub mod services;
pub mod text;
