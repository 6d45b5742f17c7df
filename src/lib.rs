//! A multi-currency community ledger: balances derived from an append-only
//! transfer log, a proxy-bid auction market and quadratic-cost motion voting
//! on top of it.

pub mod damm;
pub mod models;
pub mod ledger;
pub mod locking;
pub mod replay;
pub mod votes;
pub mod power;
pub mod motion;
pub mod auction;
pub mod names;
pub mod give;
pub mod generators;
pub mod commands;
pub mod text;
pub mod schedule;
