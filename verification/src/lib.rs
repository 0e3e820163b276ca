//! Verified core of an automated market-monitoring and trade-decision loop.
//!
//! The library holds the logic of the bot: bounded price-history
//! maintenance, momentum signal generation, pre-trade risk validation,
//! position bookkeeping, pending-order tracking, and the per-cycle
//! decision step that ties them together.  All money-like quantities are
//! fixed-point integers scaled by [`types::SCALE`]; the unverified shell
//! around the library converts at the process boundary.

pub mod bot;
pub mod decimal;
pub mod executor;
pub mod history;
pub mod risk;
pub mod strategy;
pub mod types;
pub mod venue;
pub mod util;
