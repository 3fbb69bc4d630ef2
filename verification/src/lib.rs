//! Settlement core of a sponsor-funded prediction-market platform.
//!
//! Sponsors fund pooled liquidity, markets are opened against artist-related
//! outcomes, users post stake into positions backed by that pool, and markets
//! resolve to a binary outcome within a bounded time window. This crate holds
//! the verified core: the market lifecycle state machine, the liquidity pool
//! capacity ledger, and the position ledger. All reads of the current time and
//! all token movements happen outside the library: operations take the clock
//! value as an argument and return the transfer orders they authorize.

pub mod config;
pub mod errors;
pub mod events;
pub mod identity;
pub mod ledger;
pub mod liquidity;
pub mod market;
pub mod payouts;
pub mod positions;
pub mod reputation;
pub mod signal;
pub mod state;
