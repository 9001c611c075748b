//! Settlement engine for peer-to-peer prediction markets: the market
//! lifecycle, the stake ledgers and the fee-adjusted proportional payout.
//!
//! Every operation takes the records it touches in one context value,
//! validates them against the caller and the supplied clock reading, and
//! either applies all of its effects or none of them.

pub mod errors;
pub mod identity;
pub mod state;
pub mod settlement;
pub mod lifecycle;
pub mod betting;
pub mod treasury;
