use vstd::prelude::*;
use crate::identity::Identity;

verus! {

/// The platform fee charged by a freshly initialised platform, in percent.
pub const DEFAULT_FEE_PERCENTAGE: u8 = 2;

/// The fixed pricing weight of an outcome: a 1:1 ratio scaled by ten thousand.
pub const DEFAULT_ODDS: u64 = 10000;

/// Where a market stands in its lifecycle.
///
/// `Locked` is part of the record shape but no operation enters it; the only
/// pre-terminal state reached at run time is `Active`.
#[derive(Clone, Copy, Debug, PartialEq, Eq, Structural)]
pub enum MarketStatus {
    Active,
    Locked,
    Resolved,
    Cancelled,
}

impl Default for MarketStatus {
    /// A market record starts out active.
    fn default() -> (r: MarketStatus)
        ensures
            r == MarketStatus::Active,
    {
        MarketStatus::Active
    }
}

impl MarketStatus {
    /// True for the two terminal states, `Resolved` and `Cancelled`.
    pub fn is_final(&self) -> (r: bool)
        ensures
            r == (*self == MarketStatus::Resolved || *self == MarketStatus::Cancelled),
    {
        match self {
            MarketStatus::Resolved => true,
            MarketStatus::Cancelled => true,
            _ => false,
        }
    }
}

/// The process-wide configuration of the platform.
#[derive(Clone, Debug)]
pub struct PlatformConfig {
    pub admin: Identity,
    pub oracle_authority: Identity,
    pub treasury: Identity,
    pub default_fee_percentage: u8,
    pub markets_count: u64,
    pub total_volume: u64,
    pub paused: bool,
    pub bump: u8,
}

/// One proposition being wagered on.
#[derive(Clone, Debug)]
pub struct Market {
    pub id: u64,
    pub name: String,
    pub description: String,
    pub creator: Identity,
    /// Registered outcome identifiers, in registration order.
    pub outcomes: Vec<u8>,
    /// Sum of every stake placed on the market.
    pub total_pool: u64,
    pub resolved: bool,
    pub winner: Option<u8>,
    pub start_time: i64,
    pub end_time: i64,
    pub fee_percentage: u8,
    /// The identity allowed to resolve this market, bound at creation.
    pub oracle: Identity,
    pub status: MarketStatus,
    pub bump: u8,
}

impl Market {
    /// The record invariant kept by every operation: a valid time window,
    /// and a winner (one of the registered outcomes) exactly when resolved.
    pub open spec fn wf(&self) -> bool {
        &&& self.end_time > self.start_time
        &&& (self.status == MarketStatus::Resolved) == self.resolved
        &&& (self.status == MarketStatus::Resolved) == self.winner.is_some()
        &&& self.winner matches Some(w) ==> self.outcomes@.contains(w)
    }

    /// Whether `outcome_id` is among the registered outcomes.
    pub fn has_outcome(&self, outcome_id: u8) -> (r: bool)
        ensures
            r == self.outcomes@.contains(outcome_id),
    {
        let n = self.outcomes.len();
        let mut i: usize = 0;
        while i < n
            invariant
                n == self.outcomes@.len(),
                i <= n,
                forall|j: int| 0 <= j < i ==> self.outcomes@[j] != outcome_id,
            decreases n - i,
        {
            if self.outcomes[i] == outcome_id {
                return true;
            }
            i = i + 1;
        }
        false
    }
}

/// One possible result within a market.
#[derive(Clone, Debug)]
pub struct Outcome {
    pub id: u8,
    pub market: Identity,
    pub name: String,
    pub escrow_pubkey: Identity,
    /// Sum of every stake placed on this outcome.
    pub total_staked: u64,
    /// Reserved pricing weight; settlement never reads it.
    pub odds: u64,
    pub bump: u8,
}

/// One participant's cumulative stake on one outcome of one market.
#[derive(Clone, Debug)]
pub struct UserPosition {
    pub user: Identity,
    pub market: Identity,
    pub outcome: u8,
    pub amount: u64,
    /// Reserved for non-linear pricing; always equal to `amount` here.
    pub shares: u64,
    pub timestamp: i64,
    /// Set once the payout has been issued; never cleared afterwards.
    pub claimed: bool,
    pub bump: u8,
}

impl UserPosition {
    /// The record invariant under fixed 1:1 pricing: shares track the stake.
    pub open spec fn wf(&self) -> bool {
        self.shares == self.amount
    }
}

} // verus!
