use vstd::prelude::*;
use crate::errors::PredictionMarketError;
use crate::identity::Identity;
use crate::state::{
    DEFAULT_FEE_PERCENTAGE, DEFAULT_ODDS, Market, MarketStatus, Outcome, PlatformConfig,
};

verus! {

/// The records platform initialisation writes.
#[derive(Clone, Debug)]
pub struct InitializePlatform {
    pub admin: Identity,
    pub treasury: Identity,
    pub platform_config: PlatformConfig,
    pub bump: u8,
}

/// A fresh configuration: the initialiser is both administrator and oracle
/// authority, the fee is the default, nothing is counted and nothing paused.
pub open spec fn initial_config(admin: Identity, treasury: Identity, bump: u8) -> PlatformConfig {
    PlatformConfig {
        admin: admin,
        oracle_authority: admin,
        treasury: treasury,
        default_fee_percentage: DEFAULT_FEE_PERCENTAGE,
        markets_count: 0,
        total_volume: 0,
        paused: false,
        bump: bump,
    }
}

/// Writes the initial platform configuration.
pub fn initialize_platform(ctx: &mut InitializePlatform) -> (r: Result<(), PredictionMarketError>)
    ensures
        r is Ok,
        final(ctx).platform_config == initial_config(old(ctx).admin, old(ctx).treasury, old(ctx).bump),
        final(ctx).admin == old(ctx).admin,
        final(ctx).treasury == old(ctx).treasury,
        final(ctx).bump == old(ctx).bump,
{
    ctx.platform_config = PlatformConfig {
        admin: ctx.admin,
        oracle_authority: ctx.admin,
        treasury: ctx.treasury,
        default_fee_percentage: DEFAULT_FEE_PERCENTAGE,
        markets_count: 0,
        total_volume: 0,
        paused: false,
        bump: ctx.bump,
    };
    Ok(())
}

/// The records market creation reads and writes.
#[derive(Clone, Debug)]
pub struct CreateMarket {
    /// The caller, who must be the platform administrator.
    pub creator: Identity,
    pub platform_config: PlatformConfig,
    pub market: Market,
    /// The trusted clock reading at the time of the call.
    pub now: i64,
    pub bump: u8,
}

/// The first failing precondition of market creation, if any.
pub open spec fn create_market_error(c: CreateMarket, start_time: i64, end_time: i64) -> Option<
    PredictionMarketError,
> {
    if c.creator != c.platform_config.admin {
        Some(PredictionMarketError::UnauthorizedAdmin)
    } else if c.platform_config.paused {
        Some(PredictionMarketError::PlatformPaused)
    } else if end_time <= start_time {
        Some(PredictionMarketError::InvalidTimeRange)
    } else if start_time <= c.now {
        Some(PredictionMarketError::InvalidStartTime)
    } else if c.platform_config.markets_count == u64::MAX {
        Some(PredictionMarketError::MathOverflow)
    } else {
        None
    }
}

/// The market record a successful creation writes, around the given outcome
/// list (empty when created): the next identifier, an empty pool, the platform's fee unless overridden, and the
/// platform's current oracle authority.
pub open spec fn created_market(
    c: CreateMarket,
    name: String,
    description: String,
    start_time: i64,
    end_time: i64,
    custom_fee_percentage: Option<u8>,
    outcomes: Vec<u8>,
) -> Market {
    Market {
        id: c.platform_config.markets_count,
        name: name,
        description: description,
        creator: c.creator,
        outcomes: outcomes,
        total_pool: 0,
        resolved: false,
        winner: None,
        start_time: start_time,
        end_time: end_time,
        fee_percentage: match custom_fee_percentage {
            Some(f) => f,
            None => c.platform_config.default_fee_percentage,
        },
        oracle: c.platform_config.oracle_authority,
        status: MarketStatus::Active,
        bump: c.bump,
    }
}

/// Opens a new market for betting and advances the platform's market counter.
pub fn create_market(
    ctx: &mut CreateMarket,
    name: String,
    description: String,
    start_time: i64,
    end_time: i64,
    custom_fee_percentage: Option<u8>,
) -> (r: Result<(), PredictionMarketError>)
    ensures
        create_market_error(*old(ctx), start_time, end_time) matches Some(e) ==> r == Err::<
            (),
            PredictionMarketError,
        >(e) && *final(ctx) == *old(ctx),
        create_market_error(*old(ctx), start_time, end_time) is None ==> {
            &&& r is Ok
            &&& final(ctx).market.outcomes@.len() == 0
            &&& final(ctx).market == created_market(
                *old(ctx),
                name,
                description,
                start_time,
                end_time,
                custom_fee_percentage,
                final(ctx).market.outcomes,
            )
            &&& final(ctx).market.wf()
            &&& final(ctx).platform_config.markets_count == old(ctx).platform_config.markets_count
                + 1
            &&& final(ctx).platform_config == (PlatformConfig {
                markets_count: final(ctx).platform_config.markets_count,
                ..old(ctx).platform_config
            })
            &&& final(ctx).creator == old(ctx).creator
            &&& final(ctx).now == old(ctx).now
            &&& final(ctx).bump == old(ctx).bump
        },
{
    if !ctx.creator.same_as(&ctx.platform_config.admin) {
        return Err(PredictionMarketError::UnauthorizedAdmin);
    }
    if ctx.platform_config.paused {
        return Err(PredictionMarketError::PlatformPaused);
    }
    if end_time <= start_time {
        return Err(PredictionMarketError::InvalidTimeRange);
    }
    if start_time <= ctx.now {
        return Err(PredictionMarketError::InvalidStartTime);
    }
    let next_count = match ctx.platform_config.markets_count.checked_add(1) {
        Some(n) => n,
        None => {
            return Err(PredictionMarketError::MathOverflow);
        },
    };
    let fee_percentage = match custom_fee_percentage {
        Some(f) => f,
        None => ctx.platform_config.default_fee_percentage,
    };
    ctx.market = Market {
        id: ctx.platform_config.markets_count,
        name: name,
        description: description,
        creator: ctx.creator,
        outcomes: Vec::new(),
        total_pool: 0,
        resolved: false,
        winner: None,
        start_time: start_time,
        end_time: end_time,
        fee_percentage: fee_percentage,
        oracle: ctx.platform_config.oracle_authority,
        status: MarketStatus::Active,
        bump: ctx.bump,
    };
    ctx.platform_config.markets_count = next_count;
    Ok(())
}

/// The records outcome registration reads and writes.
#[derive(Clone, Debug)]
pub struct AddOutcome {
    pub market: Market,
    /// The market record's own key, bound into the new outcome.
    pub market_key: Identity,
    pub outcome: Outcome,
    /// The escrow holding area created for the new outcome.
    pub escrow: Identity,
    pub bump: u8,
}

/// The outcome record a registration writes: no stake, the fixed odds.
pub open spec fn registered_outcome(c: AddOutcome, name: String, outcome_id: u8) -> Outcome {
    Outcome {
        id: outcome_id,
        market: c.market_key,
        name: name,
        escrow_pubkey: c.escrow,
        total_staked: 0,
        odds: DEFAULT_ODDS,
        bump: c.bump,
    }
}

/// Registers an outcome on an active market: the outcome record is written
/// and its identifier appended to the market's outcome list. Identifiers
/// already present are not rejected.
pub fn add_outcome(ctx: &mut AddOutcome, name: String, outcome_id: u8) -> (r: Result<
    (),
    PredictionMarketError,
>)
    ensures
        old(ctx).market.status != MarketStatus::Active ==> r == Err::<(), PredictionMarketError>(
            PredictionMarketError::MarketNotActive,
        ) && *final(ctx) == *old(ctx),
        old(ctx).market.status == MarketStatus::Active ==> {
            &&& r is Ok
            &&& final(ctx).outcome == registered_outcome(*old(ctx), name, outcome_id)
            &&& final(ctx).market.outcomes@ == old(ctx).market.outcomes@.push(outcome_id)
            &&& final(ctx).market == (Market {
                outcomes: final(ctx).market.outcomes,
                ..old(ctx).market
            })
            &&& final(ctx).market_key == old(ctx).market_key
            &&& final(ctx).escrow == old(ctx).escrow
            &&& final(ctx).bump == old(ctx).bump
        },
        old(ctx).market.wf() ==> final(ctx).market.wf(),
{
    if ctx.market.status != MarketStatus::Active {
        return Err(PredictionMarketError::MarketNotActive);
    }
    ctx.outcome = Outcome {
        id: outcome_id,
        market: ctx.market_key,
        name: name,
        escrow_pubkey: ctx.escrow,
        total_staked: 0,
        odds: DEFAULT_ODDS,
        bump: ctx.bump,
    };
    ctx.market.outcomes.push(outcome_id);
    Ok(())
}

/// The records market resolution reads and writes.
#[derive(Clone, Debug)]
pub struct ResolveMarket {
    /// The caller, who must be the market's bound oracle.
    pub oracle: Identity,
    pub market: Market,
    /// The trusted clock reading at the time of the call.
    pub now: i64,
}

/// The first failing precondition of resolution, if any.
pub open spec fn resolve_market_error(c: ResolveMarket, winning_outcome_id: u8) -> Option<
    PredictionMarketError,
> {
    if c.oracle != c.market.oracle {
        Some(PredictionMarketError::UnauthorizedOracle)
    } else if c.market.status == MarketStatus::Resolved || c.market.status
        == MarketStatus::Cancelled {
        Some(PredictionMarketError::MarketAlreadyResolved)
    } else if c.now < c.market.end_time {
        Some(PredictionMarketError::MarketNotEnded)
    } else if !c.market.outcomes@.contains(winning_outcome_id) {
        Some(PredictionMarketError::OutcomeNotFound)
    } else {
        None
    }
}

/// The records after a successful resolution: the market is resolved with
/// the reported winner.
pub open spec fn market_resolved(c: ResolveMarket, winning_outcome_id: u8) -> ResolveMarket {
    ResolveMarket {
        market: Market {
            status: MarketStatus::Resolved,
            resolved: true,
            winner: Some(winning_outcome_id),
            ..c.market
        },
        ..c
    }
}

/// Records the oracle's reported winner once the betting window is over.
pub fn resolve_market(ctx: &mut ResolveMarket, winning_outcome_id: u8) -> (r: Result<
    (),
    PredictionMarketError,
>)
    ensures
        resolve_market_error(*old(ctx), winning_outcome_id) matches Some(e) ==> r == Err::<
            (),
            PredictionMarketError,
        >(e) && *final(ctx) == *old(ctx),
        resolve_market_error(*old(ctx), winning_outcome_id) is None ==> r is Ok && *final(ctx)
            == market_resolved(*old(ctx), winning_outcome_id),
        old(ctx).oracle != old(ctx).market.oracle ==> r == Err::<(), PredictionMarketError>(
            PredictionMarketError::UnauthorizedOracle,
        ) && *final(ctx) == *old(ctx),
        old(ctx).market.wf() ==> final(ctx).market.wf(),
{
    if !ctx.oracle.same_as(&ctx.market.oracle) {
        return Err(PredictionMarketError::UnauthorizedOracle);
    }
    if ctx.market.status.is_final() {
        return Err(PredictionMarketError::MarketAlreadyResolved);
    }
    if ctx.now < ctx.market.end_time {
        return Err(PredictionMarketError::MarketNotEnded);
    }
    if !ctx.market.has_outcome(winning_outcome_id) {
        return Err(PredictionMarketError::OutcomeNotFound);
    }
    ctx.market.status = MarketStatus::Resolved;
    ctx.market.resolved = true;
    ctx.market.winner = Some(winning_outcome_id);
    Ok(())
}

/// The records market cancellation reads and writes.
#[derive(Clone, Debug)]
pub struct CancelMarket {
    /// The caller, who must be the platform administrator.
    pub admin: Identity,
    pub platform_config: PlatformConfig,
    pub market: Market,
}

/// The first failing precondition of cancellation, if any.
pub open spec fn cancel_market_error(c: CancelMarket) -> Option<PredictionMarketError> {
    if c.admin != c.platform_config.admin {
        Some(PredictionMarketError::UnauthorizedAdmin)
    } else if c.market.status == MarketStatus::Resolved || c.market.status
        == MarketStatus::Cancelled {
        Some(PredictionMarketError::MarketAlreadyResolved)
    } else {
        None
    }
}

/// Cancels a market that has not reached a terminal state. Staked funds stay
/// in escrow; no refund is issued here.
pub fn cancel_market(ctx: &mut CancelMarket) -> (r: Result<(), PredictionMarketError>)
    ensures
        cancel_market_error(*old(ctx)) matches Some(e) ==> r == Err::<(), PredictionMarketError>(e)
            && *final(ctx) == *old(ctx),
        cancel_market_error(*old(ctx)) is None ==> r is Ok && *final(ctx) == (CancelMarket {
            market: Market { status: MarketStatus::Cancelled, ..old(ctx).market },
            ..*old(ctx)
        }),
        old(ctx).market.wf() ==> final(ctx).market.wf(),
{
    if !ctx.admin.same_as(&ctx.platform_config.admin) {
        return Err(PredictionMarketError::UnauthorizedAdmin);
    }
    if ctx.market.status.is_final() {
        return Err(PredictionMarketError::MarketAlreadyResolved);
    }
    ctx.market.status = MarketStatus::Cancelled;
    Ok(())
}

} // verus!
