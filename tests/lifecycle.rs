use prediction_market::errors::PredictionMarketError;
use prediction_market::identity::Identity;
use prediction_market::lifecycle::{
    add_outcome, cancel_market, create_market, initialize_platform, resolve_market, AddOutcome,
    CancelMarket, CreateMarket, InitializePlatform, ResolveMarket,
};
use prediction_market::state::{Market, MarketStatus, Outcome, PlatformConfig};

fn key(n: u64) -> Identity {
    Identity { w0: n, w1: n, w2: 0, w3: 7 }
}

fn blank_market() -> Market {
    Market {
        id: 0,
        name: String::new(),
        description: String::new(),
        creator: Identity::zero(),
        outcomes: Vec::new(),
        total_pool: 0,
        resolved: false,
        winner: None,
        start_time: 0,
        end_time: 0,
        fee_percentage: 0,
        oracle: Identity::zero(),
        status: MarketStatus::Active,
        bump: 0,
    }
}

fn blank_outcome() -> Outcome {
    Outcome {
        id: 0,
        market: Identity::zero(),
        name: String::new(),
        escrow_pubkey: Identity::zero(),
        total_staked: 0,
        odds: 0,
        bump: 0,
    }
}

fn platform() -> PlatformConfig {
    let mut ctx = InitializePlatform {
        admin: key(1),
        treasury: key(2),
        platform_config: PlatformConfig {
            admin: Identity::zero(),
            oracle_authority: Identity::zero(),
            treasury: Identity::zero(),
            default_fee_percentage: 0,
            markets_count: 0,
            total_volume: 0,
            paused: true,
            bump: 0,
        },
        bump: 250,
    };
    assert_eq!(initialize_platform(&mut ctx), Ok(()));
    ctx.platform_config
}

fn create_ctx(config: PlatformConfig, now: i64) -> CreateMarket {
    CreateMarket { creator: key(1), platform_config: config, market: blank_market(), now, bump: 251 }
}

fn market_with_outcomes(end_time: i64) -> Market {
    let mut ctx = create_ctx(platform(), 10);
    assert_eq!(
        create_market(&mut ctx, String::from("m"), String::from("d"), 100, end_time, None),
        Ok(())
    );
    let mut market = ctx.market;
    for id in [3u8, 4] {
        let mut add = AddOutcome {
            market,
            market_key: key(20),
            outcome: blank_outcome(),
            escrow: key(30 + id as u64),
            bump: 1,
        };
        assert_eq!(add_outcome(&mut add, String::from("o"), id), Ok(()));
        market = add.market;
    }
    market
}

#[test]
fn initialize_sets_defaults() {
    let config = platform();
    assert_eq!(config.admin, key(1));
    assert_eq!(config.oracle_authority, key(1));
    assert_eq!(config.treasury, key(2));
    assert_eq!(config.default_fee_percentage, 2);
    assert_eq!(config.markets_count, 0);
    assert_eq!(config.total_volume, 0);
    assert!(!config.paused);
    assert_eq!(config.bump, 250);
}

#[test]
fn create_market_uses_platform_defaults() {
    let mut ctx = create_ctx(platform(), 10);
    assert_eq!(create_market(&mut ctx, String::from("a"), String::from("b"), 50, 60, None), Ok(()));
    assert_eq!(ctx.market.id, 0);
    assert_eq!(ctx.market.fee_percentage, 2);
    assert_eq!(ctx.market.oracle, key(1));
    assert_eq!(ctx.market.creator, key(1));
    assert_eq!(ctx.market.status, MarketStatus::Active);
    assert_eq!(ctx.market.winner, None);
    assert!(ctx.market.outcomes.is_empty());
    assert_eq!(ctx.market.name, "a");
    assert_eq!(ctx.platform_config.markets_count, 1);
    assert_eq!(create_market(&mut ctx, String::from("c"), String::from("d"), 50, 60, Some(5)), Ok(()));
    assert_eq!(ctx.market.id, 1);
    assert_eq!(ctx.market.fee_percentage, 5);
    assert_eq!(ctx.platform_config.markets_count, 2);
}

#[test]
fn create_market_rejections() {
    let mut paused = platform();
    paused.paused = true;
    let mut ctx = create_ctx(paused, 10);
    assert_eq!(
        create_market(&mut ctx, String::new(), String::new(), 50, 60, None),
        Err(PredictionMarketError::PlatformPaused)
    );
    let mut ctx = create_ctx(platform(), 10);
    assert_eq!(
        create_market(&mut ctx, String::new(), String::new(), 60, 60, None),
        Err(PredictionMarketError::InvalidTimeRange)
    );
    assert_eq!(
        create_market(&mut ctx, String::new(), String::new(), 10, 60, None),
        Err(PredictionMarketError::InvalidStartTime)
    );
    ctx.creator = key(9);
    assert_eq!(
        create_market(&mut ctx, String::new(), String::new(), 50, 60, None),
        Err(PredictionMarketError::UnauthorizedAdmin)
    );
    let mut full = platform();
    full.markets_count = u64::MAX;
    let mut ctx = create_ctx(full, 10);
    assert_eq!(
        create_market(&mut ctx, String::new(), String::new(), 50, 60, None),
        Err(PredictionMarketError::MathOverflow)
    );
    assert_eq!(ctx.platform_config.markets_count, u64::MAX);
}

#[test]
fn add_outcome_appends_in_order() {
    let market = market_with_outcomes(200);
    assert_eq!(market.outcomes, vec![3, 4]);
    let mut add = AddOutcome {
        market,
        market_key: key(20),
        outcome: blank_outcome(),
        escrow: key(40),
        bump: 9,
    };
    assert_eq!(add_outcome(&mut add, String::from("draw"), 3), Ok(()));
    assert_eq!(add.market.outcomes, vec![3, 4, 3]);
    assert_eq!(add.outcome.id, 3);
    assert_eq!(add.outcome.market, key(20));
    assert_eq!(add.outcome.escrow_pubkey, key(40));
    assert_eq!(add.outcome.total_staked, 0);
    assert_eq!(add.outcome.odds, 10000);
    assert_eq!(add.outcome.name, "draw");
}

#[test]
fn add_outcome_needs_active_market() {
    let mut market = market_with_outcomes(200);
    market.status = MarketStatus::Cancelled;
    let mut add = AddOutcome {
        market,
        market_key: key(20),
        outcome: blank_outcome(),
        escrow: key(40),
        bump: 9,
    };
    assert_eq!(add_outcome(&mut add, String::from("x"), 5), Err(PredictionMarketError::MarketNotActive));
    assert_eq!(add.market.outcomes, vec![3, 4]);
}

#[test]
fn resolve_sets_winner() {
    let mut ctx = ResolveMarket { oracle: key(1), market: market_with_outcomes(200), now: 200 };
    assert_eq!(resolve_market(&mut ctx, 4), Ok(()));
    assert_eq!(ctx.market.status, MarketStatus::Resolved);
    assert!(ctx.market.resolved);
    assert_eq!(ctx.market.winner, Some(4));
    assert_eq!(resolve_market(&mut ctx, 3), Err(PredictionMarketError::MarketAlreadyResolved));
    assert_eq!(ctx.market.winner, Some(4));
}

#[test]
fn resolve_before_end_time_fails() {
    let mut ctx = ResolveMarket { oracle: key(1), market: market_with_outcomes(200), now: 199 };
    assert_eq!(resolve_market(&mut ctx, 3), Err(PredictionMarketError::MarketNotEnded));
    assert_eq!(resolve_market(&mut ctx, 9), Err(PredictionMarketError::MarketNotEnded));
    assert_eq!(ctx.market.status, MarketStatus::Active);
    assert_eq!(ctx.market.winner, None);
}

#[test]
fn resolve_by_wrong_oracle_fails() {
    let mut ctx = ResolveMarket { oracle: key(8), market: market_with_outcomes(200), now: 500 };
    assert_eq!(resolve_market(&mut ctx, 3), Err(PredictionMarketError::UnauthorizedOracle));
    assert_eq!(ctx.market.status, MarketStatus::Active);
    assert_eq!(ctx.market.winner, None);
    assert!(!ctx.market.resolved);
}

#[test]
fn resolve_unknown_outcome_fails() {
    let mut ctx = ResolveMarket { oracle: key(1), market: market_with_outcomes(200), now: 500 };
    assert_eq!(resolve_market(&mut ctx, 7), Err(PredictionMarketError::OutcomeNotFound));
    assert_eq!(ctx.market.status, MarketStatus::Active);
}

#[test]
fn cancel_market_rules() {
    let mut ctx = CancelMarket { admin: key(2), platform_config: platform(), market: market_with_outcomes(200) };
    assert_eq!(cancel_market(&mut ctx), Err(PredictionMarketError::UnauthorizedAdmin));
    ctx.admin = key(1);
    assert_eq!(cancel_market(&mut ctx), Ok(()));
    assert_eq!(ctx.market.status, MarketStatus::Cancelled);
    assert_eq!(cancel_market(&mut ctx), Err(PredictionMarketError::MarketAlreadyResolved));
    let mut resolve = ResolveMarket { oracle: key(1), market: ctx.market.clone(), now: 500 };
    assert_eq!(resolve_market(&mut resolve, 3), Err(PredictionMarketError::MarketAlreadyResolved));
}

#[test]
fn status_and_membership_helpers() {
    assert!(MarketStatus::Resolved.is_final());
    assert!(MarketStatus::Cancelled.is_final());
    assert!(!MarketStatus::Active.is_final());
    assert!(!MarketStatus::Locked.is_final());
    let market = market_with_outcomes(200);
    assert!(market.has_outcome(4));
    assert!(!market.has_outcome(5));
    assert_eq!(PredictionMarketError::MarketNotEnded.message(), "Market has not reached end time");
}
