use prediction_market::errors::PredictionMarketError;
use prediction_market::identity::Identity;
use prediction_market::betting::{place_bet, PlaceBet};
use prediction_market::state::{Market, MarketStatus, Outcome, UserPosition};
use prediction_market::treasury::{withdraw_fees, WithdrawFees};
use prediction_market::state::PlatformConfig;

fn key(n: u64) -> Identity {
    Identity { w0: 0, w1: 0, w2: n, w3: 0 }
}

fn bet_ctx(now: i64) -> PlaceBet {
    PlaceBet {
        user: key(5),
        market: Market {
            id: 3,
            name: String::from("m"),
            description: String::from("d"),
            creator: key(1),
            outcomes: vec![0, 1],
            total_pool: 0,
            resolved: false,
            winner: None,
            start_time: 100,
            end_time: 200,
            fee_percentage: 2,
            oracle: key(1),
            status: MarketStatus::Active,
            bump: 1,
        },
        market_key: key(20),
        outcome: Outcome {
            id: 1,
            market: key(20),
            name: String::from("yes"),
            escrow_pubkey: key(21),
            total_staked: 0,
            odds: 10000,
            bump: 2,
        },
        user_position: UserPosition {
            user: Identity::zero(),
            market: Identity::zero(),
            outcome: 0,
            amount: 0,
            shares: 0,
            timestamp: 0,
            claimed: false,
            bump: 0,
        },
        now,
        bump: 3,
    }
}

#[test]
fn bets_accumulate_in_one_position() {
    let mut ctx = bet_ctx(150);
    assert_eq!(place_bet(&mut ctx, 40), Ok(()));
    assert_eq!(ctx.user_position.user, key(5));
    assert_eq!(ctx.user_position.market, key(20));
    assert_eq!(ctx.user_position.outcome, 1);
    assert_eq!(ctx.user_position.amount, 40);
    assert_eq!(ctx.user_position.shares, 40);
    assert_eq!(ctx.user_position.timestamp, 150);
    ctx.now = 160;
    assert_eq!(place_bet(&mut ctx, 60), Ok(()));
    assert_eq!(ctx.user_position.amount, 100);
    assert_eq!(ctx.user_position.shares, 100);
    assert_eq!(ctx.user_position.timestamp, 160);
    assert_eq!(ctx.outcome.total_staked, 100);
    assert_eq!(ctx.market.total_pool, 100);
}

#[test]
fn pool_grows_by_each_bet() {
    let mut ctx = bet_ctx(150);
    ctx.market.total_pool = 500;
    ctx.outcome.total_staked = 200;
    let mut pool = ctx.market.total_pool;
    let mut staked = ctx.outcome.total_staked;
    for amount in [1u64, 7, 1000] {
        assert_eq!(place_bet(&mut ctx, amount), Ok(()));
        assert_eq!(ctx.market.total_pool, pool + amount);
        assert_eq!(ctx.outcome.total_staked, staked + amount);
        pool = ctx.market.total_pool;
        staked = ctx.outcome.total_staked;
    }
    assert_eq!(pool, 1508);
    assert_eq!(staked, 1208);
}

#[test]
fn zero_bet_is_rejected_without_change() {
    let mut ctx = bet_ctx(150);
    assert_eq!(place_bet(&mut ctx, 0), Err(PredictionMarketError::InvalidBetAmount));
    assert_eq!(ctx.user_position.amount, 0);
    assert_eq!(ctx.user_position.user, Identity::zero());
    assert_eq!(ctx.outcome.total_staked, 0);
    assert_eq!(ctx.market.total_pool, 0);
}

#[test]
fn bet_rejections() {
    let mut ctx = bet_ctx(200);
    assert_eq!(place_bet(&mut ctx, 5), Err(PredictionMarketError::MarketAlreadyClosed));
    let mut ctx = bet_ctx(150);
    ctx.market.status = MarketStatus::Cancelled;
    assert_eq!(place_bet(&mut ctx, 5), Err(PredictionMarketError::MarketNotActive));
    let mut ctx = bet_ctx(150);
    ctx.market.total_pool = u64::MAX - 4;
    ctx.outcome.total_staked = 10;
    assert_eq!(place_bet(&mut ctx, 5), Err(PredictionMarketError::MathOverflow));
    assert_eq!(ctx.outcome.total_staked, 10);
    assert_eq!(ctx.user_position.amount, 0);
    assert_eq!(ctx.market.total_pool, u64::MAX - 4);
    assert_eq!(place_bet(&mut ctx, 4), Ok(()));
    assert_eq!(ctx.market.total_pool, u64::MAX);
}

fn fees_ctx(admin: Identity, treasury: Identity, balance: u64) -> WithdrawFees {
    WithdrawFees {
        admin,
        platform_config: PlatformConfig {
            admin: key(1),
            oracle_authority: key(1),
            treasury: key(2),
            default_fee_percentage: 2,
            markets_count: 4,
            total_volume: 0,
            paused: false,
            bump: 0,
        },
        treasury_account: treasury,
        treasury_balance: balance,
    }
}

#[test]
fn withdraw_fees_sweeps_balance() {
    assert_eq!(withdraw_fees(&fees_ctx(key(1), key(2), 77)), Ok(77));
    assert_eq!(withdraw_fees(&fees_ctx(key(1), key(2), 0)), Err(PredictionMarketError::InsufficientLiquidity));
    assert_eq!(withdraw_fees(&fees_ctx(key(3), key(2), 77)), Err(PredictionMarketError::UnauthorizedAdmin));
    assert_eq!(withdraw_fees(&fees_ctx(key(1), key(3), 77)), Err(PredictionMarketError::UnauthorizedAdmin));
}

#[test]
fn identity_comparison() {
    let a = Identity { w0: 1, w1: 2, w2: 3, w3: 4 };
    let b = Identity { w0: 1, w1: 2, w2: 3, w3: 5 };
    assert!(a.same_as(&a));
    assert!(!a.same_as(&b));
    assert!(Identity::zero().same_as(&Identity { w0: 0, w1: 0, w2: 0, w3: 0 }));
}

#[test]
fn pool_grows_across_outcomes() {
    let mut yes = bet_ctx(150);
    let mut no = bet_ctx(150);
    no.outcome.id = 0;
    no.user = key(6);
    let mut pool = 0u64;
    for (on_yes, amount) in [(true, 10u64), (false, 25), (true, 5), (false, 1)] {
        let ctx = if on_yes { &mut yes } else { &mut no };
        ctx.market.total_pool = pool;
        assert_eq!(place_bet(ctx, amount), Ok(()));
        assert_eq!(ctx.market.total_pool, pool + amount);
        pool = ctx.market.total_pool;
    }
    assert_eq!(pool, 41);
    assert_eq!(yes.outcome.total_staked, 15);
    assert_eq!(no.outcome.total_staked, 26);
}
