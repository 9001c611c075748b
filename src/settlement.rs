use vstd::prelude::*;
use vstd::arithmetic::div_mod::lemma_fundamental_div_mod;
use crate::errors::PredictionMarketError;
use crate::identity::Identity;
use crate::state::{Market, MarketStatus, Outcome, UserPosition};

verus! {

/// The platform's share of a pool: `floor(total_pool * fee_percentage / 100)`.
pub open spec fn fee_amount(total_pool: int, fee_percentage: int) -> int {
    total_pool * fee_percentage / 100
}

/// What remains of a pool for the winners once the fee is taken out.
pub open spec fn distributable_pool(total_pool: int, fee_percentage: int) -> int {
    total_pool - fee_amount(total_pool, fee_percentage)
}

/// The share of the distributable pool owed to a winning stake of `amount`
/// when `total_staked` was staked on the winning outcome in all.
pub open spec fn payout_amount(amount: int, total_pool: int, fee_percentage: int, total_staked: int) -> int {
    amount * distributable_pool(total_pool, fee_percentage) / total_staked
}

/// The result of the payout calculation, with the checks it performs:
/// no stake on the winner, a fee product or a payout beyond 64 bits, and a
/// fee larger than the pool are all rejected.
pub open spec fn payout_result(amount: u64, total_pool: u64, fee_percentage: u8, total_staked: u64)
    -> Result<u64, PredictionMarketError>
{
    if total_staked == 0 {
        Err(PredictionMarketError::InsufficientLiquidity)
    } else if total_pool * fee_percentage > u64::MAX {
        Err(PredictionMarketError::MathOverflow)
    } else if fee_amount(total_pool as int, fee_percentage as int) > total_pool {
        Err(PredictionMarketError::MathOverflow)
    } else if payout_amount(amount as int, total_pool as int, fee_percentage as int, total_staked as int)
        > u64::MAX {
        Err(PredictionMarketError::MathOverflow)
    } else {
        Ok(payout_amount(amount as int, total_pool as int, fee_percentage as int, total_staked as int) as u64)
    }
}

/// Computes the fee-adjusted proportional payout of a winning stake.
///
/// The product of stake and distributable pool is formed in 128 bits, so
/// only a final payout that does not fit 64 bits is an overflow.
pub fn calculate_payout(amount: u64, total_pool: u64, fee_percentage: u8, total_staked: u64) -> (r: Result<
    u64,
    PredictionMarketError,
>)
    ensures
        r == payout_result(amount, total_pool, fee_percentage, total_staked),
{
    if total_staked == 0 {
        return Err(PredictionMarketError::InsufficientLiquidity);
    }
    let fee_product = match total_pool.checked_mul(fee_percentage as u64) {
        Some(p) => p,
        None => {
            return Err(PredictionMarketError::MathOverflow);
        },
    };
    let fee = fee_product / 100;
    let distributable = match total_pool.checked_sub(fee) {
        Some(d) => d,
        None => {
            return Err(PredictionMarketError::MathOverflow);
        },
    };
    assert(distributable == distributable_pool(total_pool as int, fee_percentage as int));
    proof {
        lemma_wide_product(amount as int, distributable as int);
    }
    let numerator: u128 = (amount as u128) * (distributable as u128);
    let payout: u128 = numerator / (total_staked as u128);
    if payout > u64::MAX as u128 {
        return Err(PredictionMarketError::MathOverflow);
    }
    Ok(payout as u64)
}

proof fn lemma_wide_product(a: int, b: int)
    requires
        0 <= a <= u64::MAX,
        0 <= b <= u64::MAX,
    ensures
        0 <= a * b <= u128::MAX,
{
    assert(0 <= a * b <= u64::MAX * u64::MAX) by (nonlinear_arith)
        requires
            0 <= a <= u64::MAX,
            0 <= b <= u64::MAX,
    ;
}

/// The records a payout claim reads and writes.
#[derive(Clone, Debug)]
pub struct ClaimPayout {
    /// The caller, who must own the position.
    pub user: Identity,
    pub market: Market,
    pub outcome: Outcome,
    pub user_position: UserPosition,
}

/// The result of a claim: the payout to transfer from escrow to the user,
/// or the first precondition that fails, in the order they are checked.
pub open spec fn claim_result(c: ClaimPayout) -> Result<u64, PredictionMarketError> {
    if c.market.status != MarketStatus::Resolved {
        Err(PredictionMarketError::MarketNotResolved)
    } else if c.user_position.claimed {
        Err(PredictionMarketError::AlreadyClaimed)
    } else if c.market.winner != Some(c.outcome.id) || c.user_position.outcome != c.outcome.id {
        Err(PredictionMarketError::NotWinner)
    } else if c.user_position.user != c.user {
        Err(PredictionMarketError::UnauthorizedAdmin)
    } else {
        payout_result(
            c.user_position.amount,
            c.market.total_pool,
            c.market.fee_percentage,
            c.outcome.total_staked,
        )
    }
}

/// The records after a successful claim: the position is marked claimed.
pub open spec fn claim_applied(c: ClaimPayout) -> ClaimPayout {
    ClaimPayout { user_position: UserPosition { claimed: true, ..c.user_position }, ..c }
}

/// Settles one winning position. On success the position is marked claimed
/// and the payout is returned for transfer; on failure nothing changes.
pub fn claim_payout(ctx: &mut ClaimPayout) -> (r: Result<u64, PredictionMarketError>)
    ensures
        r == claim_result(*old(ctx)),
        r is Ok ==> *final(ctx) == claim_applied(*old(ctx)),
        r is Err ==> *final(ctx) == *old(ctx),
{
    if ctx.market.status != MarketStatus::Resolved {
        return Err(PredictionMarketError::MarketNotResolved);
    }
    if ctx.user_position.claimed {
        return Err(PredictionMarketError::AlreadyClaimed);
    }
    let is_winner = match ctx.market.winner {
        Some(w) => w == ctx.outcome.id,
        None => false,
    };
    if !is_winner || ctx.user_position.outcome != ctx.outcome.id {
        return Err(PredictionMarketError::NotWinner);
    }
    if !ctx.user_position.user.same_as(&ctx.user) {
        return Err(PredictionMarketError::UnauthorizedAdmin);
    }
    let payout = calculate_payout(
        ctx.user_position.amount,
        ctx.market.total_pool,
        ctx.market.fee_percentage,
        ctx.outcome.total_staked,
    )?;
    ctx.user_position.claimed = true;
    Ok(payout)
}

/// A position pays out at most once: after a successful claim, claiming the
/// same position again is rejected with `AlreadyClaimed`, so no second
/// transfer is ever issued.
pub proof fn lemma_claim_at_most_once(c: ClaimPayout)
    requires
        claim_result(c) is Ok,
    ensures
        claim_result(claim_applied(c)) == Err::<u64, PredictionMarketError>(
            PredictionMarketError::AlreadyClaimed,
        ),
{
}

/// The sum of a sequence of stakes or bet amounts.
pub open spec fn total_of(amounts: Seq<u64>) -> int
    decreases amounts.len(),
{
    if amounts.len() == 0 {
        0
    } else {
        total_of(amounts.drop_last()) + amounts.last()
    }
}

/// The sum of the payouts owed to a sequence of winning stakes.
pub open spec fn total_payout(amounts: Seq<u64>, total_pool: int, fee_percentage: int, total_staked: int) -> int
    decreases amounts.len(),
{
    if amounts.len() == 0 {
        0
    } else {
        total_payout(amounts.drop_last(), total_pool, fee_percentage, total_staked) + payout_amount(
            amounts.last() as int,
            total_pool,
            fee_percentage,
            total_staked,
        )
    }
}

// Each payout is a floor of `amount * distributable / total_staked`, so the
// sum of payouts times the winning total sits within one winning total per
// claim below the exact share, and meets it when every share divides exactly.
proof fn lemma_payout_bounds(amounts: Seq<u64>, total_pool: int, fee_percentage: int, total_staked: int)
    requires
        total_staked > 0,
        distributable_pool(total_pool, fee_percentage) >= 0,
    ensures
        total_payout(amounts, total_pool, fee_percentage, total_staked) * total_staked
            <= total_of(amounts) * distributable_pool(total_pool, fee_percentage),
        total_of(amounts) * distributable_pool(total_pool, fee_percentage)
            < (total_payout(amounts, total_pool, fee_percentage, total_staked) + amounts.len())
            * total_staked || amounts.len() == 0,
        (forall|i: int|
            0 <= i < amounts.len() ==> #[trigger] (amounts[i] * distributable_pool(
                total_pool,
                fee_percentage,
            )) % total_staked == 0) ==> total_payout(amounts, total_pool, fee_percentage, total_staked)
            * total_staked == total_of(amounts) * distributable_pool(total_pool, fee_percentage),
    decreases amounts.len(),
{
    if amounts.len() > 0 {
        let rest = amounts.drop_last();
        let d = distributable_pool(total_pool, fee_percentage);
        let a = amounts.last() as int;
        lemma_payout_bounds(rest, total_pool, fee_percentage, total_staked);
        let p = total_payout(rest, total_pool, fee_percentage, total_staked);
        let t = total_of(rest);
        let q = a * d / total_staked;
        lemma_fundamental_div_mod(a * d, total_staked);
        assert(0 <= (a * d) % total_staked < total_staked);
        assert((p + q) * total_staked == p * total_staked + q * total_staked) by (nonlinear_arith);
        assert((t + a) * d == t * d + a * d) by (nonlinear_arith);
        let n = rest.len() as int;
        assert((p + q + n + 1) * total_staked == (p + n) * total_staked + (q + 1) * total_staked)
            by (nonlinear_arith);
        assert((q + 1) * total_staked == total_staked * q + total_staked) by (nonlinear_arith);
        if n == 0 {
            assert(t * d == 0);
            assert(p * total_staked == 0);
        }
        assert(t * d <= (p + n) * total_staked);
        assert(total_staked * q == q * total_staked) by (nonlinear_arith);
        if forall|i: int|
            0 <= i < amounts.len() ==> #[trigger] (amounts[i] * d) % total_staked == 0 {
            assert forall|i: int| 0 <= i < rest.len() implies #[trigger] (rest[i] * d) % total_staked
                == 0 by {
                assert(rest[i] == amounts[i]);
            }
            assert((amounts[amounts.len() - 1] * d) % total_staked == 0);
        }
    }
}

/// Conservation of a resolved pool. For winning stakes that add up to no
/// more than the winning outcome's total, the payouts together with the fee
/// never exceed the pool. When the stakes add up to the whole winning total,
/// the shortfall left by rounding is smaller than the number of claims, and
/// is zero when every payout divides exactly.
pub proof fn lemma_conservation(amounts: Seq<u64>, total_pool: u64, fee_percentage: u8, total_staked: u64)
    requires
        fee_percentage <= 100,
        total_staked > 0,
        total_of(amounts) <= total_staked,
    ensures
        total_payout(amounts, total_pool as int, fee_percentage as int, total_staked as int)
            + fee_amount(total_pool as int, fee_percentage as int) <= total_pool,
        total_of(amounts) == total_staked ==> total_pool < total_payout(
            amounts,
            total_pool as int,
            fee_percentage as int,
            total_staked as int,
        ) + fee_amount(total_pool as int, fee_percentage as int) + amounts.len(),
        total_of(amounts) == total_staked && (forall|i: int|
            0 <= i < amounts.len() ==> #[trigger] (amounts[i] * distributable_pool(
                total_pool as int,
                fee_percentage as int,
            )) % (total_staked as int) == 0) ==> total_payout(
            amounts,
            total_pool as int,
            fee_percentage as int,
            total_staked as int,
        ) + fee_amount(total_pool as int, fee_percentage as int) == total_pool,
{
    let pool = total_pool as int;
    let pct = fee_percentage as int;
    let s = total_staked as int;
    let d = distributable_pool(pool, pct);
    assert(0 <= pool * pct <= pool * 100) by (nonlinear_arith)
        requires
            0 <= pool,
            0 <= pct <= 100,
    ;
    assert(fee_amount(pool, pct) <= pool);
    assert(fee_amount(pool, pct) >= 0);
    lemma_payout_bounds(amounts, pool, pct, s);
    let p = total_payout(amounts, pool, pct, s);
    let t = total_of(amounts);
    assert(t * d <= s * d) by (nonlinear_arith)
        requires
            t <= s,
            0 <= d,
    ;
    assert(p <= d) by (nonlinear_arith)
        requires
            p * s <= t * d,
            t * d <= s * d,
            s > 0,
    ;
    if t == s {
        if amounts.len() > 0 {
            assert(d < p + amounts.len()) by (nonlinear_arith)
                requires
                    s * d < (p + amounts.len()) * s,
                    s > 0,
            ;
        }
        assert(d * s == p * s ==> d == p) by (nonlinear_arith)
            requires
                s > 0,
        ;
    }
}

/// The stakes of the positions a sequence of claims settles.
pub open spec fn claimed_stakes(claims: Seq<ClaimPayout>) -> Seq<u64> {
    claims.map_values(|c: ClaimPayout| c.user_position.amount)
}

/// The sum of what a sequence of claims pays out, counting a rejected
/// claim as paying nothing.
pub open spec fn total_claimed(claims: Seq<ClaimPayout>) -> int
    decreases claims.len(),
{
    if claims.len() == 0 {
        0
    } else {
        total_claimed(claims.drop_last()) + match claim_result(claims.last()) {
            Ok(x) => x as int,
            Err(_) => 0,
        }
    }
}

proof fn lemma_claimed_is_payout(claims: Seq<ClaimPayout>, market: Market, outcome: Outcome)
    requires
        forall|i: int|
            0 <= i < claims.len() ==> (#[trigger] claims[i]).market == market && claims[i].outcome
                == outcome && claim_result(claims[i]) is Ok,
    ensures
        total_claimed(claims) == total_payout(
            claimed_stakes(claims),
            market.total_pool as int,
            market.fee_percentage as int,
            outcome.total_staked as int,
        ),
    decreases claims.len(),
{
    if claims.len() > 0 {
        let rest = claims.drop_last();
        assert forall|i: int| 0 <= i < rest.len() implies (#[trigger] rest[i]).market == market
            && rest[i].outcome == outcome && claim_result(rest[i]) is Ok by {
            assert(rest[i] == claims[i]);
        }
        lemma_claimed_is_payout(rest, market, outcome);
        assert(claimed_stakes(claims).drop_last() =~= claimed_stakes(rest));
        assert(claims[claims.len() - 1] == claims.last());
    }
}

/// Conservation over settled claims. When every claim of a sequence against
/// one resolved market and its winning outcome succeeds, and the claimed
/// stakes add up to no more than the outcome's total, the payouts together
/// with the fee never exceed the pool. When the claimed stakes are the whole
/// (non-zero) winning total, the rounding shortfall is smaller than the number of
/// claims, and is zero when every share divides exactly.
pub proof fn lemma_claims_conserve_pool(claims: Seq<ClaimPayout>, market: Market, outcome: Outcome)
    requires
        market.fee_percentage <= 100,
        forall|i: int|
            0 <= i < claims.len() ==> (#[trigger] claims[i]).market == market && claims[i].outcome
                == outcome && claim_result(claims[i]) is Ok,
        total_of(claimed_stakes(claims)) <= outcome.total_staked,
    ensures
        total_claimed(claims) + fee_amount(market.total_pool as int, market.fee_percentage as int)
            <= market.total_pool,
        0 < total_of(claimed_stakes(claims)) == outcome.total_staked ==> market.total_pool
            < total_claimed(claims) + fee_amount(
            market.total_pool as int,
            market.fee_percentage as int,
        ) + claims.len(),
        0 < total_of(claimed_stakes(claims)) == outcome.total_staked && (forall|i: int|
            0 <= i < claims.len() ==> #[trigger] (claims[i].user_position.amount * distributable_pool(
                market.total_pool as int,
                market.fee_percentage as int,
            )) % (outcome.total_staked as int) == 0) ==> total_claimed(claims) + fee_amount(
            market.total_pool as int,
            market.fee_percentage as int,
        ) == market.total_pool,
{
    lemma_claimed_is_payout(claims, market, outcome);
    let stakes = claimed_stakes(claims);
    let d = distributable_pool(market.total_pool as int, market.fee_percentage as int);
    if outcome.total_staked == 0 {
        if claims.len() > 0 {
            assert(claim_result(claims[0]) is Ok);
        }
        assert(claims.len() == 0);
        assert(total_claimed(claims) == 0);
        assert(0 <= market.total_pool * market.fee_percentage <= market.total_pool * 100)
            by (nonlinear_arith)
            requires
                market.fee_percentage <= 100,
        ;
    } else {
        if forall|i: int|
            0 <= i < claims.len() ==> #[trigger] (claims[i].user_position.amount * d) % (
            outcome.total_staked as int) == 0 {
            assert forall|i: int| 0 <= i < stakes.len() implies #[trigger] (stakes[i] * d) % (
            outcome.total_staked as int) == 0 by {
                assert(stakes[i] == claims[i].user_position.amount);
            }
        }
        lemma_conservation(stakes, market.total_pool, market.fee_percentage, outcome.total_staked);
    }
}

} // verus!
