use vstd::prelude::*;
use crate::errors::PredictionMarketError;
use crate::identity::Identity;
use crate::settlement::total_of;
use crate::state::{Market, MarketStatus, Outcome, UserPosition};

verus! {

/// The records a bet reads and writes.
#[derive(Clone, Debug)]
pub struct PlaceBet {
    /// The bettor, who owns the position.
    pub user: Identity,
    pub market: Market,
    /// The market record's own key, bound into the position.
    pub market_key: Identity,
    pub outcome: Outcome,
    /// The bettor's position on this outcome, fresh (all zero) on a first bet.
    pub user_position: UserPosition,
    /// The trusted clock reading at the time of the call.
    pub now: i64,
    pub bump: u8,
}

/// The first failing precondition of a bet, if any: the market must be
/// active and still open, the amount positive, and every running total must
/// stay within 64 bits.
pub open spec fn place_bet_error(c: PlaceBet, amount: u64) -> Option<PredictionMarketError> {
    if c.market.status != MarketStatus::Active {
        Some(PredictionMarketError::MarketNotActive)
    } else if c.now >= c.market.end_time {
        Some(PredictionMarketError::MarketAlreadyClosed)
    } else if amount == 0 {
        Some(PredictionMarketError::InvalidBetAmount)
    } else if c.user_position.amount + amount > u64::MAX || c.user_position.shares + amount
        > u64::MAX || c.outcome.total_staked + amount > u64::MAX || c.market.total_pool + amount
        > u64::MAX {
        Some(PredictionMarketError::MathOverflow)
    } else {
        None
    }
}

/// The records after a successful bet: the stake is added, at the fixed 1:1
/// ratio, to the position, the outcome's total and the market's pool.
pub open spec fn bet_placed(c: PlaceBet, amount: u64) -> PlaceBet {
    PlaceBet {
        user_position: UserPosition {
            user: c.user,
            market: c.market_key,
            outcome: c.outcome.id,
            amount: (c.user_position.amount + amount) as u64,
            shares: (c.user_position.shares + amount) as u64,
            timestamp: c.now,
            claimed: false,
            bump: c.bump,
        },
        outcome: Outcome { total_staked: (c.outcome.total_staked + amount) as u64, ..c.outcome },
        market: Market { total_pool: (c.market.total_pool + amount) as u64, ..c.market },
        ..c
    }
}

/// Accepts a stake on an outcome of an active, open market. The caller moves
/// `amount` into the outcome's escrow as part of the same operation.
pub fn place_bet(ctx: &mut PlaceBet, amount: u64) -> (r: Result<(), PredictionMarketError>)
    ensures
        place_bet_error(*old(ctx), amount) matches Some(e) ==> r == Err::<(), PredictionMarketError>(
            e,
        ) && *final(ctx) == *old(ctx),
        place_bet_error(*old(ctx), amount) is None ==> r is Ok && *final(ctx) == bet_placed(
            *old(ctx),
            amount,
        ),
        r is Ok ==> final(ctx).outcome.total_staked == old(ctx).outcome.total_staked + amount
            && final(ctx).market.total_pool == old(ctx).market.total_pool + amount,
        old(ctx).market.wf() ==> final(ctx).market.wf(),
        old(ctx).user_position.wf() ==> final(ctx).user_position.wf(),
{
    if ctx.market.status != MarketStatus::Active {
        return Err(PredictionMarketError::MarketNotActive);
    }
    if ctx.now >= ctx.market.end_time {
        return Err(PredictionMarketError::MarketAlreadyClosed);
    }
    if amount == 0 {
        return Err(PredictionMarketError::InvalidBetAmount);
    }
    // Shares are issued one for one with the stake.
    let shares = amount;
    let new_amount = match ctx.user_position.amount.checked_add(amount) {
        Some(v) => v,
        None => {
            return Err(PredictionMarketError::MathOverflow);
        },
    };
    let new_shares = match ctx.user_position.shares.checked_add(shares) {
        Some(v) => v,
        None => {
            return Err(PredictionMarketError::MathOverflow);
        },
    };
    let new_staked = match ctx.outcome.total_staked.checked_add(amount) {
        Some(v) => v,
        None => {
            return Err(PredictionMarketError::MathOverflow);
        },
    };
    let new_pool = match ctx.market.total_pool.checked_add(amount) {
        Some(v) => v,
        None => {
            return Err(PredictionMarketError::MathOverflow);
        },
    };
    ctx.user_position.user = ctx.user;
    ctx.user_position.market = ctx.market_key;
    ctx.user_position.outcome = ctx.outcome.id;
    ctx.user_position.amount = new_amount;
    ctx.user_position.shares = new_shares;
    ctx.user_position.timestamp = ctx.now;
    ctx.user_position.claimed = false;
    ctx.user_position.bump = ctx.bump;
    ctx.outcome.total_staked = new_staked;
    ctx.market.total_pool = new_pool;
    Ok(())
}

/// The records after placing each bet of `amounts` in turn, or `None` as
/// soon as one of them is rejected.
pub open spec fn bets_placed(c: PlaceBet, amounts: Seq<u64>) -> Option<PlaceBet>
    decreases amounts.len(),
{
    if amounts.len() == 0 {
        Some(c)
    } else {
        match bets_placed(c, amounts.drop_last()) {
            Some(before) => if place_bet_error(before, amounts.last()) is None {
                Some(bet_placed(before, amounts.last()))
            } else {
                None
            },
            None => None,
        }
    }
}

/// Pool monotonicity. When a sequence of bets all succeed, the outcome's
/// total stake and the market's pool each grow by exactly the sum of the
/// amounts, and neither ever decreases along the way.
pub proof fn lemma_pool_grows_by_bets(c: PlaceBet, amounts: Seq<u64>)
    requires
        bets_placed(c, amounts) is Some,
    ensures
        bets_placed(c, amounts)->Some_0.outcome.total_staked == c.outcome.total_staked + total_of(
            amounts,
        ),
        bets_placed(c, amounts)->Some_0.market.total_pool == c.market.total_pool + total_of(amounts),
        forall|k: int|
            0 <= k <= amounts.len() ==> {
                &&& #[trigger] bets_placed(c, amounts.take(k)) is Some
                &&& c.outcome.total_staked <= bets_placed(
                    c,
                    amounts.take(k),
                )->Some_0.outcome.total_staked
                    <= bets_placed(c, amounts)->Some_0.outcome.total_staked
                &&& c.market.total_pool <= bets_placed(c, amounts.take(k))->Some_0.market.total_pool
                    <= bets_placed(c, amounts)->Some_0.market.total_pool
            },
    decreases amounts.len(),
{
    if amounts.len() > 0 {
        let rest = amounts.drop_last();
        lemma_pool_grows_by_bets(c, rest);
        let before = bets_placed(c, rest)->Some_0;
        assert(bets_placed(c, amounts) == Some(bet_placed(before, amounts.last())));
        assert forall|k: int| 0 <= k <= amounts.len() implies {
            &&& #[trigger] bets_placed(c, amounts.take(k)) is Some
            &&& c.outcome.total_staked <= bets_placed(
                c,
                amounts.take(k),
            )->Some_0.outcome.total_staked
                <= bets_placed(c, amounts)->Some_0.outcome.total_staked
            &&& c.market.total_pool <= bets_placed(c, amounts.take(k))->Some_0.market.total_pool
                <= bets_placed(c, amounts)->Some_0.market.total_pool
        } by {
            if k == amounts.len() {
                assert(amounts.take(k) =~= amounts);
                assert(rest.take(rest.len() as int) =~= rest);
                assert(bets_placed(c, rest.take(rest.len() as int)) is Some);
            } else {
                assert(amounts.take(k) =~= rest.take(k));
                assert(bets_placed(c, rest.take(k)) is Some);
            }
        }
    } else {
        assert forall|k: int| 0 <= k <= amounts.len() implies #[trigger] bets_placed(
            c,
            amounts.take(k),
        ) is Some by {
            assert(amounts.take(k) =~= amounts);
        }
    }
}

/// A bet context set against the current market and outcome totals: the
/// market record is `market`, and the outcome's total is the one in `staked`.
pub open spec fn bet_against(market: Market, staked: Map<u8, u64>, c: PlaceBet) -> PlaceBet {
    PlaceBet {
        market: market,
        outcome: Outcome { total_staked: staked[c.outcome.id], ..c.outcome },
        ..c
    }
}

/// The market and the per-outcome totals after placing each bet of `bets`
/// in turn, on whichever outcome each names, or `None` as soon as one names
/// an outcome not in `staked` or is rejected.
pub open spec fn ledger_after_bets(market: Market, staked: Map<u8, u64>, bets: Seq<(PlaceBet, u64)>)
    -> Option<(Market, Map<u8, u64>)>
    decreases bets.len(),
{
    if bets.len() == 0 {
        Some((market, staked))
    } else {
        match ledger_after_bets(market, staked, bets.drop_last()) {
            Some((m, t)) => {
                let c = bet_against(m, t, bets.last().0);
                let amount = bets.last().1;
                if t.contains_key(c.outcome.id) && place_bet_error(c, amount) is None {
                    let after = bet_placed(c, amount);
                    Some((after.market, t.insert(c.outcome.id, after.outcome.total_staked)))
                } else {
                    None
                }
            },
            None => None,
        }
    }
}

/// The sum of the amounts of a sequence of bets.
pub open spec fn bets_total(bets: Seq<(PlaceBet, u64)>) -> int
    decreases bets.len(),
{
    if bets.len() == 0 {
        0
    } else {
        bets_total(bets.drop_last()) + bets.last().1
    }
}

/// The sum of the amounts of the bets of a sequence that name outcome `id`.
pub open spec fn bets_total_on(bets: Seq<(PlaceBet, u64)>, id: u8) -> int
    decreases bets.len(),
{
    if bets.len() == 0 {
        0
    } else {
        bets_total_on(bets.drop_last(), id) + if bets.last().0.outcome.id == id {
            bets.last().1 as int
        } else {
            0
        }
    }
}

/// Whether bet `k` of the sequence leaves the pool and every outcome total
/// at least where the bets before it left them.
pub open spec fn bet_lowers_nothing(market: Market, staked: Map<u8, u64>, bets: Seq<(PlaceBet, u64)>, k: int) -> bool {
    let before = ledger_after_bets(market, staked, bets.take(k))->Some_0;
    let after = ledger_after_bets(market, staked, bets.take(k + 1))->Some_0;
    &&& before.0.total_pool <= after.0.total_pool
    &&& forall|id: u8| #[trigger] before.1.contains_key(id) ==> before.1[id] <= after.1[id]
}

proof fn lemma_ledger_prefixes(market: Market, staked: Map<u8, u64>, bets: Seq<(PlaceBet, u64)>)
    requires
        ledger_after_bets(market, staked, bets) is Some,
    ensures
        forall|k: int|
            0 <= k <= bets.len() ==> #[trigger] ledger_after_bets(market, staked, bets.take(k))
                is Some,
    decreases bets.len(),
{
    if bets.len() > 0 {
        let rest = bets.drop_last();
        lemma_ledger_prefixes(market, staked, rest);
        assert forall|k: int| 0 <= k <= bets.len() implies #[trigger] ledger_after_bets(
            market,
            staked,
            bets.take(k),
        ) is Some by {
            if k == bets.len() {
                assert(bets.take(k) =~= bets);
            } else {
                assert(bets.take(k) =~= rest.take(k));
            }
        }
    } else {
        assert forall|k: int| 0 <= k <= bets.len() implies #[trigger] ledger_after_bets(
            market,
            staked,
            bets.take(k),
        ) is Some by {
            assert(bets.take(k) =~= bets);
        }
    }
}

/// Pool monotonicity across bets on any outcomes of one market. When a
/// sequence of bets all succeed, the market's pool grows by exactly the sum
/// of all amounts and each outcome's total by exactly the sum of the amounts
/// placed on it; and no bet of the sequence lowers the pool or any total.
pub proof fn lemma_ledger_grows_by_bets(market: Market, staked: Map<u8, u64>, bets: Seq<(PlaceBet, u64)>)
    requires
        ledger_after_bets(market, staked, bets) is Some,
    ensures
        ({
            let (m, t) = ledger_after_bets(market, staked, bets)->Some_0;
            &&& m.total_pool == market.total_pool + bets_total(bets)
            &&& t.dom() == staked.dom()
            &&& forall|id: u8| #[trigger] t.contains_key(id) ==> t[id] == staked[id] + bets_total_on(bets, id)
        }),
        forall|k: int| 0 <= k < bets.len() ==> #[trigger] bet_lowers_nothing(market, staked, bets, k),
    decreases bets.len(),
{
    lemma_ledger_prefixes(market, staked, bets);
    if bets.len() > 0 {
        let rest = bets.drop_last();
        assert(bets.take(bets.len() - 1) =~= rest);
        assert(ledger_after_bets(market, staked, bets.take(bets.len() - 1)) is Some);
        lemma_ledger_grows_by_bets(market, staked, rest);
        let (m, t) = ledger_after_bets(market, staked, rest)->Some_0;
        let c = bet_against(m, t, bets.last().0);
        let id0 = c.outcome.id;
        let t2 = ledger_after_bets(market, staked, bets)->Some_0.1;
        assert(t2 == t.insert(id0, bet_placed(c, bets.last().1).outcome.total_staked));
        assert(t2.dom() =~= staked.dom());
        assert forall|id: u8| #[trigger] t2.contains_key(id) implies t2[id] == staked[id]
            + bets_total_on(bets, id) by {
            assert(t.contains_key(id));
        }
    }
    assert forall|k: int| 0 <= k < bets.len() implies #[trigger] bet_lowers_nothing(
        market,
        staked,
        bets,
        k,
    ) by {
        let pre = bets.take(k + 1);
        assert(pre.drop_last() =~= bets.take(k));
        assert(pre.last() == bets[k]);
        assert(ledger_after_bets(market, staked, pre) is Some);
        assert(ledger_after_bets(market, staked, bets.take(k)) is Some);
    }
}

} // verus!
