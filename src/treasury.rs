use vstd::prelude::*;
use crate::errors::PredictionMarketError;
use crate::identity::Identity;
use crate::state::PlatformConfig;

verus! {

/// What a fee sweep reads: the caller, the configuration and the fee
/// holding area with its current balance.
#[derive(Clone, Debug)]
pub struct WithdrawFees {
    /// The caller, who must be the platform administrator.
    pub admin: Identity,
    pub platform_config: PlatformConfig,
    /// The holding area the sweep draws from; it must be the platform's treasury.
    pub treasury_account: Identity,
    /// The balance of that holding area.
    pub treasury_balance: u64,
}

/// The result of a fee sweep: the whole balance to move to the administrator,
/// or the first failing precondition.
pub open spec fn withdraw_fees_result(c: WithdrawFees) -> Result<u64, PredictionMarketError> {
    if c.admin != c.platform_config.admin {
        Err(PredictionMarketError::UnauthorizedAdmin)
    } else if c.treasury_account != c.platform_config.treasury {
        Err(PredictionMarketError::UnauthorizedAdmin)
    } else if c.treasury_balance == 0 {
        Err(PredictionMarketError::InsufficientLiquidity)
    } else {
        Ok(c.treasury_balance)
    }
}

/// Decides a fee sweep. It changes no record of the engine: on success the
/// returned amount is moved from the treasury to the administrator.
pub fn withdraw_fees(ctx: &WithdrawFees) -> (r: Result<u64, PredictionMarketError>)
    ensures
        r == withdraw_fees_result(*ctx),
{
    if !ctx.admin.same_as(&ctx.platform_config.admin) {
        return Err(PredictionMarketError::UnauthorizedAdmin);
    }
    if !ctx.treasury_account.same_as(&ctx.platform_config.treasury) {
        return Err(PredictionMarketError::UnauthorizedAdmin);
    }
    if ctx.treasury_balance == 0 {
        return Err(PredictionMarketError::InsufficientLiquidity);
    }
    Ok(ctx.treasury_balance)
}

} // verus!
