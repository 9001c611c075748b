use vstd::prelude::*;

verus! {

/// Every way an operation of the engine can be rejected.
#[derive(Clone, Copy, Debug, PartialEq, Eq, Structural)]
pub enum PredictionMarketError {
    PlatformPaused,
    InvalidTimeRange,
    InvalidStartTime,
    MarketNotActive,
    MarketAlreadyClosed,
    MarketNotResolved,
    InvalidBetAmount,
    UnauthorizedOracle,
    AlreadyClaimed,
    InsufficientLiquidity,
    OutcomeNotFound,
    NotWinner,
    UnauthorizedAdmin,
    MarketNotEnded,
    MathOverflow,
    InvalidMint,
    MarketAlreadyResolved,
}

impl PredictionMarketError {
    /// A human-readable description of the rejection.
    pub fn message(&self) -> (r: &'static str) {
        match self {
            PredictionMarketError::PlatformPaused => "Platform is currently paused",
            PredictionMarketError::InvalidTimeRange => "End time must be after start time",
            PredictionMarketError::InvalidStartTime => "Market start time must be in the future",
            PredictionMarketError::MarketNotActive => "Market is not in active state",
            PredictionMarketError::MarketAlreadyClosed => "Market is already closed",
            PredictionMarketError::MarketNotResolved => "Market is not resolved yet",
            PredictionMarketError::InvalidBetAmount => "Invalid bet amount",
            PredictionMarketError::UnauthorizedOracle => "Unauthorized oracle",
            PredictionMarketError::AlreadyClaimed => "Position already claimed",
            PredictionMarketError::InsufficientLiquidity => "Insufficient liquidity",
            PredictionMarketError::OutcomeNotFound => "Outcome not found",
            PredictionMarketError::NotWinner => "Not the bet winner",
            PredictionMarketError::UnauthorizedAdmin => "Unauthorized admin",
            PredictionMarketError::MarketNotEnded => "Market has not reached end time",
            PredictionMarketError::MathOverflow => "Math overflow",
            PredictionMarketError::InvalidMint => "Invalid mint, expected a different token mint",
            PredictionMarketError::MarketAlreadyResolved => "Market is already resolved",
        }
    }
}

} // verus!
