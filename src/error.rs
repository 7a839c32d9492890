use vstd::prelude::*;

verus! {

/// Every way an operation of the ledger can fail.
#[derive(Clone, Copy, Debug, PartialEq, Eq, Structural)]
pub enum LpStakingError {
    InvalidAmount,
    InsufficientBalance,
    InsufficientLpTokens,
    InsufficientStaked,
    EmptyPool,
    MathOverflow,
    InvalidEmissionType,
    Unauthorized,
    InsufficientRewardVault,
    InvalidDecayFactor,
    InvalidBlocksPerPeriod,
    NoRewardToClaim,
}

impl LpStakingError {
    /// The human-readable message of the error.
    pub fn message(&self) -> (r: &'static str) {
        match self {
            LpStakingError::InvalidAmount => "Invalid amount: must be greater than zero",
            LpStakingError::InsufficientBalance => "Insufficient balance",
            LpStakingError::InsufficientLpTokens => "Insufficient LP tokens",
            LpStakingError::InsufficientStaked => "Insufficient staked amount",
            LpStakingError::EmptyPool => "Pool is empty, cannot calculate LP ratio",
            LpStakingError::MathOverflow => "Math overflow occurred",
            LpStakingError::InvalidEmissionType => "Invalid emission type",
            LpStakingError::Unauthorized => "Unauthorized: only pool authority can perform this action",
            LpStakingError::InsufficientRewardVault => "Reward vault has insufficient balance",
            LpStakingError::InvalidDecayFactor => "Invalid decay factor: must be <= 10000",
            LpStakingError::InvalidBlocksPerPeriod => "Invalid blocks per period (must be > 0)",
            LpStakingError::NoRewardToClaim => "No reward to claim",
        }
    }
}

} // verus!
