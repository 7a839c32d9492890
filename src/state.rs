use vstd::prelude::*;

verus! {

/// A 32-byte account address.
pub type Address = [u8; 32];

/// Fixed-point scale of the reward accumulator.
pub const PRECISION: u128 = 1_000_000_000_000;

/// Basis-point denominator of the decay factor.
pub const BASIS_POINTS: u64 = 10_000;

/// Smallest accepted deposit of the base asset.
pub const MIN_DEPOSIT_AMOUNT: u64 = 1_000_000;

/// How rewards are emitted.
#[derive(Clone, Copy, Debug, PartialEq, Eq, Structural)]
pub enum EmissionType {
    /// A fixed amount per checkpoint.
    FixedRate,
    /// A per-block amount that decays once per period.
    BlockBased,
}

/// Totals of one pool.
#[derive(Clone, Copy, Debug)]
pub struct PoolState {
    pub authority: Address,
    pub wrapped_usdc_mint: Address,
    pub lp_token_mint: Address,
    pub pool_usdc_account: Address,
    pub total_deposited: u64,
    pub total_lp_supply: u64,
    pub total_staked: u64,
    pub reward_vault: Address,
    pub bump: u8,
}

impl PoolState {
    /// The pool's own invariant: no shares without deposits and the other
    /// way round, and never more staked than issued.
    pub open spec fn wf(&self) -> bool {
        &&& (self.total_lp_supply == 0 <==> self.total_deposited == 0)
        &&& self.total_staked <= self.total_lp_supply
    }
}

/// Emission policy and global reward accumulator of a pool.
#[derive(Clone, Copy, Debug)]
pub struct RewardConfig {
    pub pool: Address,
    pub emission_type: EmissionType,
    pub emission_rate: u64,
    pub initial_block_rate: u64,
    pub decay_factor: u64,
    pub blocks_per_period: u64,
    pub last_update_slot: u64,
    pub acc_reward_per_share: u128,
    pub bump: u8,
}

impl RewardConfig {
    /// Parameters that a block-based policy needs.
    pub open spec fn wf(&self) -> bool {
        self.emission_type == EmissionType::BlockBased ==> {
            &&& self.decay_factor <= BASIS_POINTS
            &&& self.blocks_per_period > 0
        }
    }
}

/// One owner's shares in one pool.
#[derive(Clone, Copy, Debug)]
pub struct UserPosition {
    pub owner: Address,
    pub pool: Address,
    pub lp_balance: u64,
    pub staked_amount: u64,
    pub reward_debt: u128,
    pub pending_reward: u64,
    pub last_stake_time: i64,
    pub last_claim_time: i64,
    pub bump: u8,
}

impl UserPosition {
    /// A fresh, empty position of `owner` in `pool`.
    pub fn new(owner: Address, pool: Address, bump: u8) -> (r: UserPosition)
        ensures
            r.owner == owner,
            r.pool == pool,
            r.lp_balance == 0,
            r.staked_amount == 0,
            r.reward_debt == 0,
            r.pending_reward == 0,
            r.last_stake_time == 0,
            r.last_claim_time == 0,
            r.bump == bump,
    {
        UserPosition {
            owner,
            pool,
            lp_balance: 0,
            staked_amount: 0,
            reward_debt: 0,
            pending_reward: 0,
            last_stake_time: 0,
            last_claim_time: 0,
            bump,
        }
    }
}

} // verus!
