use vstd::prelude::*;

use crate::error::LpStakingError;
use crate::state::{EmissionType, PoolState, RewardConfig, BASIS_POINTS, PRECISION};

verus! {

/// Reward earned since the last settlement by `staked` shares, given the
/// accumulator and the stored reward debt.
pub open spec fn pending_reward_result(staked: u64, acc: u128, debt: u128) -> Result<
    u64,
    LpStakingError,
> {
    let accumulated = staked * acc;
    if staked == 0 {
        Ok(0)
    } else if accumulated > u128::MAX || accumulated < debt {
        Err(LpStakingError::MathOverflow)
    } else if (accumulated - debt) / (PRECISION as int) > u64::MAX {
        Err(LpStakingError::MathOverflow)
    } else {
        Ok(((accumulated - debt) / (PRECISION as int)) as u64)
    }
}

/// Adds `total_reward` spread over `total_staked` shares to the accumulator.
pub open spec fn accumulate_result(acc: u128, total_staked: u64, total_reward: int) -> Result<
    u128,
    LpStakingError,
> {
    let scaled = total_reward * PRECISION;
    if scaled > u128::MAX {
        Err(LpStakingError::MathOverflow)
    } else if acc + scaled / (total_staked as int) > u128::MAX {
        Err(LpStakingError::MathOverflow)
    } else {
        Ok((acc + scaled / (total_staked as int)) as u128)
    }
}

/// The accumulator after `time_elapsed` checkpoints at a fixed emission rate.
pub open spec fn fixed_rate_result(
    acc: u128,
    total_staked: u64,
    emission_rate: u64,
    time_elapsed: int,
) -> Result<u128, LpStakingError> {
    if total_staked == 0 || time_elapsed <= 0 {
        Ok(acc)
    } else {
        accumulate_result(acc, total_staked, emission_rate * time_elapsed)
    }
}

/// `rate` decayed once per period, `periods` times, each step being
/// `rate * decay / 10000` in 128-bit arithmetic; `None` where a product
/// leaves that range.
pub open spec fn decayed_rate(rate: int, decay: int, periods: nat) -> Option<int>
    decreases periods,
{
    if periods == 0 {
        Some(rate)
    } else if rate * decay > u128::MAX {
        None
    } else {
        decayed_rate(rate * decay / (BASIS_POINTS as int), decay, (periods - 1) as nat)
    }
}

/// The per-block emission in force at `current_slot`.
pub open spec fn block_rate_result(
    initial_rate: u64,
    decay_factor: u64,
    blocks_per_period: u64,
    current_slot: u64,
) -> Result<u64, LpStakingError> {
    if blocks_per_period == 0 {
        Err(LpStakingError::InvalidBlocksPerPeriod)
    } else {
        match decayed_rate(
            initial_rate as int,
            decay_factor as int,
            (current_slot / blocks_per_period) as nat,
        ) {
            None => Err(LpStakingError::MathOverflow),
            Some(rate) => if rate > u64::MAX {
                Err(LpStakingError::MathOverflow)
            } else {
                Ok(rate as u64)
            },
        }
    }
}

/// The accumulator after the blocks since the last update, all priced at the
/// rate of the period that `current_slot` falls in.
pub open spec fn block_based_result(
    acc: u128,
    total_staked: u64,
    config: RewardConfig,
    current_slot: u64,
) -> Result<u128, LpStakingError> {
    if total_staked == 0 || current_slot <= config.last_update_slot {
        Ok(acc)
    } else {
        match block_rate_result(
            config.initial_block_rate,
            config.decay_factor,
            config.blocks_per_period,
            current_slot,
        ) {
            Err(e) => Err(e),
            Ok(rate) => accumulate_result(
                acc,
                total_staked,
                rate * (current_slot - config.last_update_slot),
            ),
        }
    }
}

/// The reward configuration after bringing it forward to `current_slot`.
pub open spec fn pool_update_result(
    pool: PoolState,
    config: RewardConfig,
    current_slot: u64,
) -> Result<RewardConfig, LpStakingError> {
    if current_slot <= config.last_update_slot {
        Ok(config)
    } else if pool.total_staked == 0 {
        Ok(RewardConfig { last_update_slot: current_slot, ..config })
    } else {
        let acc = match config.emission_type {
            EmissionType::FixedRate => fixed_rate_result(
                config.acc_reward_per_share,
                pool.total_staked,
                config.emission_rate,
                current_slot - config.last_update_slot,
            ),
            EmissionType::BlockBased => block_based_result(
                config.acc_reward_per_share,
                pool.total_staked,
                config,
                current_slot,
            ),
        };
        match acc {
            Err(e) => Err(e),
            Ok(acc) => Ok(
                RewardConfig { acc_reward_per_share: acc, last_update_slot: current_slot, ..config },
            ),
        }
    }
}

/// A successful update never moves the accumulator or its checkpoint back.
pub proof fn lemma_pool_update_monotone(pool: PoolState, config: RewardConfig, current_slot: u64)
    ensures
        pool_update_result(pool, config, current_slot) matches Ok(c) ==> {
            &&& c.acc_reward_per_share >= config.acc_reward_per_share
            &&& c.last_update_slot >= config.last_update_slot
        },
{
    if current_slot > config.last_update_slot && pool.total_staked > 0 {
        let elapsed = current_slot - config.last_update_slot;
        assert(config.emission_rate * elapsed >= 0) by (nonlinear_arith)
            requires
                config.emission_rate >= 0,
                elapsed >= 0,
        ;
        if let Ok(rate) = block_rate_result(
            config.initial_block_rate,
            config.decay_factor,
            config.blocks_per_period,
            current_slot,
        ) {
            assert(rate * elapsed >= 0) by (nonlinear_arith)
                requires
                    rate >= 0,
                    elapsed >= 0,
            ;
        }
    }
}

/// Updating twice at the same slot: the second update changes nothing.
pub proof fn lemma_update_idempotent(pool: PoolState, config: RewardConfig, current_slot: u64)
    requires
        pool_update_result(pool, config, current_slot) is Ok,
    ensures
        pool_update_result(pool, pool_update_result(pool, config, current_slot)->Ok_0, current_slot)
            == pool_update_result(pool, config, current_slot),
{
}

/// Pending reward of `user_staked` shares: `(user_staked * acc_reward_per_share
/// - reward_debt) / PRECISION`, zero when nothing is staked. A debt above the
/// product, or any overflow, is `MathOverflow`.
pub fn calculate_pending_reward(user_staked: u64, acc_reward_per_share: u128, reward_debt: u128) -> (r:
    Result<u64, LpStakingError>)
    ensures
        r == pending_reward_result(user_staked, acc_reward_per_share, reward_debt),
{
    if user_staked == 0 {
        return Ok(0);
    }
    let accumulated = match (user_staked as u128).checked_mul(acc_reward_per_share) {
        Some(v) => v,
        None => return Err(LpStakingError::MathOverflow),
    };
    if accumulated < reward_debt {
        return Err(LpStakingError::MathOverflow);
    }
    let pending = (accumulated - reward_debt) / PRECISION;
    if pending > u64::MAX as u128 {
        return Err(LpStakingError::MathOverflow);
    }
    Ok(pending as u64)
}

/// Spreads `total_reward` over `total_staked` shares and adds it to `acc`.
fn accumulate(acc: u128, total_staked: u64, total_reward: u128) -> (r: Result<u128, LpStakingError>)
    requires
        total_staked > 0,
    ensures
        r == accumulate_result(acc, total_staked, total_reward as int),
{
    let scaled = match total_reward.checked_mul(PRECISION) {
        Some(v) => v,
        None => return Err(LpStakingError::MathOverflow),
    };
    let per_share = scaled / (total_staked as u128);
    match acc.checked_add(per_share) {
        Some(v) => Ok(v),
        None => Err(LpStakingError::MathOverflow),
    }
}

/// Once `rate * decay / 10000` gives `rate` back, every later period does too.
proof fn lemma_decay_fixed_point(rate: int, decay: int, periods: nat)
    requires
        rate * decay <= u128::MAX,
        rate * decay / (BASIS_POINTS as int) == rate,
    ensures
        decayed_rate(rate, decay, periods) == Some(rate),
    decreases periods,
{
    if periods > 0 {
        lemma_decay_fixed_point(rate, decay, (periods - 1) as nat);
    }
}

/// Reward accrual arithmetic, grouped under one name.
pub struct RewardCalculator;

impl RewardCalculator {
    /// Same as the free `calculate_pending_reward`, with the debt before the
    /// accumulator.
    pub fn calculate_pending_reward(user_staked: u64, reward_debt: u128, acc_reward_per_share: u128) -> (r:
        Result<u64, LpStakingError>)
        ensures
            r == pending_reward_result(user_staked, acc_reward_per_share, reward_debt),
    {
        calculate_pending_reward(user_staked, acc_reward_per_share, reward_debt)
    }

    /// The accumulator after `time_elapsed` checkpoints at `emission_rate`
    /// per checkpoint: `acc + emission_rate * time_elapsed * PRECISION /
    /// total_staked`, unchanged when nothing is staked or no time passed.
    pub fn update_fixed_rate_reward(
        acc_reward_per_share: u128,
        total_staked: u64,
        emission_rate: u64,
        time_elapsed: i64,
    ) -> (r: Result<u128, LpStakingError>)
        ensures
            r == fixed_rate_result(
                acc_reward_per_share,
                total_staked,
                emission_rate,
                time_elapsed as int,
            ),
    {
        if total_staked == 0 || time_elapsed <= 0 {
            return Ok(acc_reward_per_share);
        }
        assert((emission_rate as u128) * (time_elapsed as u128) <= u128::MAX) by (nonlinear_arith)
            requires
                0 < time_elapsed <= i64::MAX,
                emission_rate <= u64::MAX,
        ;
        let total_reward = (emission_rate as u128) * (time_elapsed as u128);
        accumulate(acc_reward_per_share, total_staked, total_reward)
    }

    /// The per-block emission at `current_slot`: `initial_rate` decayed by
    /// `decay_factor / 10000` once for each whole period before it. The decay
    /// is applied step by step; it stops early once a step no longer changes
    /// the rate, since no later step would.
    pub fn calculate_block_rate(
        initial_rate: u64,
        decay_factor: u64,
        blocks_per_period: u64,
        current_slot: u64,
    ) -> (r: Result<u64, LpStakingError>)
        ensures
            r == block_rate_result(initial_rate, decay_factor, blocks_per_period, current_slot),
    {
        if blocks_per_period == 0 {
            return Err(LpStakingError::InvalidBlocksPerPeriod);
        }
        let period = current_slot / blocks_per_period;
        let mut rate: u128 = initial_rate as u128;
        let mut i: u64 = 0;
        while i < period
            invariant
                blocks_per_period > 0,
                period == current_slot / blocks_per_period,
                i <= period,
                decayed_rate(initial_rate as int, decay_factor as int, period as nat)
                    == decayed_rate(rate as int, decay_factor as int, (period - i) as nat),
            decreases period - i,
        {
            let next = match rate.checked_mul(decay_factor as u128) {
                Some(v) => v / (BASIS_POINTS as u128),
                None => {
                    assert(decayed_rate(rate as int, decay_factor as int, (period - i) as nat)
                        is None);
                    return Err(LpStakingError::MathOverflow);
                },
            };
            if next == rate {
                proof {
                    lemma_decay_fixed_point(rate as int, decay_factor as int, (period - i) as nat);
                    lemma_decay_fixed_point(rate as int, decay_factor as int, 0);
                }
                i = period;
            } else {
                rate = next;
                i = i + 1;
            }
        }
        if rate > u64::MAX as u128 {
            return Err(LpStakingError::MathOverflow);
        }
        Ok(rate as u64)
    }

    /// The accumulator after the blocks since `config.last_update_slot`, all
    /// priced at the rate of the period that `current_slot` falls in (the
    /// periods crossed on the way are not priced separately).
    pub fn update_block_based_reward(
        acc_reward_per_share: u128,
        total_staked: u64,
        config: &RewardConfig,
        current_slot: u64,
    ) -> (r: Result<u128, LpStakingError>)
        ensures
            r == block_based_result(acc_reward_per_share, total_staked, *config, current_slot),
    {
        if total_staked == 0 || current_slot <= config.last_update_slot {
            return Ok(acc_reward_per_share);
        }
        let blocks_elapsed = current_slot - config.last_update_slot;
        let current_rate = match Self::calculate_block_rate(
            config.initial_block_rate,
            config.decay_factor,
            config.blocks_per_period,
            current_slot,
        ) {
            Ok(rate) => rate,
            Err(e) => return Err(e),
        };
        assert((current_rate as u128) * (blocks_elapsed as u128) <= u128::MAX) by (nonlinear_arith)
            requires
                current_rate <= u64::MAX,
                blocks_elapsed <= u64::MAX,
        ;
        let total_reward = (current_rate as u128) * (blocks_elapsed as u128);
        accumulate(acc_reward_per_share, total_staked, total_reward)
    }
}

/// Brings the accumulator forward to `current_slot`. A slot at or before the
/// last update changes nothing; while nothing is staked only the checkpoint
/// moves. On error the configuration is left as it was.
pub fn update_pool_reward(pool_state: &PoolState, reward_config: &mut RewardConfig, current_slot: u64) -> (r:
    Result<(), LpStakingError>)
    ensures
        match pool_update_result(*pool_state, *old(reward_config), current_slot) {
            Ok(c) => r == Ok::<(), LpStakingError>(()) && *final(reward_config) == c,
            Err(e) => r == Err::<(), LpStakingError>(e) && *final(reward_config) == *old(
                reward_config,
            ),
        },
        final(reward_config).acc_reward_per_share >= old(reward_config).acc_reward_per_share,
        final(reward_config).last_update_slot >= old(reward_config).last_update_slot,
{
    if current_slot <= reward_config.last_update_slot {
        return Ok(());
    }
    if pool_state.total_staked == 0 {
        reward_config.last_update_slot = current_slot;
        return Ok(());
    }
    let acc = match reward_config.emission_type {
        EmissionType::FixedRate => {
            let slot_diff = current_slot - reward_config.last_update_slot;
            assert((reward_config.emission_rate as u128) * (slot_diff as u128) <= u128::MAX)
                by (nonlinear_arith)
                requires
                    reward_config.emission_rate <= u64::MAX,
                    slot_diff <= u64::MAX,
            ;
            accumulate(
                reward_config.acc_reward_per_share,
                pool_state.total_staked,
                (reward_config.emission_rate as u128) * (slot_diff as u128),
            )
        },
        EmissionType::BlockBased => RewardCalculator::update_block_based_reward(
            reward_config.acc_reward_per_share,
            pool_state.total_staked,
            reward_config,
            current_slot,
        ),
    };
    match acc {
        Ok(acc) => {
            reward_config.acc_reward_per_share = acc;
            reward_config.last_update_slot = current_slot;
            Ok(())
        },
        Err(e) => Err(e),
    }
}

} // verus!
