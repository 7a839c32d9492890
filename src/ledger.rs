use vstd::prelude::*;

use crate::error::LpStakingError;
use crate::reward_calculator::{
    calculate_pending_reward, pending_reward_result, pool_update_result, update_pool_reward,
};
use crate::state::{
    PRECISION, Address, EmissionType, PoolState, RewardConfig, UserPosition, BASIS_POINTS, MIN_DEPOSIT_AMOUNT,
};

verus! {

/// Addresses and bumps that a new pool is registered under.
#[derive(Clone, Copy, Debug)]
pub struct PoolAccounts {
    pub pool: Address,
    pub authority: Address,
    pub wrapped_usdc_mint: Address,
    pub lp_token_mint: Address,
    pub pool_usdc_account: Address,
    pub reward_vault: Address,
    pub pool_bump: u8,
    pub config_bump: u8,
}

/// Shares minted for a deposit: one for one into an empty pool, else
/// `floor(amount * total_lp_supply / total_deposited)`.
pub open spec fn lp_amount_result(deposit_amount: u64, total_deposited: u64, total_lp_supply: u64) -> Result<
    u64,
    LpStakingError,
> {
    if total_deposited == 0 || total_lp_supply == 0 {
        Ok(deposit_amount)
    } else if deposit_amount * total_lp_supply / (total_deposited as int) > u64::MAX {
        Err(LpStakingError::MathOverflow)
    } else {
        Ok((deposit_amount * total_lp_supply / (total_deposited as int)) as u64)
    }
}

/// Base asset paid out for `lp_amount` shares:
/// `floor(lp_amount * total_deposited / (total_lp_supply as int))`.
pub open spec fn withdraw_amount_result(lp_amount: u64, total_deposited: u64, total_lp_supply: u64) -> Result<
    u64,
    LpStakingError,
> {
    if total_lp_supply == 0 {
        Err(LpStakingError::EmptyPool)
    } else if lp_amount * total_deposited / (total_lp_supply as int) > u64::MAX {
        Err(LpStakingError::MathOverflow)
    } else {
        Ok((lp_amount * total_deposited / (total_lp_supply as int)) as u64)
    }
}

/// The new pool and its reward configuration, or why they cannot be made.
pub open spec fn initialize_result(
    accounts: PoolAccounts,
    emission_type: EmissionType,
    emission_rate: u64,
    initial_block_rate: u64,
    decay_factor: u64,
    blocks_per_period: u64,
    current_slot: u64,
) -> Result<(PoolState, RewardConfig), LpStakingError> {
    if emission_type == EmissionType::BlockBased && decay_factor > BASIS_POINTS {
        Err(LpStakingError::InvalidDecayFactor)
    } else if emission_type == EmissionType::BlockBased && blocks_per_period == 0 {
        Err(LpStakingError::InvalidBlocksPerPeriod)
    } else {
        Ok(
            (
                PoolState {
                    authority: accounts.authority,
                    wrapped_usdc_mint: accounts.wrapped_usdc_mint,
                    lp_token_mint: accounts.lp_token_mint,
                    pool_usdc_account: accounts.pool_usdc_account,
                    total_deposited: 0,
                    total_lp_supply: 0,
                    total_staked: 0,
                    reward_vault: accounts.reward_vault,
                    bump: accounts.pool_bump,
                },
                RewardConfig {
                    pool: accounts.pool,
                    emission_type,
                    emission_rate,
                    initial_block_rate,
                    decay_factor,
                    blocks_per_period,
                    last_update_slot: current_slot,
                    acc_reward_per_share: 0,
                    bump: accounts.config_bump,
                },
            ),
        )
    }
}

/// Pool and position after a deposit of `amount`, with the shares minted.
pub open spec fn deposit_result(pool: PoolState, position: UserPosition, amount: u64) -> Result<
    (PoolState, UserPosition, u64),
    LpStakingError,
> {
    if amount < MIN_DEPOSIT_AMOUNT {
        Err(LpStakingError::InvalidAmount)
    } else {
        match lp_amount_result(amount, pool.total_deposited, pool.total_lp_supply) {
            Err(e) => Err(e),
            Ok(shares) => if pool.total_deposited + amount > u64::MAX || pool.total_lp_supply
                + shares > u64::MAX || position.lp_balance + shares > u64::MAX {
                Err(LpStakingError::MathOverflow)
            } else {
                Ok(
                    (
                        PoolState {
                            total_deposited: (pool.total_deposited + amount) as u64,
                            total_lp_supply: (pool.total_lp_supply + shares) as u64,
                            ..pool
                        },
                        UserPosition {
                            lp_balance: (position.lp_balance + shares) as u64,
                            ..position
                        },
                        shares,
                    ),
                )
            },
        }
    }
}

/// Pool and position after `user` redeems `lp_amount` shares, with the base
/// asset paid out.
pub open spec fn withdraw_result(
    pool: PoolState,
    position: UserPosition,
    user: Address,
    lp_amount: u64,
) -> Result<(PoolState, UserPosition, u64), LpStakingError> {
    if position.owner@ != user@ {
        Err(LpStakingError::Unauthorized)
    } else if lp_amount == 0 {
        Err(LpStakingError::InvalidAmount)
    } else if position.lp_balance < lp_amount {
        Err(LpStakingError::InsufficientLpTokens)
    } else if pool.total_lp_supply < lp_amount {
        Err(LpStakingError::EmptyPool)
    } else {
        match withdraw_amount_result(lp_amount, pool.total_deposited, pool.total_lp_supply) {
            Err(e) => Err(e),
            Ok(out) => if pool.total_deposited < out {
                Err(LpStakingError::InsufficientBalance)
            } else {
                Ok(
                    (
                        PoolState {
                            total_deposited: (pool.total_deposited - out) as u64,
                            total_lp_supply: (pool.total_lp_supply - lp_amount) as u64,
                            ..pool
                        },
                        UserPosition {
                            lp_balance: (position.lp_balance - lp_amount) as u64,
                            ..position
                        },
                        out,
                    ),
                )
            },
        }
    }
}

/// Position, pool and configuration after `user` stakes `amount` shares at
/// `current_slot`: rewards are brought forward and settled on the old stake
/// before the stake changes.
pub open spec fn stake_result(
    pool: PoolState,
    config: RewardConfig,
    position: UserPosition,
    user: Address,
    amount: u64,
    current_slot: u64,
    now: i64,
) -> Result<(PoolState, RewardConfig, UserPosition), LpStakingError> {
    if position.owner@ != user@ {
        Err(LpStakingError::Unauthorized)
    } else if amount == 0 {
        Err(LpStakingError::InvalidAmount)
    } else if position.lp_balance < amount {
        Err(LpStakingError::InsufficientLpTokens)
    } else {
        match pool_update_result(pool, config, current_slot) {
            Err(e) => Err(e),
            Ok(c) => match pending_reward_result(
                position.staked_amount,
                c.acc_reward_per_share,
                position.reward_debt,
            ) {
                Err(e) => Err(e),
                Ok(pending) => {
                    let staked = position.staked_amount + amount;
                    if position.pending_reward + pending > u64::MAX || staked > u64::MAX
                        || pool.total_staked + amount > u64::MAX || staked
                        * c.acc_reward_per_share > u128::MAX {
                        Err(LpStakingError::MathOverflow)
                    } else {
                        Ok(
                            (
                                PoolState {
                                    total_staked: (pool.total_staked + amount) as u64,
                                    ..pool
                                },
                                c,
                                UserPosition {
                                    lp_balance: (position.lp_balance - amount) as u64,
                                    staked_amount: staked as u64,
                                    reward_debt: (staked * c.acc_reward_per_share) as u128,
                                    pending_reward: (position.pending_reward + pending) as u64,
                                    last_stake_time: now,
                                    ..position
                                },
                            ),
                        )
                    }
                },
            },
        }
    }
}

/// Position, pool and configuration after `user` unstakes `amount` shares at
/// `current_slot`, settled on the old stake first.
pub open spec fn unstake_result(
    pool: PoolState,
    config: RewardConfig,
    position: UserPosition,
    user: Address,
    amount: u64,
    current_slot: u64,
) -> Result<(PoolState, RewardConfig, UserPosition), LpStakingError> {
    if position.owner@ != user@ {
        Err(LpStakingError::Unauthorized)
    } else if amount == 0 {
        Err(LpStakingError::InvalidAmount)
    } else if position.staked_amount < amount {
        Err(LpStakingError::InsufficientStaked)
    } else {
        match pool_update_result(pool, config, current_slot) {
            Err(e) => Err(e),
            Ok(c) => match pending_reward_result(
                position.staked_amount,
                c.acc_reward_per_share,
                position.reward_debt,
            ) {
                Err(e) => Err(e),
                Ok(pending) => {
                    let staked = position.staked_amount - amount;
                    if position.pending_reward + pending > u64::MAX || position.lp_balance + amount
                        > u64::MAX || pool.total_staked < amount || staked * c.acc_reward_per_share
                        > u128::MAX {
                        Err(LpStakingError::MathOverflow)
                    } else {
                        Ok(
                            (
                                PoolState {
                                    total_staked: (pool.total_staked - amount) as u64,
                                    ..pool
                                },
                                c,
                                UserPosition {
                                    lp_balance: (position.lp_balance + amount) as u64,
                                    staked_amount: staked as u64,
                                    reward_debt: (staked * c.acc_reward_per_share) as u128,
                                    pending_reward: (position.pending_reward + pending) as u64,
                                    ..position
                                },
                            ),
                        )
                    }
                },
            },
        }
    }
}

/// Configuration and position after `user` claims at `current_slot`, with the
/// reward paid out of a vault holding `vault_balance`.
pub open spec fn claim_result(
    pool: PoolState,
    config: RewardConfig,
    position: UserPosition,
    user: Address,
    current_slot: u64,
    vault_balance: u64,
    now: i64,
) -> Result<(RewardConfig, UserPosition, u64), LpStakingError> {
    if position.owner@ != user@ {
        Err(LpStakingError::Unauthorized)
    } else {
        match pool_update_result(pool, config, current_slot) {
            Err(e) => Err(e),
            Ok(c) => match pending_reward_result(
                position.staked_amount,
                c.acc_reward_per_share,
                position.reward_debt,
            ) {
                Err(e) => Err(e),
                Ok(pending) => {
                    let total = position.pending_reward + pending;
                    if total > u64::MAX {
                        Err(LpStakingError::MathOverflow)
                    } else if total == 0 {
                        Err(LpStakingError::NoRewardToClaim)
                    } else if vault_balance < total {
                        Err(LpStakingError::InsufficientRewardVault)
                    } else {
                        Ok(
                            (
                                c,
                                UserPosition {
                                    reward_debt: if position.staked_amount > 0 {
                                        (position.staked_amount * c.acc_reward_per_share) as u128
                                    } else {
                                        position.reward_debt
                                    },
                                    pending_reward: 0,
                                    last_claim_time: now,
                                    ..position
                                },
                                total as u64,
                            ),
                        )
                    }
                },
            },
        }
    }
}

/// Whether two addresses are the same.
pub(crate) fn same_address(a: &Address, b: &Address) -> (r: bool)
    ensures
        r == (a@ == b@),
{
    let mut i: usize = 0;
    while i < 32
        invariant
            i <= 32,
            a@.len() == 32,
            b@.len() == 32,
            forall|j: int| 0 <= j < i ==> a@[j] == b@[j],
        decreases 32 - i,
    {
        if a[i] != b[i] {
            return false;
        }
        i = i + 1;
    }
    assert(a@ =~= b@);
    true
}

/// Shares minted for a deposit of `deposit_amount` into a pool holding
/// `total_deposited` and having issued `total_lp_supply` shares.
pub fn calculate_lp_amount(deposit_amount: u64, total_deposited: u64, total_lp_supply: u64) -> (r:
    Result<u64, LpStakingError>)
    ensures
        r == lp_amount_result(deposit_amount, total_deposited, total_lp_supply),
        total_deposited == 0 && total_lp_supply == 0 ==> r == Ok::<u64, LpStakingError>(
            deposit_amount,
        ),
{
    if total_deposited == 0 || total_lp_supply == 0 {
        return Ok(deposit_amount);
    }
    assert((deposit_amount as u128) * (total_lp_supply as u128) <= u128::MAX) by (nonlinear_arith)
        requires
            deposit_amount <= u64::MAX,
            total_lp_supply <= u64::MAX,
    ;
    let shares = (deposit_amount as u128) * (total_lp_supply as u128) / (total_deposited as u128);
    if shares > u64::MAX as u128 {
        return Err(LpStakingError::MathOverflow);
    }
    Ok(shares as u64)
}

/// Base asset paid out for `lp_amount` shares.
pub fn calculate_withdraw_amount(lp_amount: u64, total_deposited: u64, total_lp_supply: u64) -> (r:
    Result<u64, LpStakingError>)
    ensures
        r == withdraw_amount_result(lp_amount, total_deposited, total_lp_supply),
{
    if total_lp_supply == 0 {
        return Err(LpStakingError::EmptyPool);
    }
    assert((lp_amount as u128) * (total_deposited as u128) <= u128::MAX) by (nonlinear_arith)
        requires
            lp_amount <= u64::MAX,
            total_deposited <= u64::MAX,
    ;
    let out = (lp_amount as u128) * (total_deposited as u128) / (total_lp_supply as u128);
    if out > u64::MAX as u128 {
        return Err(LpStakingError::MathOverflow);
    }
    Ok(out as u64)
}

/// Creates a pool with zeroed totals and a reward configuration whose
/// accumulator starts at zero and whose checkpoint is `current_slot`. A
/// block-based policy needs `decay_factor <= 10000` and `blocks_per_period > 0`.
pub fn initialize(
    accounts: PoolAccounts,
    emission_type: EmissionType,
    emission_rate: u64,
    initial_block_rate: u64,
    decay_factor: u64,
    blocks_per_period: u64,
    current_slot: u64,
) -> (r: Result<(PoolState, RewardConfig), LpStakingError>)
    ensures
        r == initialize_result(
            accounts,
            emission_type,
            emission_rate,
            initial_block_rate,
            decay_factor,
            blocks_per_period,
            current_slot,
        ),
        r matches Ok((p, c)) ==> p.wf() && c.wf(),
{
    if emission_type == EmissionType::BlockBased {
        if decay_factor > BASIS_POINTS {
            return Err(LpStakingError::InvalidDecayFactor);
        }
        if blocks_per_period == 0 {
            return Err(LpStakingError::InvalidBlocksPerPeriod);
        }
    }
    let pool = PoolState {
        authority: accounts.authority,
        wrapped_usdc_mint: accounts.wrapped_usdc_mint,
        lp_token_mint: accounts.lp_token_mint,
        pool_usdc_account: accounts.pool_usdc_account,
        total_deposited: 0,
        total_lp_supply: 0,
        total_staked: 0,
        reward_vault: accounts.reward_vault,
        bump: accounts.pool_bump,
    };
    let config = RewardConfig {
        pool: accounts.pool,
        emission_type,
        emission_rate,
        initial_block_rate,
        decay_factor,
        blocks_per_period,
        last_update_slot: current_slot,
        acc_reward_per_share: 0,
        bump: accounts.config_bump,
    };
    Ok((pool, config))
}

/// Deposits `amount` of the base asset and credits the shares it buys to the
/// position; returns the number of shares to mint. Nothing changes on error.
pub fn deposit(pool_state: &mut PoolState, user_position: &mut UserPosition, amount: u64) -> (r:
    Result<u64, LpStakingError>)
    ensures
        match deposit_result(*old(pool_state), *old(user_position), amount) {
            Ok((p, u, shares)) => r == Ok::<u64, LpStakingError>(shares) && *final(pool_state) == p
                && *final(user_position) == u,
            Err(e) => r == Err::<u64, LpStakingError>(e) && *final(pool_state) == *old(pool_state)
                && *final(user_position) == *old(user_position),
        },
{
    if amount < MIN_DEPOSIT_AMOUNT {
        return Err(LpStakingError::InvalidAmount);
    }
    let shares = match calculate_lp_amount(
        amount,
        pool_state.total_deposited,
        pool_state.total_lp_supply,
    ) {
        Ok(v) => v,
        Err(e) => return Err(e),
    };
    let total_deposited = match pool_state.total_deposited.checked_add(amount) {
        Some(v) => v,
        None => return Err(LpStakingError::MathOverflow),
    };
    let total_lp_supply = match pool_state.total_lp_supply.checked_add(shares) {
        Some(v) => v,
        None => return Err(LpStakingError::MathOverflow),
    };
    let lp_balance = match user_position.lp_balance.checked_add(shares) {
        Some(v) => v,
        None => return Err(LpStakingError::MathOverflow),
    };
    pool_state.total_deposited = total_deposited;
    pool_state.total_lp_supply = total_lp_supply;
    user_position.lp_balance = lp_balance;
    Ok(shares)
}

/// Redeems `lp_amount` of the position's unstaked shares; returns the base
/// asset to pay out. Nothing changes on error.
pub fn withdraw(
    pool_state: &mut PoolState,
    user_position: &mut UserPosition,
    user: &Address,
    lp_amount: u64,
) -> (r: Result<u64, LpStakingError>)
    ensures
        match withdraw_result(*old(pool_state), *old(user_position), *user, lp_amount) {
            Ok((p, u, out)) => r == Ok::<u64, LpStakingError>(out) && *final(pool_state) == p
                && *final(user_position) == u,
            Err(e) => r == Err::<u64, LpStakingError>(e) && *final(pool_state) == *old(pool_state)
                && *final(user_position) == *old(user_position),
        },
{
    if !same_address(&user_position.owner, user) {
        return Err(LpStakingError::Unauthorized);
    }
    if lp_amount == 0 {
        return Err(LpStakingError::InvalidAmount);
    }
    if user_position.lp_balance < lp_amount {
        return Err(LpStakingError::InsufficientLpTokens);
    }
    if pool_state.total_lp_supply < lp_amount {
        return Err(LpStakingError::EmptyPool);
    }
    let out = match calculate_withdraw_amount(
        lp_amount,
        pool_state.total_deposited,
        pool_state.total_lp_supply,
    ) {
        Ok(v) => v,
        Err(e) => return Err(e),
    };
    if pool_state.total_deposited < out {
        return Err(LpStakingError::InsufficientBalance);
    }
    pool_state.total_deposited = pool_state.total_deposited - out;
    pool_state.total_lp_supply = pool_state.total_lp_supply - lp_amount;
    user_position.lp_balance = user_position.lp_balance - lp_amount;
    Ok(out)
}

/// Moves `amount` of the position's unstaked shares into its stake at
/// `current_slot`. The accumulator is brought forward and the reward of the
/// old stake is added to the pending reward before the stake changes; the
/// reward debt is then reset to the new stake. Nothing changes on error.
pub fn stake(
    pool_state: &mut PoolState,
    reward_config: &mut RewardConfig,
    user_position: &mut UserPosition,
    user: &Address,
    amount: u64,
    current_slot: u64,
    now: i64,
) -> (r: Result<(), LpStakingError>)
    ensures
        match stake_result(
            *old(pool_state),
            *old(reward_config),
            *old(user_position),
            *user,
            amount,
            current_slot,
            now,
        ) {
            Ok((p, c, u)) => r == Ok::<(), LpStakingError>(()) && *final(pool_state) == p
                && *final(reward_config) == c && *final(user_position) == u,
            Err(e) => r == Err::<(), LpStakingError>(e) && *final(pool_state) == *old(pool_state)
                && *final(reward_config) == *old(reward_config) && *final(user_position) == *old(
                user_position,
            ),
        },
{
    if !same_address(&user_position.owner, user) {
        return Err(LpStakingError::Unauthorized);
    }
    if amount == 0 {
        return Err(LpStakingError::InvalidAmount);
    }
    if user_position.lp_balance < amount {
        return Err(LpStakingError::InsufficientLpTokens);
    }
    let mut config = *reward_config;
    match update_pool_reward(pool_state, &mut config, current_slot) {
        Ok(()) => {},
        Err(e) => return Err(e),
    }
    let acc = config.acc_reward_per_share;
    let pending = match calculate_pending_reward(
        user_position.staked_amount,
        acc,
        user_position.reward_debt,
    ) {
        Ok(v) => v,
        Err(e) => return Err(e),
    };
    let pending_reward = match user_position.pending_reward.checked_add(pending) {
        Some(v) => v,
        None => return Err(LpStakingError::MathOverflow),
    };
    let staked = match user_position.staked_amount.checked_add(amount) {
        Some(v) => v,
        None => return Err(LpStakingError::MathOverflow),
    };
    let total_staked = match pool_state.total_staked.checked_add(amount) {
        Some(v) => v,
        None => return Err(LpStakingError::MathOverflow),
    };
    let reward_debt = match (staked as u128).checked_mul(acc) {
        Some(v) => v,
        None => return Err(LpStakingError::MathOverflow),
    };
    *reward_config = config;
    pool_state.total_staked = total_staked;
    user_position.lp_balance = user_position.lp_balance - amount;
    user_position.staked_amount = staked;
    user_position.reward_debt = reward_debt;
    user_position.pending_reward = pending_reward;
    user_position.last_stake_time = now;
    Ok(())
}

/// Moves `amount` of the position's stake back to its unstaked shares at
/// `current_slot`, settling the reward of the old stake first. Nothing
/// changes on error.
pub fn unstake(
    pool_state: &mut PoolState,
    reward_config: &mut RewardConfig,
    user_position: &mut UserPosition,
    user: &Address,
    amount: u64,
    current_slot: u64,
) -> (r: Result<(), LpStakingError>)
    ensures
        match unstake_result(
            *old(pool_state),
            *old(reward_config),
            *old(user_position),
            *user,
            amount,
            current_slot,
        ) {
            Ok((p, c, u)) => r == Ok::<(), LpStakingError>(()) && *final(pool_state) == p
                && *final(reward_config) == c && *final(user_position) == u,
            Err(e) => r == Err::<(), LpStakingError>(e) && *final(pool_state) == *old(pool_state)
                && *final(reward_config) == *old(reward_config) && *final(user_position) == *old(
                user_position,
            ),
        },
{
    if !same_address(&user_position.owner, user) {
        return Err(LpStakingError::Unauthorized);
    }
    if amount == 0 {
        return Err(LpStakingError::InvalidAmount);
    }
    if user_position.staked_amount < amount {
        return Err(LpStakingError::InsufficientStaked);
    }
    let mut config = *reward_config;
    match update_pool_reward(pool_state, &mut config, current_slot) {
        Ok(()) => {},
        Err(e) => return Err(e),
    }
    let acc = config.acc_reward_per_share;
    let pending = match calculate_pending_reward(
        user_position.staked_amount,
        acc,
        user_position.reward_debt,
    ) {
        Ok(v) => v,
        Err(e) => return Err(e),
    };
    let pending_reward = match user_position.pending_reward.checked_add(pending) {
        Some(v) => v,
        None => return Err(LpStakingError::MathOverflow),
    };
    let staked = user_position.staked_amount - amount;
    let lp_balance = match user_position.lp_balance.checked_add(amount) {
        Some(v) => v,
        None => return Err(LpStakingError::MathOverflow),
    };
    let total_staked = match pool_state.total_staked.checked_sub(amount) {
        Some(v) => v,
        None => return Err(LpStakingError::MathOverflow),
    };
    let reward_debt = match (staked as u128).checked_mul(acc) {
        Some(v) => v,
        None => return Err(LpStakingError::MathOverflow),
    };
    *reward_config = config;
    pool_state.total_staked = total_staked;
    user_position.lp_balance = lp_balance;
    user_position.staked_amount = staked;
    user_position.reward_debt = reward_debt;
    user_position.pending_reward = pending_reward;
    Ok(())
}

/// Settles the position at `current_slot` and pays out its whole pending
/// reward from a vault holding `vault_balance`; returns the amount paid.
/// Fails with `NoRewardToClaim` when there is nothing to pay and with
/// `InsufficientRewardVault` when the vault cannot cover it. Nothing changes
/// on error.
pub fn claim(
    pool_state: &PoolState,
    reward_config: &mut RewardConfig,
    user_position: &mut UserPosition,
    user: &Address,
    current_slot: u64,
    vault_balance: u64,
    now: i64,
) -> (r: Result<u64, LpStakingError>)
    ensures
        match claim_result(
            *pool_state,
            *old(reward_config),
            *old(user_position),
            *user,
            current_slot,
            vault_balance,
            now,
        ) {
            Ok((c, u, paid)) => r == Ok::<u64, LpStakingError>(paid) && *final(reward_config) == c
                && *final(user_position) == u,
            Err(e) => r == Err::<u64, LpStakingError>(e) && *final(reward_config) == *old(
                reward_config,
            ) && *final(user_position) == *old(user_position),
        },
{
    if !same_address(&user_position.owner, user) {
        return Err(LpStakingError::Unauthorized);
    }
    let mut config = *reward_config;
    match update_pool_reward(pool_state, &mut config, current_slot) {
        Ok(()) => {},
        Err(e) => return Err(e),
    }
    let acc = config.acc_reward_per_share;
    let pending = match calculate_pending_reward(
        user_position.staked_amount,
        acc,
        user_position.reward_debt,
    ) {
        Ok(v) => v,
        Err(e) => return Err(e),
    };
    let total = match user_position.pending_reward.checked_add(pending) {
        Some(v) => v,
        None => return Err(LpStakingError::MathOverflow),
    };
    if total == 0 {
        return Err(LpStakingError::NoRewardToClaim);
    }
    if vault_balance < total {
        return Err(LpStakingError::InsufficientRewardVault);
    }
    if user_position.staked_amount > 0 {
        assert((user_position.staked_amount as u128) * acc <= u128::MAX);
        user_position.reward_debt = (user_position.staked_amount as u128) * acc;
    }
    *reward_config = config;
    user_position.pending_reward = 0;
    user_position.last_claim_time = now;
    Ok(total)
}

/// Settle before mutate: a position with nothing staked that stakes `a1` at
/// `t1` and then `a2` at `t2` has earned, at `t2`, exactly the reward of `a1`
/// shares over the accumulator's growth between the two stakes; from then on
/// it earns on `a1 + a2` shares from the accumulator at `t2`.
pub proof fn lemma_stake_settles_old_stake(
    pool: PoolState,
    config: RewardConfig,
    position: UserPosition,
    user: Address,
    a1: u64,
    t1: u64,
    now1: i64,
    a2: u64,
    t2: u64,
    now2: i64,
)
    requires
        position.staked_amount == 0,
        stake_result(pool, config, position, user, a1, t1, now1) is Ok,
        ({
            let (pool1, c1, u1) = stake_result(pool, config, position, user, a1, t1, now1)->Ok_0;
            stake_result(pool1, c1, u1, user, a2, t2, now2) is Ok
        }),
    ensures
        ({
            let (pool1, c1, u1) = stake_result(pool, config, position, user, a1, t1, now1)->Ok_0;
            let (pool2, c2, u2) = stake_result(pool1, c1, u1, user, a2, t2, now2)->Ok_0;
            &&& u2.staked_amount == a1 + a2
            &&& u2.pending_reward == position.pending_reward + a1 * (c2.acc_reward_per_share
                - c1.acc_reward_per_share) / (PRECISION as int)
            &&& u2.reward_debt == (a1 + a2) * c2.acc_reward_per_share
            &&& forall|acc: u128|
                #![trigger pending_reward_result(u2.staked_amount, acc, u2.reward_debt)]
                acc >= c2.acc_reward_per_share && (a1 + a2) * acc <= u128::MAX && (a1 + a2) * (acc
                    - c2.acc_reward_per_share) / (PRECISION as int) <= u64::MAX
                    ==> pending_reward_result(u2.staked_amount, acc, u2.reward_debt) == Ok::<
                    u64,
                    LpStakingError,
                >((((a1 + a2) * (acc - c2.acc_reward_per_share)) / (PRECISION as int)) as u64)
        }),
{
    let (pool1, c1, u1) = stake_result(pool, config, position, user, a1, t1, now1)->Ok_0;
    let (pool2, c2, u2) = stake_result(pool1, c1, u1, user, a2, t2, now2)->Ok_0;
    let x1 = c1.acc_reward_per_share as int;
    let x2 = c2.acc_reward_per_share as int;
    assert(a1 * x2 - a1 * x1 == a1 * (x2 - x1)) by (nonlinear_arith);
    let n = a1 + a2;
    assert forall|acc: u128|
        #![trigger pending_reward_result(u2.staked_amount, acc, u2.reward_debt)]
        acc >= c2.acc_reward_per_share && n * acc <= u128::MAX && n * (acc
            - c2.acc_reward_per_share) / (PRECISION as int) <= u64::MAX implies pending_reward_result(
        u2.staked_amount,
        acc,
        u2.reward_debt,
    ) == Ok::<u64, LpStakingError>(((n * (acc - c2.acc_reward_per_share)) / (PRECISION as int)) as u64) by {
        assert(n * acc - n * x2 == n * (acc - x2)) by (nonlinear_arith);
        assert(n * acc >= n * x2) by (nonlinear_arith)
            requires
                acc >= x2,
                n >= 0,
        ;
        if n == 0 {
            assert(n * (acc - x2) == 0);
        }
    }
}

/// With one depositor in an empty pool, withdrawing every share that a
/// deposit of `amount` bought pays back exactly `amount`.
pub proof fn lemma_single_depositor_round_trip(
    pool: PoolState,
    position: UserPosition,
    amount: u64,
)
    requires
        pool.total_deposited == 0,
        pool.total_lp_supply == 0,
        deposit_result(pool, position, amount) is Ok,
    ensures
        ({
            let (pool1, u1, shares) = deposit_result(pool, position, amount)->Ok_0;
            &&& shares == amount
            &&& withdraw_result(pool1, u1, u1.owner, shares) matches Ok((pool2, u2, out)) && out == amount
                && pool2.total_deposited == 0 && pool2.total_lp_supply == 0 && u2.lp_balance
                == position.lp_balance
        }),
{
    let (pool1, u1, shares) = deposit_result(pool, position, amount)->Ok_0;
    assert(amount * amount / (amount as int) == amount) by (nonlinear_arith)
        requires
            amount > 0,
    ;
}

/// Claiming with nothing staked and nothing pending fails with
/// `NoRewardToClaim`, whenever the owner claims and the accumulator can be
/// brought forward; the claim then changes nothing.
pub proof fn lemma_claim_nothing_fails(
    pool: PoolState,
    config: RewardConfig,
    position: UserPosition,
    current_slot: u64,
    vault_balance: u64,
    now: i64,
)
    requires
        position.staked_amount == 0,
        position.pending_reward == 0,
        pool_update_result(pool, config, current_slot) is Ok,
    ensures
        claim_result(pool, config, position, position.owner, current_slot, vault_balance, now)
            == Err::<(RewardConfig, UserPosition, u64), LpStakingError>(
            LpStakingError::NoRewardToClaim,
        ),
{
}

/// Unstaking more than is staked fails with `InsufficientStaked` whenever
/// the owner asks; the unstake then changes nothing.
pub proof fn lemma_unstake_too_much_fails(
    pool: PoolState,
    config: RewardConfig,
    position: UserPosition,
    amount: u64,
    current_slot: u64,
)
    requires
        amount > position.staked_amount,
    ensures
        unstake_result(pool, config, position, position.owner, amount, current_slot)
            == Err::<(PoolState, RewardConfig, UserPosition), LpStakingError>(
            LpStakingError::InsufficientStaked,
        ),
{
}

} // verus!
