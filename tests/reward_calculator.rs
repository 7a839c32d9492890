use lp_staking::error::LpStakingError;
use lp_staking::reward_calculator::{calculate_pending_reward, update_pool_reward, RewardCalculator};
use lp_staking::state::{EmissionType, PoolState, RewardConfig, PRECISION};

fn pool_with_stake(total_staked: u64) -> PoolState {
    PoolState {
        authority: [1; 32],
        wrapped_usdc_mint: [2; 32],
        lp_token_mint: [3; 32],
        pool_usdc_account: [4; 32],
        total_deposited: total_staked,
        total_lp_supply: total_staked,
        total_staked,
        reward_vault: [5; 32],
        bump: 0,
    }
}

fn config(emission_type: EmissionType, last_update_slot: u64) -> RewardConfig {
    RewardConfig {
        pool: [9; 32],
        emission_type,
        emission_rate: 100,
        initial_block_rate: 100,
        decay_factor: 9000,
        blocks_per_period: 1000,
        last_update_slot,
        acc_reward_per_share: 0,
        bump: 0,
    }
}

#[test]
fn test_calculate_pending_reward() {
    let pending = RewardCalculator::calculate_pending_reward(1000, 0, PRECISION).unwrap();
    assert_eq!(pending, 1000);
}

#[test]
fn test_calculate_block_rate_no_decay() {
    let rate = RewardCalculator::calculate_block_rate(100, 10000, 1000, 5000).unwrap();
    assert_eq!(rate, 100);
}

#[test]
fn test_calculate_block_rate_with_decay() {
    let rate = RewardCalculator::calculate_block_rate(100, 9000, 1000, 1000).unwrap();
    assert_eq!(rate, 90);
}

#[test]
fn block_rate_decays_each_period() {
    assert_eq!(RewardCalculator::calculate_block_rate(100, 9000, 1000, 2999), Ok(81));
    assert_eq!(RewardCalculator::calculate_block_rate(100, 9000, 1000, 999), Ok(100));
    assert_eq!(RewardCalculator::calculate_block_rate(100, 0, 1000, 1000), Ok(0));
}

#[test]
fn block_rate_long_horizon_reaches_zero() {
    assert_eq!(RewardCalculator::calculate_block_rate(1_000_000, 5000, 1, u64::MAX), Ok(0));
    assert_eq!(RewardCalculator::calculate_block_rate(77, 10000, 1, u64::MAX), Ok(77));
}

#[test]
fn block_rate_rejects_zero_period() {
    assert_eq!(
        RewardCalculator::calculate_block_rate(100, 9000, 0, 1000),
        Err(LpStakingError::InvalidBlocksPerPeriod)
    );
}

#[test]
fn block_rate_growth_overflows() {
    assert_eq!(
        RewardCalculator::calculate_block_rate(u64::MAX, 20000, 1, 200),
        Err(LpStakingError::MathOverflow)
    );
}

#[test]
fn fixed_rate_example() {
    let acc = RewardCalculator::update_fixed_rate_reward(0, 1000, 100, 10).unwrap();
    assert_eq!(acc, 1_000_000_000_000);
    assert_eq!(calculate_pending_reward(1000, acc, 0), Ok(1000));
}

#[test]
fn fixed_rate_without_stake_or_time_is_unchanged() {
    assert_eq!(RewardCalculator::update_fixed_rate_reward(5, 0, 100, 10), Ok(5));
    assert_eq!(RewardCalculator::update_fixed_rate_reward(5, 1000, 100, 0), Ok(5));
    assert_eq!(RewardCalculator::update_fixed_rate_reward(5, 1000, 100, -3), Ok(5));
}

#[test]
fn fixed_rate_overflow_is_an_error() {
    assert_eq!(
        RewardCalculator::update_fixed_rate_reward(0, 1, u64::MAX, i64::MAX),
        Err(LpStakingError::MathOverflow)
    );
    assert_eq!(
        RewardCalculator::update_fixed_rate_reward(u128::MAX, 1, 1, 1),
        Err(LpStakingError::MathOverflow)
    );
}

#[test]
fn pending_reward_cases() {
    assert_eq!(calculate_pending_reward(0, 123, 456), Ok(0));
    assert_eq!(calculate_pending_reward(10, 3 * PRECISION, 10 * PRECISION), Ok(20));
    assert_eq!(calculate_pending_reward(10, PRECISION, 11 * PRECISION), Err(LpStakingError::MathOverflow));
    assert_eq!(calculate_pending_reward(u64::MAX, u128::MAX, 0), Err(LpStakingError::MathOverflow));
}

#[test]
fn block_based_update_uses_rate_of_current_period() {
    let c = config(EmissionType::BlockBased, 500);
    // 1500 blocks elapsed, all priced at the period-2 rate of 81.
    let acc = RewardCalculator::update_block_based_reward(0, 1000, &c, 2000).unwrap();
    assert_eq!(acc, 81 * 1500 * PRECISION / 1000);
    assert_eq!(RewardCalculator::update_block_based_reward(7, 1000, &c, 500), Ok(7));
    assert_eq!(RewardCalculator::update_block_based_reward(7, 0, &c, 900), Ok(7));
}

#[test]
fn update_pool_reward_fixed_rate() {
    let pool = pool_with_stake(1000);
    let mut c = config(EmissionType::FixedRate, 100);
    assert_eq!(update_pool_reward(&pool, &mut c, 110), Ok(()));
    assert_eq!(c.acc_reward_per_share, 1_000_000_000_000);
    assert_eq!(c.last_update_slot, 110);
}

#[test]
fn update_pool_reward_is_idempotent() {
    let pool = pool_with_stake(1000);
    let mut c = config(EmissionType::FixedRate, 100);
    update_pool_reward(&pool, &mut c, 150).unwrap();
    let once = c;
    update_pool_reward(&pool, &mut c, 150).unwrap();
    assert_eq!(c.acc_reward_per_share, once.acc_reward_per_share);
    assert_eq!(c.last_update_slot, once.last_update_slot);
}

#[test]
fn update_pool_reward_never_goes_back() {
    let pool = pool_with_stake(1000);
    let mut c = config(EmissionType::FixedRate, 100);
    update_pool_reward(&pool, &mut c, 200).unwrap();
    let acc = c.acc_reward_per_share;
    update_pool_reward(&pool, &mut c, 150).unwrap();
    assert_eq!(c.last_update_slot, 200);
    assert_eq!(c.acc_reward_per_share, acc);
    update_pool_reward(&pool, &mut c, 300).unwrap();
    assert!(c.acc_reward_per_share > acc);
}

#[test]
fn update_pool_reward_without_stake_moves_only_checkpoint() {
    let pool = pool_with_stake(0);
    let mut c = config(EmissionType::FixedRate, 100);
    update_pool_reward(&pool, &mut c, 400).unwrap();
    assert_eq!(c.acc_reward_per_share, 0);
    assert_eq!(c.last_update_slot, 400);
}

#[test]
fn update_pool_reward_error_leaves_config() {
    let pool = pool_with_stake(1);
    let mut c = config(EmissionType::FixedRate, 0);
    c.emission_rate = u64::MAX;
    assert_eq!(update_pool_reward(&pool, &mut c, u64::MAX), Err(LpStakingError::MathOverflow));
    assert_eq!(c.last_update_slot, 0);
    assert_eq!(c.acc_reward_per_share, 0);
}

#[test]
fn update_pool_reward_accepts_any_slot_gap() {
    let pool = pool_with_stake(1);
    let mut c = config(EmissionType::FixedRate, 0);
    c.emission_rate = 1;
    assert_eq!(update_pool_reward(&pool, &mut c, u64::MAX), Ok(()));
    assert_eq!(c.acc_reward_per_share, u64::MAX as u128 * PRECISION);
    assert_eq!(c.last_update_slot, u64::MAX);
}
