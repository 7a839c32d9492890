use lp_staking::error::LpStakingError;
use lp_staking::ledger::{
    calculate_lp_amount, calculate_withdraw_amount, claim, deposit, initialize, stake, unstake,
    withdraw, PoolAccounts,
};
use lp_staking::state::{
    EmissionType, PoolState, RewardConfig, UserPosition, MIN_DEPOSIT_AMOUNT, PRECISION,
};

const ALICE: [u8; 32] = [7; 32];
const BOB: [u8; 32] = [8; 32];

fn accounts() -> PoolAccounts {
    PoolAccounts {
        pool: [9; 32],
        authority: [1; 32],
        wrapped_usdc_mint: [2; 32],
        lp_token_mint: [3; 32],
        pool_usdc_account: [4; 32],
        reward_vault: [5; 32],
        pool_bump: 254,
        config_bump: 253,
    }
}

fn fixed_pool(slot: u64) -> (PoolState, RewardConfig) {
    initialize(accounts(), EmissionType::FixedRate, 100, 0, 0, 0, slot).unwrap()
}

fn same_state(a: &UserPosition, b: &UserPosition) -> bool {
    a.lp_balance == b.lp_balance
        && a.staked_amount == b.staked_amount
        && a.reward_debt == b.reward_debt
        && a.pending_reward == b.pending_reward
        && a.last_stake_time == b.last_stake_time
        && a.last_claim_time == b.last_claim_time
}

#[test]
fn first_depositor_gets_one_share_per_unit() {
    assert_eq!(calculate_lp_amount(12345, 0, 0), Ok(12345));
    assert_eq!(calculate_lp_amount(0, 0, 0), Ok(0));
    assert_eq!(calculate_lp_amount(u64::MAX, 0, 0), Ok(u64::MAX));
}

#[test]
fn later_deposits_are_priced_down() {
    assert_eq!(calculate_lp_amount(10, 3, 2), Ok(6));
    assert_eq!(calculate_lp_amount(1, 3, 2), Ok(0));
    assert_eq!(calculate_lp_amount(u64::MAX, 1, 2), Err(LpStakingError::MathOverflow));
}

#[test]
fn withdraw_amount_cases() {
    assert_eq!(calculate_withdraw_amount(5, 10, 0), Err(LpStakingError::EmptyPool));
    assert_eq!(calculate_withdraw_amount(5, 10, 3), Ok(16));
    assert_eq!(calculate_withdraw_amount(u64::MAX, 2, 1), Err(LpStakingError::MathOverflow));
}

#[test]
fn initialize_validates_block_policy() {
    let (pool, config) = initialize(accounts(), EmissionType::BlockBased, 0, 100, 9000, 1000, 42).unwrap();
    assert_eq!(pool.total_deposited, 0);
    assert_eq!(pool.total_lp_supply, 0);
    assert_eq!(pool.total_staked, 0);
    assert_eq!(pool.authority, [1; 32]);
    assert_eq!(config.last_update_slot, 42);
    assert_eq!(config.acc_reward_per_share, 0);
    assert_eq!(config.pool, [9; 32]);
    assert_eq!(
        initialize(accounts(), EmissionType::BlockBased, 0, 100, 10001, 1000, 0).unwrap_err(),
        LpStakingError::InvalidDecayFactor
    );
    assert_eq!(
        initialize(accounts(), EmissionType::BlockBased, 0, 100, 9000, 0, 0).unwrap_err(),
        LpStakingError::InvalidBlocksPerPeriod
    );
    assert!(initialize(accounts(), EmissionType::FixedRate, 1, 0, 20000, 0, 0).is_ok());
}

#[test]
fn deposit_rejects_small_amounts() {
    let (mut pool, _) = fixed_pool(0);
    let mut alice = UserPosition::new(ALICE, [9; 32], 1);
    assert_eq!(deposit(&mut pool, &mut alice, MIN_DEPOSIT_AMOUNT - 1), Err(LpStakingError::InvalidAmount));
    assert_eq!(pool.total_deposited, 0);
    assert_eq!(alice.lp_balance, 0);
}

#[test]
fn single_depositor_round_trip() {
    let (mut pool, _) = fixed_pool(0);
    let mut alice = UserPosition::new(ALICE, [9; 32], 1);
    let shares = deposit(&mut pool, &mut alice, 5_000_000).unwrap();
    assert_eq!(shares, 5_000_000);
    assert_eq!(withdraw(&mut pool, &mut alice, &ALICE, shares), Ok(5_000_000));
    assert_eq!(pool.total_deposited, 0);
    assert_eq!(pool.total_lp_supply, 0);
    assert_eq!(alice.lp_balance, 0);
}

#[test]
fn withdraw_errors() {
    let (mut pool, _) = fixed_pool(0);
    let mut alice = UserPosition::new(ALICE, [9; 32], 1);
    deposit(&mut pool, &mut alice, 2_000_000).unwrap();
    assert_eq!(withdraw(&mut pool, &mut alice, &BOB, 1), Err(LpStakingError::Unauthorized));
    assert_eq!(withdraw(&mut pool, &mut alice, &ALICE, 0), Err(LpStakingError::InvalidAmount));
    assert_eq!(withdraw(&mut pool, &mut alice, &ALICE, 2_000_001), Err(LpStakingError::InsufficientLpTokens));
    let mut inflated = alice;
    inflated.lp_balance = 3_000_000;
    assert_eq!(withdraw(&mut pool, &mut inflated, &ALICE, 2_500_000), Err(LpStakingError::EmptyPool));
    assert_eq!(pool.total_lp_supply, 2_000_000);
    assert_eq!(alice.lp_balance, 2_000_000);
}

#[test]
fn stake_then_unstake_moves_shares() {
    let (mut pool, mut config) = fixed_pool(100);
    let mut alice = UserPosition::new(ALICE, [9; 32], 1);
    deposit(&mut pool, &mut alice, 1_000_000).unwrap();
    stake(&mut pool, &mut config, &mut alice, &ALICE, 1000, 100, 55).unwrap();
    assert_eq!(alice.lp_balance, 999_000);
    assert_eq!(alice.staked_amount, 1000);
    assert_eq!(alice.last_stake_time, 55);
    assert_eq!(pool.total_staked, 1000);
    unstake(&mut pool, &mut config, &mut alice, &ALICE, 1000, 110).unwrap();
    assert_eq!(alice.staked_amount, 0);
    assert_eq!(alice.lp_balance, 1_000_000);
    assert_eq!(pool.total_staked, 0);
    assert_eq!(alice.pending_reward, 1000);
    assert_eq!(alice.reward_debt, 0);
}

#[test]
fn stake_errors() {
    let (mut pool, mut config) = fixed_pool(0);
    let mut alice = UserPosition::new(ALICE, [9; 32], 1);
    deposit(&mut pool, &mut alice, 1_000_000).unwrap();
    assert_eq!(stake(&mut pool, &mut config, &mut alice, &BOB, 10, 1, 0), Err(LpStakingError::Unauthorized));
    assert_eq!(stake(&mut pool, &mut config, &mut alice, &ALICE, 0, 1, 0), Err(LpStakingError::InvalidAmount));
    assert_eq!(
        stake(&mut pool, &mut config, &mut alice, &ALICE, 1_000_001, 1, 0),
        Err(LpStakingError::InsufficientLpTokens)
    );
    assert_eq!(config.last_update_slot, 0);
    assert_eq!(pool.total_staked, 0);
}

#[test]
fn settle_before_stake_change() {
    // 100 per slot; 1000 staked over slots 100..110, then 3000 over 110..120.
    let (mut pool, mut config) = fixed_pool(100);
    let mut alice = UserPosition::new(ALICE, [9; 32], 1);
    deposit(&mut pool, &mut alice, 1_000_000).unwrap();
    stake(&mut pool, &mut config, &mut alice, &ALICE, 1000, 100, 0).unwrap();
    stake(&mut pool, &mut config, &mut alice, &ALICE, 2000, 110, 0).unwrap();
    assert_eq!(alice.pending_reward, 1000);
    assert_eq!(alice.reward_debt, 3000 * config.acc_reward_per_share);
    unstake(&mut pool, &mut config, &mut alice, &ALICE, 3000, 120).unwrap();
    // 3000 shares earn floor(3000 * floor(1000e12 / 3000) / 1e12) = 999 more.
    assert_eq!(alice.pending_reward, 1999);
}

#[test]
fn unstake_more_than_staked_fails_and_changes_nothing() {
    let (mut pool, mut config) = fixed_pool(0);
    let mut alice = UserPosition::new(ALICE, [9; 32], 1);
    deposit(&mut pool, &mut alice, 1_000_000).unwrap();
    stake(&mut pool, &mut config, &mut alice, &ALICE, 500, 10, 0).unwrap();
    let (pool0, config0, alice0) = (pool, config, alice);
    assert_eq!(
        unstake(&mut pool, &mut config, &mut alice, &ALICE, 501, 20),
        Err(LpStakingError::InsufficientStaked)
    );
    assert!(same_state(&alice, &alice0));
    assert_eq!(pool.total_staked, pool0.total_staked);
    assert_eq!(config.last_update_slot, config0.last_update_slot);
    assert_eq!(config.acc_reward_per_share, config0.acc_reward_per_share);
    assert_eq!(unstake(&mut pool, &mut config, &mut alice, &ALICE, 0, 20), Err(LpStakingError::InvalidAmount));
    assert_eq!(unstake(&mut pool, &mut config, &mut alice, &BOB, 1, 20), Err(LpStakingError::Unauthorized));
}

#[test]
fn claim_with_nothing_fails_and_changes_nothing() {
    let (pool, mut config) = fixed_pool(0);
    let mut alice = UserPosition::new(ALICE, [9; 32], 1);
    let alice0 = alice;
    assert_eq!(
        claim(&pool, &mut config, &mut alice, &ALICE, 50, 1_000_000, 9),
        Err(LpStakingError::NoRewardToClaim)
    );
    assert!(same_state(&alice, &alice0));
    assert_eq!(config.last_update_slot, 0);
}

#[test]
fn claim_pays_settled_reward() {
    let (mut pool, mut config) = fixed_pool(100);
    let mut alice = UserPosition::new(ALICE, [9; 32], 1);
    deposit(&mut pool, &mut alice, 1_000_000).unwrap();
    stake(&mut pool, &mut config, &mut alice, &ALICE, 1000, 100, 0).unwrap();
    assert_eq!(
        claim(&pool, &mut config, &mut alice, &ALICE, 110, 999, 77),
        Err(LpStakingError::InsufficientRewardVault)
    );
    assert_eq!(config.last_update_slot, 100);
    assert_eq!(claim(&pool, &mut config, &mut alice, &BOB, 110, 5000, 77), Err(LpStakingError::Unauthorized));
    assert_eq!(claim(&pool, &mut config, &mut alice, &ALICE, 110, 5000, 77), Ok(1000));
    assert_eq!(alice.pending_reward, 0);
    assert_eq!(alice.last_claim_time, 77);
    assert_eq!(alice.reward_debt, 1000 * config.acc_reward_per_share);
    assert_eq!(config.acc_reward_per_share, PRECISION);
    assert_eq!(
        claim(&pool, &mut config, &mut alice, &ALICE, 110, 5000, 78),
        Err(LpStakingError::NoRewardToClaim)
    );
}

#[test]
fn shares_stay_within_supply() {
    let (mut pool, mut config) = fixed_pool(0);
    let mut alice = UserPosition::new(ALICE, [9; 32], 1);
    let mut bob = UserPosition::new(BOB, [9; 32], 2);
    deposit(&mut pool, &mut alice, 3_000_000).unwrap();
    pool.total_deposited += 1; // the pool's asset grew, so later shares are floored
    deposit(&mut pool, &mut bob, 1_000_000).unwrap();
    stake(&mut pool, &mut config, &mut bob, &BOB, 400_000, 5, 0).unwrap();
    withdraw(&mut pool, &mut alice, &ALICE, 1_234_567).unwrap();
    unstake(&mut pool, &mut config, &mut bob, &BOB, 100_000, 9).unwrap();
    let held = alice.lp_balance + alice.staked_amount + bob.lp_balance + bob.staked_amount;
    assert!(held <= pool.total_lp_supply);
    assert_eq!(alice.staked_amount + bob.staked_amount, pool.total_staked);
    assert!(bob.lp_balance + bob.staked_amount < 1_000_000);
}

#[test]
fn deposit_overflow_is_an_error() {
    let (mut pool, _) = fixed_pool(0);
    let mut alice = UserPosition::new(ALICE, [9; 32], 1);
    deposit(&mut pool, &mut alice, u64::MAX).unwrap();
    assert_eq!(deposit(&mut pool, &mut alice, MIN_DEPOSIT_AMOUNT), Err(LpStakingError::MathOverflow));
    assert_eq!(pool.total_deposited, u64::MAX);
}

#[test]
fn error_messages() {
    assert_eq!(LpStakingError::NoRewardToClaim.message(), "No reward to claim");
    assert_eq!(LpStakingError::MathOverflow.message(), "Math overflow occurred");
}
