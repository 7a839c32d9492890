use vstd::prelude::*;

use crate::ledger::{claim_result, deposit_result, stake_result, unstake_result, withdraw_result};
use crate::reward_calculator::{lemma_pool_update_monotone, pool_update_result};
use crate::state::{Address, PoolState, RewardConfig, UserPosition};

verus! {

/// One operation of the ledger, on the position at `index`, made by that
/// position's owner.
#[derive(Clone, Copy, Debug)]
pub enum Operation {
    /// Creates an empty position for `owner`.
    Open { owner: Address },
    Deposit { index: usize, amount: u64 },
    Withdraw { index: usize, lp_amount: u64 },
    Stake { index: usize, amount: u64, now: i64 },
    Unstake { index: usize, amount: u64 },
    Claim { index: usize, vault_balance: u64, now: i64 },
}

/// Shares held by the positions, staked or not.
pub open spec fn total_shares(positions: Seq<UserPosition>) -> int
    decreases positions.len(),
{
    if positions.len() == 0 {
        0
    } else {
        total_shares(positions.drop_last()) + positions.last().lp_balance
            + positions.last().staked_amount
    }
}

/// Shares staked by the positions.
pub open spec fn total_stake(positions: Seq<UserPosition>) -> int
    decreases positions.len(),
{
    if positions.len() == 0 {
        0
    } else {
        total_stake(positions.drop_last()) + positions.last().staked_amount
    }
}

/// The positions hold no more shares than the pool issued, and their stakes
/// add up to the pool's total stake.
pub open spec fn conserved(pool: PoolState, positions: Seq<UserPosition>) -> bool {
    &&& total_shares(positions) <= pool.total_lp_supply
    &&& total_stake(positions) == pool.total_staked
}

/// The ledger after `op` at `current_slot`; a failed operation, or one on a
/// missing position, leaves it as it was.
pub open spec fn apply_operation(
    state: (PoolState, RewardConfig, Seq<UserPosition>),
    op: Operation,
    current_slot: u64,
) -> (PoolState, RewardConfig, Seq<UserPosition>) {
    let (pool, config, positions) = state;
    match op {
        Operation::Open { owner } => (
            pool,
            config,
            positions.push(
                UserPosition {
                    owner,
                    pool: config.pool,
                    lp_balance: 0,
                    staked_amount: 0,
                    reward_debt: 0,
                    pending_reward: 0,
                    last_stake_time: 0,
                    last_claim_time: 0,
                    bump: 0,
                },
            ),
        ),
        Operation::Deposit { index, amount } => if index < positions.len() {
            match deposit_result(pool, positions[index as int], amount) {
                Ok((p, u, _)) => (p, config, positions.update(index as int, u)),
                Err(_) => state,
            }
        } else {
            state
        },
        Operation::Withdraw { index, lp_amount } => if index < positions.len() {
            let u0 = positions[index as int];
            match withdraw_result(pool, u0, u0.owner, lp_amount) {
                Ok((p, u, _)) => (p, config, positions.update(index as int, u)),
                Err(_) => state,
            }
        } else {
            state
        },
        Operation::Stake { index, amount, now } => if index < positions.len() {
            let u0 = positions[index as int];
            match stake_result(pool, config, u0, u0.owner, amount, current_slot, now) {
                Ok((p, c, u)) => (p, c, positions.update(index as int, u)),
                Err(_) => state,
            }
        } else {
            state
        },
        Operation::Unstake { index, amount } => if index < positions.len() {
            let u0 = positions[index as int];
            match unstake_result(pool, config, u0, u0.owner, amount, current_slot) {
                Ok((p, c, u)) => (p, c, positions.update(index as int, u)),
                Err(_) => state,
            }
        } else {
            state
        },
        Operation::Claim { index, vault_balance, now } => if index < positions.len() {
            let u0 = positions[index as int];
            match claim_result(pool, config, u0, u0.owner, current_slot, vault_balance, now) {
                Ok((c, u, _)) => (pool, c, positions.update(index as int, u)),
                Err(_) => state,
            }
        } else {
            state
        },
    }
}

/// The ledger after each operation in turn, each at its own slot.
pub open spec fn run(
    state: (PoolState, RewardConfig, Seq<UserPosition>),
    ops: Seq<(Operation, u64)>,
) -> (PoolState, RewardConfig, Seq<UserPosition>)
    decreases ops.len(),
{
    if ops.len() == 0 {
        state
    } else {
        apply_operation(run(state, ops.drop_last()), ops.last().0, ops.last().1)
    }
}

proof fn lemma_totals_update(positions: Seq<UserPosition>, i: int, x: UserPosition)
    requires
        0 <= i < positions.len(),
    ensures
        total_shares(positions.update(i, x)) == total_shares(positions) - positions[i].lp_balance
            - positions[i].staked_amount + x.lp_balance + x.staked_amount,
        total_stake(positions.update(i, x)) == total_stake(positions) - positions[i].staked_amount
            + x.staked_amount,
    decreases positions.len(),
{
    let updated = positions.update(i, x);
    if i == positions.len() - 1 {
        assert(updated.drop_last() =~= positions.drop_last());
    } else {
        lemma_totals_update(positions.drop_last(), i, x);
        assert(updated.drop_last() =~= positions.drop_last().update(i, x));
    }
}

proof fn lemma_totals_push(positions: Seq<UserPosition>, x: UserPosition)
    ensures
        total_shares(positions.push(x)) == total_shares(positions) + x.lp_balance
            + x.staked_amount,
        total_stake(positions.push(x)) == total_stake(positions) + x.staked_amount,
{
    assert(positions.push(x).drop_last() =~= positions);
}

proof fn lemma_stake_within_shares(positions: Seq<UserPosition>)
    ensures
        0 <= total_stake(positions) <= total_shares(positions),
    decreases positions.len(),
{
    if positions.len() > 0 {
        lemma_stake_within_shares(positions.drop_last());
    }
}

/// One operation keeps the positions' shares within the pool's supply and
/// their stakes equal to the pool's total stake, and never moves the reward
/// accumulator or its checkpoint back.
pub proof fn lemma_operation_conserves(
    state: (PoolState, RewardConfig, Seq<UserPosition>),
    op: Operation,
    current_slot: u64,
)
    requires
        conserved(state.0, state.2),
    ensures
        ({
            let next = apply_operation(state, op, current_slot);
            &&& conserved(next.0, next.2)
            &&& (state.0.wf() ==> next.0.wf())
            &&& next.1.acc_reward_per_share >= state.1.acc_reward_per_share
            &&& next.1.last_update_slot >= state.1.last_update_slot
        }),
{
    let (pool, config, positions) = state;
    lemma_stake_within_shares(apply_operation(state, op, current_slot).2);
    match op {
        Operation::Open { owner } => {
            let next = apply_operation(state, op, current_slot);
            lemma_totals_push(positions, next.2.last());
        },
        Operation::Deposit { index, amount } => {
            if index < positions.len() {
                if let Ok((p, u, _)) = deposit_result(pool, positions[index as int], amount) {
                    lemma_totals_update(positions, index as int, u);
                }
            }
        },
        Operation::Withdraw { index, lp_amount } => {
            if index < positions.len() {
                let u0 = positions[index as int];
                if let Ok((p, u, _)) = withdraw_result(pool, u0, u0.owner, lp_amount) {
                    lemma_totals_update(positions, index as int, u);
                    let (d, s) = (pool.total_deposited as int, pool.total_lp_supply as int);
                    assert(lp_amount < s && d > 0 ==> lp_amount * d / s < d) by (nonlinear_arith)
                        requires
                            s > 0,
                    ;
                    assert(lp_amount == s ==> lp_amount * d / s == d) by (nonlinear_arith)
                        requires
                            s > 0,
                    ;
                }
            }
        },
        Operation::Stake { index, amount, now } => {
            if index < positions.len() {
                let u0 = positions[index as int];
                if let Ok((p, c, u)) = stake_result(
                    pool,
                    config,
                    u0,
                    u0.owner,
                    amount,
                    current_slot,
                    now,
                ) {
                    lemma_totals_update(positions, index as int, u);
                    lemma_pool_update_monotone(pool, config, current_slot);
                }
            }
        },
        Operation::Unstake { index, amount } => {
            if index < positions.len() {
                let u0 = positions[index as int];
                if let Ok((p, c, u)) = unstake_result(
                    pool,
                    config,
                    u0,
                    u0.owner,
                    amount,
                    current_slot,
                ) {
                    lemma_totals_update(positions, index as int, u);
                    lemma_pool_update_monotone(pool, config, current_slot);
                }
            }
        },
        Operation::Claim { index, vault_balance, now } => {
            if index < positions.len() {
                let u0 = positions[index as int];
                if let Ok((c, u, _)) = claim_result(
                    pool,
                    config,
                    u0,
                    u0.owner,
                    current_slot,
                    vault_balance,
                    now,
                ) {
                    lemma_totals_update(positions, index as int, u);
                    lemma_pool_update_monotone(pool, config, current_slot);
                }
            }
        },
    }
}

/// Conservation over any sequence of operations: started from a ledger whose
/// positions hold no more shares than the pool issued and stake exactly the
/// pool's total stake, every sequence of operations keeps it so (rounding in
/// share pricing only ever leaves shares to the pool). The pool's own
/// invariant is kept too, and the reward accumulator and its checkpoint never
/// decrease.
pub proof fn lemma_run_conserves(
    state: (PoolState, RewardConfig, Seq<UserPosition>),
    ops: Seq<(Operation, u64)>,
)
    requires
        conserved(state.0, state.2),
    ensures
        ({
            let last = run(state, ops);
            &&& conserved(last.0, last.2)
            &&& (state.0.wf() ==> last.0.wf())
            &&& last.1.acc_reward_per_share >= state.1.acc_reward_per_share
            &&& last.1.last_update_slot >= state.1.last_update_slot
        }),
    decreases ops.len(),
{
    if ops.len() > 0 {
        lemma_run_conserves(state, ops.drop_last());
        lemma_operation_conserves(run(state, ops.drop_last()), ops.last().0, ops.last().1);
    }
}

/// A newly initialized pool with no positions is conserved and well formed.
pub proof fn lemma_fresh_pool_conserved(pool: PoolState)
    requires
        pool.total_deposited == 0,
        pool.total_lp_supply == 0,
        pool.total_staked == 0,
    ensures
        conserved(pool, Seq::<UserPosition>::empty()),
        pool.wf(),
{
}

} // verus!
