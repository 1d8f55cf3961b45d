//! The ledger's stated laws, proved once and for all:
//!
//! - share conservation: per asset, outstanding shares equal the sum of all
//!   user share balances;
//! - accumulator monotonicity composes across any operation sequence;
//! - settling twice without an intervening share or accumulator change pays
//!   zero the second time;
//! - a sole depositor's immediate fee-free round trip returns exactly the
//!   deposit;
//! - solvency: over any committed sequence of deposits, withdrawals and
//!   fee accruals against one pool, payouts plus fees never exceed
//!   deposits — and each committed stake or unstake is proved to be
//!   exactly two pool-model steps on its asset, tying the law to the
//!   operations' own contracts.

use vstd::prelude::*;

use crate::math::lemma_balance_amount_keeps_cover;
use crate::math::lemma_balance_amount_le_available;
use crate::math::lemma_share_amount_ge;
use crate::math::lemma_share_amount_keeps_cover;
use crate::math::lemma_share_amount_over_available;
use crate::math::pending_reward_s;
use crate::math::share_amount_s;
use crate::state::HubState;
use crate::state::sum_shares_for;
use crate::types::AssetKey;
use crate::types::Dec;
use crate::vault::unstake_burn_s;
use crate::vault::unstake_payout_s;

verus! {

/// Share conservation: in every well-formed state, for every asset, the
/// outstanding shares equal the sum of all user share balances. Every
/// operation of the ledger ensures well-formedness, so this holds after
/// every commit.
pub proof fn lemma_share_conservation(s: &HubState, a: AssetKey)
    requires
        s.wf(),
    ensures
        sum_shares_for(s.shares.entries@, a) == s.total_shares_of(a),
{
}

/// Accumulator monotonicity composes: since every operation leaves each
/// reward accumulator no smaller than it found it, any operation sequence
/// does too.
pub proof fn lemma_rates_monotone_trans(
    m0: Map<AssetKey, Dec>,
    m1: Map<AssetKey, Dec>,
    m2: Map<AssetKey, Dec>,
)
    requires
        HubState::rates_monotone(m0, m1),
        HubState::rates_monotone(m1, m2),
    ensures
        HubState::rates_monotone(m0, m2),
{
    assert forall|a: AssetKey| #[trigger] m0.contains_key(a) implies m2.contains_key(a)
        && m0[a].atomics <= m2[a].atomics by {
        assert(m1.contains_key(a));
    }
}

/// Every settlement advances the checkpoint to the current accumulator, so
/// settling twice with no intervening share or accumulator change pays
/// zero the second time: the second settlement reads a checkpoint equal to
/// the accumulator.
pub proof fn lemma_settle_twice_pays_zero(rate: u128, shares: u128)
    ensures
        pending_reward_s(rate as int, rate as int, shares as int) == 0,
{
    assert((rate - rate) * (shares as int) == 0);
    assert(0int / (crate::types::DEC_FRACTIONAL as int) == 0);
}

/// In any state a settlement leaves (checkpoint advanced to the
/// accumulator), the next settlement of the same user pays zero.
pub proof fn lemma_second_settle_zero(s: &HubState, user: Seq<char>, asset: AssetKey)
    requires
        s.wf(),
        s.user_reward_rates@.contains_key((user, asset)),
        s.asset_reward_rates@.contains_key(asset),
        s.user_reward_rates@[(user, asset)] == s.asset_reward_rates@[asset],
    ensures
        crate::rewards::settle_pending_s(s, user, asset) == 0,
{
    let rate = s.asset_reward_rates@[asset].atomics as int;
    let sh = s.shares@[(user, asset)] as int;
    assert((rate - rate) * sh == 0);
    assert(0int / (crate::types::DEC_FRACTIONAL as int) == 0);
}

/// A sole depositor staking into a fresh pool mints one share per unit, and
/// an immediate withdrawal of the same amount at a zero fee rate burns all
/// of them and pays back exactly the deposit.
pub proof fn lemma_stake_unstake_round_trip(amount: u128)
    requires
        amount > 0,
    ensures
        share_amount_s(0, amount as int, 0) == amount,
        unstake_burn_s(amount as int, amount as int, amount as int, amount as int)
            == amount as int,
        unstake_payout_s(amount as int, amount as int, amount as int, amount as int)
            == amount as int,
{
}

/// One per-asset pool, abstractly: its recorded deposits, outstanding
/// shares, and cumulative taken fees.
pub struct Pool {
    pub balance: int,
    pub shares: int,
    pub taken: int,
}

/// The pool-level effect of one ledger operation: a deposit, a withdrawal
/// by a user owning `user_shares`, or a fee accrual advancing the taken
/// total to `new_taken`.
pub enum PoolOp {
    Stake { amount: int },
    Unstake { user_shares: int, request: int },
    Accrue { new_taken: int },
}

/// The pool invariant: fees taken never exceed deposits, and outstanding
/// shares cover the fee-adjusted available balance.
pub open spec fn pool_inv(p: Pool) -> bool {
    &&& 0 <= p.taken <= p.balance
    &&& p.shares >= p.balance - p.taken
    &&& p.shares >= 0
}

/// The conditions under which the ledger commits an operation: deposits are
/// positive; an accrual only ever advances the taken total and only while
/// the pool covers it (otherwise the ledger aborts the operation); a
/// withdrawal needs owned shares and pays at most the fee-adjusted
/// available balance (the ledger refuses one that would pay out of the
/// fee-owed part of the pool).
pub open spec fn pool_op_ok(p: Pool, op: PoolOp) -> bool {
    match op {
        PoolOp::Stake { amount } => amount > 0,
        PoolOp::Unstake { user_shares, request } => {
            &&& 0 < user_shares <= p.shares
            &&& request > 0
            &&& unstake_payout_s(p.shares, user_shares, request, p.balance - p.taken) <= p.balance
                - p.taken
        },
        PoolOp::Accrue { new_taken } => p.taken <= new_taken <= p.balance,
    }
}

pub open spec fn pool_payout(p: Pool, op: PoolOp) -> int {
    match op {
        PoolOp::Unstake { user_shares, request } => unstake_payout_s(
            p.shares,
            user_shares,
            request,
            p.balance - p.taken,
        ),
        _ => 0,
    }
}

pub open spec fn pool_deposit(op: PoolOp) -> int {
    match op {
        PoolOp::Stake { amount } => amount,
        _ => 0,
    }
}

pub open spec fn pool_step(p: Pool, op: PoolOp) -> Pool {
    match op {
        PoolOp::Stake { amount } => Pool {
            balance: p.balance + amount,
            shares: p.shares + share_amount_s(p.shares, amount, p.balance - p.taken),
            taken: p.taken,
        },
        PoolOp::Unstake { user_shares, request } => Pool {
            balance: p.balance - pool_payout(p, op),
            shares: p.shares - unstake_burn_s(p.shares, user_shares, request, p.balance - p.taken),
            taken: p.taken,
        },
        PoolOp::Accrue { new_taken } => Pool { balance: p.balance, shares: p.shares, taken: new_taken },
    }
}

pub open spec fn pool_run(p: Pool, ops: Seq<PoolOp>, n: int) -> Pool
    decreases n,
{
    if n <= 0 {
        p
    } else {
        pool_step(pool_run(p, ops, n - 1), ops[n - 1])
    }
}

pub open spec fn pool_ops_ok(p: Pool, ops: Seq<PoolOp>, n: int) -> bool
    decreases n,
{
    if n <= 0 {
        true
    } else {
        pool_ops_ok(p, ops, n - 1) && pool_op_ok(pool_run(p, ops, n - 1), ops[n - 1])
    }
}

pub open spec fn pool_payouts(p: Pool, ops: Seq<PoolOp>, n: int) -> int
    decreases n,
{
    if n <= 0 {
        0
    } else {
        pool_payouts(p, ops, n - 1) + pool_payout(pool_run(p, ops, n - 1), ops[n - 1])
    }
}

pub open spec fn pool_deposits(ops: Seq<PoolOp>, n: int) -> int
    decreases n,
{
    if n <= 0 {
        0
    } else {
        pool_deposits(ops, n - 1) + pool_deposit(ops[n - 1])
    }
}

/// One committed operation preserves the pool invariant, pays out at most
/// the fee-adjusted available balance, and moves the recorded balance by
/// exactly the deposit or payout.
pub proof fn lemma_pool_step(p: Pool, op: PoolOp)
    requires
        pool_inv(p),
        pool_op_ok(p, op),
    ensures
        pool_inv(pool_step(p, op)),
        pool_step(p, op).balance == p.balance + pool_deposit(op) - pool_payout(p, op),
        pool_payout(p, op) >= 0,
        pool_step(p, op).taken >= p.taken,
{
    let avail = p.balance - p.taken;
    match op {
        PoolOp::Stake { amount } => {
            lemma_share_amount_ge(p.shares, amount, avail);
            if avail != 0 && p.shares != avail {
                vstd::arithmetic::mul::lemma_mul_nonnegative(amount, p.shares);
                vstd::arithmetic::div_mod::lemma_div_pos_is_pos(amount * p.shares, avail);
            }
        },
        PoolOp::Unstake { user_shares, request } => {
            let burn = unstake_burn_s(p.shares, user_shares, request, avail);
            let payout = unstake_payout_s(p.shares, user_shares, request, avail);
            if share_amount_s(p.shares, request, avail) > user_shares {
                lemma_balance_amount_le_available(p.shares, user_shares, avail);
                lemma_balance_amount_keeps_cover(p.shares, user_shares, avail);
                if p.shares != 0 && p.shares != avail {
                    vstd::arithmetic::mul::lemma_mul_nonnegative(user_shares, avail);
                    vstd::arithmetic::div_mod::lemma_div_pos_is_pos(
                        user_shares * avail,
                        p.shares,
                    );
                }
            } else {
                if request > avail {
                    // a request above the available balance cannot pass
                    // un-clamped: with a positive balance it converts to
                    // more shares than exist, and with none available its
                    // payout would exceed the committed-payout bound
                    if avail >= 1 {
                        lemma_share_amount_over_available(p.shares, request, avail);
                    }
                    assert(false);
                }
                lemma_share_amount_keeps_cover(p.shares, request, avail);
                if avail != 0 && p.shares != avail {
                    vstd::arithmetic::mul::lemma_mul_nonnegative(request, p.shares);
                    vstd::arithmetic::div_mod::lemma_div_pos_is_pos(request * p.shares, avail);
                }
            }
        },
        PoolOp::Accrue { new_taken } => {},
    }
}

/// Solvency. Over any committed sequence of deposits, withdrawals and fee
/// accruals against one pool, the payouts plus the fees taken never exceed
/// the deposits plus what the pool began with:
///
/// Σ payouts + (taken_final − taken_initial) ≤ initial available + Σ deposits.
///
/// Harvested rewards are paid in the reward denomination and never enter a
/// staked pool's balance, so they cannot be withdrawn from it: adding them
/// to the right-hand side only weakens the bound this proves.
pub proof fn lemma_pool_solvency(p0: Pool, ops: Seq<PoolOp>, n: int)
    requires
        0 <= n <= ops.len(),
        pool_inv(p0),
        pool_ops_ok(p0, ops, n),
    ensures
        pool_inv(pool_run(p0, ops, n)),
        pool_run(p0, ops, n).balance == p0.balance + pool_deposits(ops, n) - pool_payouts(
            p0,
            ops,
            n,
        ),
        pool_run(p0, ops, n).taken >= p0.taken,
        pool_payouts(p0, ops, n) + (pool_run(p0, ops, n).taken - p0.taken) <= (p0.balance
            - p0.taken) + pool_deposits(ops, n),
    decreases n,
{
    if n > 0 {
        lemma_pool_solvency(p0, ops, n - 1);
        lemma_pool_step(pool_run(p0, ops, n - 1), ops[n - 1]);
    }
}

/// One asset's pool, as a ledger state records it.
pub open spec fn pool_of(s: &HubState, a: AssetKey) -> Pool {
    Pool { balance: s.total_balance_of(a), shares: s.total_shares_of(a), taken: s.taken_of(a) }
}

/// Every well-formed ledger state records a pool satisfying the pool
/// invariant, for every asset.
pub proof fn lemma_wf_pool_inv(s: &HubState, a: AssetKey)
    requires
        s.wf(),
    ensures
        pool_inv(pool_of(s, a)),
{
    assert(s.taken_of(a) <= s.total_balance_of(a));
    assert(s.total_shares_of(a) >= s.total_balance_of(a) - s.taken_of(a));
    crate::state::lemma_sum_shares_nonneg(s.shares.entries@, a);
    assert(sum_shares_for(s.shares.entries@, a) == s.total_shares_of(a));
}

/// A committed stake is exactly two pool-model steps on its asset — the fee
/// accrual, then the deposit — so the solvency law speaks of the very
/// transitions the ledger performs.
pub proof fn lemma_stake_refines_pool(
    s0: HubState,
    s1: HubState,
    resp: crate::types::Response,
    now_s: u64,
    asset: crate::types::AssetInfo,
    amount: u128,
    recipient: String,
)
    requires
        s0.wf(),
        s0.clocks_ok(now_s),
        amount > 0,
        crate::vault::stake_post(s0, s1, Ok(resp), now_s, asset, amount, recipient),
    ensures
        ({
            let p0 = pool_of(&s0, asset@);
            let cfg0 = crate::vault::cfg_or_init_s(&s0, asset@);
            let ops = seq![
                PoolOp::Accrue {
                    new_taken: crate::fee::accrued_taken_s(cfg0, now_s, p0.balance as u128),
                },
                PoolOp::Stake { amount: amount as int },
            ];
            &&& pool_inv(p0)
            &&& pool_ops_ok(p0, ops, 2)
            &&& pool_of(&s1, asset@) == pool_run(p0, ops, 2)
        }),
{
    let a = asset@;
    let p0 = pool_of(&s0, a);
    let cfg0 = crate::vault::cfg_or_init_s(&s0, a);
    let new_taken = crate::fee::accrued_taken_s(cfg0, now_s, p0.balance as u128);
    let ops = seq![
        PoolOp::Accrue { new_taken },
        PoolOp::Stake { amount: amount as int },
    ];
    lemma_wf_pool_inv(&s0, a);
    if s0.asset_configs@.contains_key(a) {
        crate::fee::lemma_take_amount_nonneg(cfg0, now_s, p0.balance as u128);
    }
    reveal_with_fuel(pool_run, 3);
    reveal_with_fuel(pool_ops_ok, 3);
    let p1 = pool_step(p0, ops[0]);
    assert(pool_run(p0, ops, 1) == p1);
    assert(s1.taken_of(a) == new_taken);
    assert(pool_of(&s1, a) == pool_step(p1, ops[1]));
}

/// A committed withdrawal is exactly two pool-model steps on its asset —
/// the fee accrual, then the clamped, guarded payout.
pub proof fn lemma_unstake_refines_pool(
    s0: HubState,
    s1: HubState,
    resp: crate::types::Response,
    now_s: u64,
    sender: String,
    asset: crate::types::Asset,
)
    requires
        s0.wf(),
        s0.clocks_ok(now_s),
        crate::vault::unstake_post(s0, s1, Ok(resp), now_s, sender, asset),
    ensures
        ({
            let a = asset.info@;
            let p0 = pool_of(&s0, a);
            let cfg0 = crate::vault::cfg_or_init_s(&s0, a);
            let us0 = crate::vault::user_shares_s(&s0, (sender@, a));
            let ops = seq![
                PoolOp::Accrue {
                    new_taken: crate::fee::accrued_taken_s(cfg0, now_s, p0.balance as u128),
                },
                PoolOp::Unstake { user_shares: us0, request: asset.amount as int },
            ];
            &&& pool_inv(p0)
            &&& pool_ops_ok(p0, ops, 2)
            &&& pool_of(&s1, a) == pool_run(p0, ops, 2)
        }),
{
    let a = asset.info@;
    let p0 = pool_of(&s0, a);
    let cfg0 = crate::vault::cfg_or_init_s(&s0, a);
    let us0 = crate::vault::user_shares_s(&s0, (sender@, a));
    let new_taken = crate::fee::accrued_taken_s(cfg0, now_s, p0.balance as u128);
    let ops = seq![
        PoolOp::Accrue { new_taken },
        PoolOp::Unstake { user_shares: us0, request: asset.amount as int },
    ];
    lemma_wf_pool_inv(&s0, a);
    if s0.asset_configs@.contains_key(a) {
        crate::fee::lemma_take_amount_nonneg(cfg0, now_s, p0.balance as u128);
    }
    crate::vault::lemma_user_shares_le_total(&s0, (sender@, a));
    reveal_with_fuel(pool_run, 3);
    reveal_with_fuel(pool_ops_ok, 3);
    let p1 = pool_step(p0, ops[0]);
    assert(pool_run(p0, ops, 1) == p1);
    assert(s1.taken_of(a) == new_taken);
    assert(pool_of(&s1, a) == pool_step(p1, ops[1]));
}

} // verus!
