//! Share/amount conversion arithmetic and fixed-point rate arithmetic.
//!
//! All conversions floor. The one computation that needs a 256-bit
//! intermediate — `value * numerator / denominator` over 128-bit amounts —
//! is delegated to the host math library through a trusted wrapper; every
//! property proved about the ledger rests on that single contract.

use vstd::prelude::*;

use crate::types::ContractError;
use crate::types::DEC_FRACTIONAL;
use crate::types::Dec;

verus! {

/// Relies on cosmwasm_std::Uint128::checked_multiply_ratio: the floor of
/// value * numerator / denominator, computed through a 256-bit intermediate;
/// it returns an error exactly on a zero denominator or a quotient that does
/// not fit 128 bits.
#[verifier::external_body]
pub fn checked_mul_ratio(value: u128, numerator: u128, denominator: u128) -> (r: Option<u128>)
    ensures
        match r {
            Some(q) => denominator != 0 && q == value * numerator / (denominator as int),
            None => denominator == 0 || value * numerator / (denominator as int) > u128::MAX,
        },
{
    match cosmwasm_std::Uint128::new(value).checked_multiply_ratio(numerator, denominator) {
        Ok(q) => Some(q.u128()),
        Err(_) => None,
    }
}

/// How many shares an amount of the underlying asset is worth, given the
/// pool's outstanding shares and its fee-adjusted available balance: one to
/// one while the pool is empty or exactly balanced, otherwise proportional,
/// floored.
pub open spec fn share_amount_s(shares: int, balance_amount: int, asset_available: int) -> int {
    if asset_available == 0 {
        balance_amount
    } else if shares == asset_available {
        balance_amount
    } else {
        balance_amount * shares / asset_available
    }
}

/// How much of the underlying asset a number of shares is worth: zero from an
/// empty pool, one to one from an exactly balanced pool, otherwise
/// proportional, floored.
pub open spec fn balance_amount_s(shares: int, share_amount: int, asset_available: int) -> int {
    if shares == 0 {
        0
    } else if shares == asset_available {
        share_amount
    } else {
        share_amount * asset_available / shares
    }
}

/// A fixed-point rate applied to an amount, floored.
pub open spec fn rate_mul_s(rate_atomics: int, amount: int) -> int {
    amount * rate_atomics / (DEC_FRACTIONAL as int)
}

/// The reward owed for holding `shares` shares while the per-share
/// accumulator advanced from `user_rate` to `rate` (both in atomic rate
/// units), floored to whole reward units.
pub open spec fn pending_reward_s(rate: int, user_rate: int, shares: int) -> int {
    (rate - user_rate) * shares / (DEC_FRACTIONAL as int)
}

pub fn compute_share_amount(shares: u128, balance_amount: u128, asset_available: u128) -> (r:
    Result<u128, ContractError>)
    ensures
        match r {
            Ok(v) => v == share_amount_s(shares as int, balance_amount as int, asset_available as int)
                && share_amount_s(shares as int, balance_amount as int, asset_available as int)
                    <= u128::MAX,
            Err(e) => e is Overflow && share_amount_s(
                shares as int,
                balance_amount as int,
                asset_available as int,
            ) > u128::MAX,
        },
{
    if asset_available == 0 {
        Ok(balance_amount)
    } else if shares == asset_available {
        Ok(balance_amount)
    } else {
        match checked_mul_ratio(balance_amount, shares, asset_available) {
            Some(v) => Ok(v),
            None => Err(ContractError::Overflow),
        }
    }
}

pub fn compute_balance_amount(shares: u128, share_amount: u128, asset_available: u128) -> (r:
    Result<u128, ContractError>)
    ensures
        match r {
            Ok(v) => v == balance_amount_s(shares as int, share_amount as int, asset_available as int)
                && balance_amount_s(shares as int, share_amount as int, asset_available as int)
                    <= u128::MAX,
            Err(e) => e is Overflow && balance_amount_s(
                shares as int,
                share_amount as int,
                asset_available as int,
            ) > u128::MAX,
        },
{
    if shares == 0 {
        Ok(0)
    } else if shares == asset_available {
        Ok(share_amount)
    } else {
        match checked_mul_ratio(share_amount, asset_available, shares) {
            Some(v) => Ok(v),
            None => Err(ContractError::Overflow),
        }
    }
}

/// A fixed-point rate applied to an amount, floored; an error when the
/// result leaves the 128-bit range.
pub fn rate_mul(rate: Dec, amount: u128) -> (r: Result<u128, ContractError>)
    ensures
        match r {
            Ok(v) => v == rate_mul_s(rate.atomics as int, amount as int) && rate_mul_s(
                rate.atomics as int,
                amount as int,
            ) <= u128::MAX,
            Err(e) => e is Overflow && rate_mul_s(rate.atomics as int, amount as int) > u128::MAX,
        },
{
    if amount == 0 || rate.atomics == 0 {
        assert(rate_mul_s(rate.atomics as int, amount as int) == 0) by {
            assert(amount as int * rate.atomics as int == 0);
        }
        Ok(0)
    } else {
        match checked_mul_ratio(amount, rate.atomics, DEC_FRACTIONAL) {
            Some(v) => Ok(v),
            None => Err(ContractError::Overflow),
        }
    }
}

pub fn min_u64(a: u64, b: u64) -> (r: u64)
    ensures
        r == if a <= b { a as int } else { b as int },
{
    if a <= b {
        a
    } else {
        b
    }
}

/// Converting an amount into shares yields at least that amount whenever the
/// pool holds at least as many shares as available balance.
pub proof fn lemma_share_amount_ge(shares: int, amount: int, available: int)
    requires
        0 <= available <= shares,
        0 <= amount,
    ensures
        share_amount_s(shares, amount, available) >= amount,
{
    if available != 0 && shares != available {
        vstd::arithmetic::mul::lemma_mul_inequality(available, shares, amount);
        assert(amount * available <= amount * shares) by {
            vstd::arithmetic::mul::lemma_mul_is_commutative(available, amount);
            vstd::arithmetic::mul::lemma_mul_is_commutative(shares, amount);
        }
        vstd::arithmetic::div_mod::lemma_div_is_ordered(amount * available, amount * shares, available);
        vstd::arithmetic::div_mod::lemma_div_by_multiple(amount, available);
    }
}

/// Converting shares back into an amount never pays out more than the
/// available balance, as long as the shares converted are no more than the
/// outstanding shares.
pub proof fn lemma_balance_amount_le_available(shares: int, share_amount: int, available: int)
    requires
        0 <= share_amount <= shares,
        0 <= available,
    ensures
        balance_amount_s(shares, share_amount, available) <= available,
{
    if shares != 0 && shares != available {
        vstd::arithmetic::mul::lemma_mul_inequality(share_amount, shares, available);
        vstd::arithmetic::div_mod::lemma_div_is_ordered(
            share_amount * available,
            shares * available,
            shares,
        );
        vstd::arithmetic::div_mod::lemma_div_by_multiple(available, shares);
        assert(shares * available == available * shares) by {
            vstd::arithmetic::mul::lemma_mul_is_commutative(shares, available);
        }
    }
}

/// A withdrawal request above the available balance always converts to more
/// shares than exist, whenever shares cover the available balance: such a
/// request cannot pass the ownership check un-clamped.
pub proof fn lemma_share_amount_over_available(shares: int, amount: int, available: int)
    requires
        1 <= available <= shares,
        amount > available,
    ensures
        share_amount_s(shares, amount, available) > shares,
{
    if shares == available {
        // one-to-one: the share amount is the requested amount itself
    } else {
        assert(amount * shares >= available * (shares + 1)) by (nonlinear_arith)
            requires
                1 <= available <= shares,
                amount > available,
        {
        }
        vstd::arithmetic::div_mod::lemma_div_is_ordered(
            available * (shares + 1),
            amount * shares,
            available,
        );
        vstd::arithmetic::div_mod::lemma_div_multiples_vanish(shares + 1, available);
    }
}

/// Burning the shares minted for a withdrawal of at most the available
/// balance keeps outstanding shares at or above the remaining available
/// balance.
pub proof fn lemma_share_amount_keeps_cover(shares: int, amount: int, available: int)
    requires
        0 <= amount <= available <= shares,
        available >= 1,
    ensures
        share_amount_s(shares, amount, available) <= amount + shares - available,
{
    if shares != available {
        assert(amount * shares <= available * (amount + shares - available)) by (nonlinear_arith)
            requires
                0 <= amount <= available <= shares,
        {
        }
        vstd::arithmetic::div_mod::lemma_div_is_ordered(
            amount * shares,
            available * (amount + shares - available),
            available,
        );
        vstd::arithmetic::div_mod::lemma_div_multiples_vanish(
            amount + shares - available,
            available,
        );
    }
}

/// Paying out a clamped withdrawal (all the shares a user owns) removes at
/// least the share cover excess: the pool's share/balance cover survives.
pub proof fn lemma_balance_amount_keeps_cover(shares: int, share_amount: int, available: int)
    requires
        0 <= share_amount <= shares,
        0 <= available <= shares,
    ensures
        balance_amount_s(shares, share_amount, available) >= share_amount + available - shares,
{
    if shares != 0 && shares != available {
        assert(share_amount * available >= shares * (share_amount + available - shares))
            by (nonlinear_arith)
            requires
                0 <= share_amount <= shares,
                0 <= available <= shares,
        {
        }
        if share_amount + available - shares >= 0 {
            vstd::arithmetic::div_mod::lemma_div_is_ordered(
                shares * (share_amount + available - shares),
                share_amount * available,
                shares,
            );
            vstd::arithmetic::div_mod::lemma_div_multiples_vanish(
                share_amount + available - shares,
                shares,
            );
        } else {
            vstd::arithmetic::div_mod::lemma_div_pos_is_pos(share_amount * available, shares);
            vstd::arithmetic::mul::lemma_mul_nonnegative(share_amount, available);
        }
    }
}

/// An amount scaled by a capped fraction of a year never exceeds the amount.
pub proof fn lemma_mul_ratio_le(value: int, numerator: int, denominator: int)
    requires
        0 <= value,
        0 <= numerator <= denominator,
        1 <= denominator,
    ensures
        value * numerator / denominator <= value,
{
    vstd::arithmetic::mul::lemma_mul_inequality(numerator, denominator, value);
    assert(value * numerator == numerator * value) by {
        vstd::arithmetic::mul::lemma_mul_is_commutative(value, numerator);
    }
    assert(value * denominator == denominator * value) by {
        vstd::arithmetic::mul::lemma_mul_is_commutative(value, denominator);
    }
    vstd::arithmetic::div_mod::lemma_div_is_ordered(
        value * numerator,
        value * denominator,
        denominator,
    );
    vstd::arithmetic::div_mod::lemma_div_by_multiple(value, denominator);
}

} // verus!
