//! The vault ledger: staking into and unstaking from per-asset pools.
//!
//! Share accounting follows the mutual-fund rule: the first depositor gets
//! shares one to one, later depositors get `amount * total_shares /
//! available` (floored), and withdrawals convert back at `shares *
//! available / total_shares` (floored). Every conversion floors in the
//! vault's favour, which keeps outstanding shares covering the available
//! balance.

use vstd::prelude::*;

use crate::fee::_take;
use crate::fee::accrue_ok_s;
use crate::fee::accrued_cfg_s;
use crate::fee::accrued_taken_s;
use crate::fee::available_after_s;
use crate::fee::lemma_take_amount_nonneg;
use crate::math::balance_amount_s;
use crate::math::compute_balance_amount;
use crate::math::compute_share_amount;
use crate::math::lemma_balance_amount_keeps_cover;
use crate::math::lemma_balance_amount_le_available;
use crate::math::lemma_share_amount_ge;
use crate::math::lemma_share_amount_keeps_cover;
use crate::math::lemma_share_amount_over_available;
use crate::math::share_amount_s;
use crate::rewards::_claim_reward;
use crate::rewards::settle_entries_ok_s;
use crate::rewards::settle_mul_ok_s;
use crate::rewards::settle_pending_s;
use crate::rewards::settle_range_ok_s;
use crate::state::HubState;
use crate::state::lemma_sum_shares_insert;
use crate::state::lemma_sum_shares_nonneg;
use crate::state::sum_shares_for;
use crate::table::lemma_entries_map_contains;
use crate::table::lemma_entries_map_val;
use crate::types::Asset;
use crate::types::AssetConfigRuntime;
use crate::types::AssetInfo;
use crate::types::AssetKey;
use crate::types::Attr;
use crate::types::ContractError;
use crate::types::HubMsg;
use crate::types::Response;
use crate::types::UserAsset;

verus! {

/// The fee state an asset starts a vault operation from.
pub open spec fn cfg_or_init_s(s: &HubState, a: AssetKey) -> AssetConfigRuntime {
    if s.asset_configs@.contains_key(a) {
        s.asset_configs@[a]
    } else {
        AssetConfigRuntime::spec_init()
    }
}

/// A user's share balance, zero when absent.
pub open spec fn user_shares_s(s: &HubState, k: (Seq<char>, AssetKey)) -> int {
    if s.shares@.contains_key(k) {
        s.shares@[k] as int
    } else {
        0
    }
}

/// A user's unclaimed reward carry, zero when absent.
pub open spec fn carry_s(s: &HubState, k: (Seq<char>, AssetKey)) -> int {
    if s.unclaimed@.contains_key(k) {
        s.unclaimed@[k] as int
    } else {
        0
    }
}

/// A user's share entry never exceeds the asset's outstanding shares.
pub proof fn lemma_user_shares_le_total(s: &HubState, k: (Seq<char>, AssetKey))
    requires
        s.wf(),
    ensures
        user_shares_s(s, k) <= s.total_shares_of(k.1),
        user_shares_s(s, k) >= 0,
{
    if s.shares@.contains_key(k) {
        lemma_entries_map_contains(s.shares.entries@, k);
        let i = choose|i: int|
            0 <= i < s.shares.entries@.len() && s.shares.entries@[i].0@ == k;
        lemma_entries_map_val(s.shares.entries@, i);
        crate::state::lemma_sum_shares_entry(s.shares.entries@, i, k.1);
        assert(sum_shares_for(s.shares.entries@, k.1) == s.total_shares_of(k.1));
    } else {
        lemma_sum_shares_nonneg(s.shares.entries@, k.1);
        assert(sum_shares_for(s.shares.entries@, k.1) == s.total_shares_of(k.1));
    }
}

/// Everything [`stake`] guarantees, stated over the state before (`s0`)
/// and after (`s1`) and the result.
pub open spec fn stake_post(
    s0: HubState,
    s1: HubState,
    r: Result<Response, ContractError>,
    now_s: u64,
    asset: AssetInfo,
    amount: u128,
    recipient: String,
) -> bool {
    &&& (s1.wf())
    &&& (s1.clocks_ok(now_s))
    &&& (r is Err ==> s1 == s0)
    &&& (HubState::rates_monotone(s0.asset_reward_rates@, s1.asset_reward_rates@))
    &&& (({
            let k = (recipient@, asset@);
            let pend = settle_pending_s(&s0, recipient@, asset@);
            let carry0 = carry_s(&s0, k);
            let bal0 = s0.total_balance_of(asset@);
            let sh0 = s0.total_shares_of(asset@);
            let cfg0 = cfg_or_init_s(&s0, asset@);
            let avail = available_after_s(cfg0, now_s, bal0 as u128);
            let minted = share_amount_s(sh0, amount as int, avail);
            let us0 = user_shares_s(&s0, k);
            match r {
                Ok(resp) => {
                    &&& s0.whitelist@.contains_key(asset@)
                    &&& settle_entries_ok_s(&s0, recipient@, asset@)
                    &&& settle_range_ok_s(&s0, recipient@, asset@)
                    &&& settle_mul_ok_s(&s0, recipient@, asset@)
                    &&& carry0 + pend <= u128::MAX
                    &&& accrue_ok_s(cfg0, now_s, bal0 as u128)
                    &&& minted <= u128::MAX
                    &&& us0 + minted <= u128::MAX
                    &&& bal0 + amount <= u128::MAX
                    &&& sh0 + minted <= u128::MAX
                    &&& s1.unclaimed@ =~= (if pend != 0 {
                        s0.unclaimed@.insert(k, (carry0 + pend) as u128)
                    } else {
                        s0.unclaimed@
                    })
                    &&& s1.asset_configs@ =~= (
                    if s0.asset_configs@.contains_key(asset@)
                        && cfg0.yearly_take_rate.atomics != 0 {
                        s0.asset_configs@.insert(
                            asset@,
                            accrued_cfg_s(cfg0, now_s, bal0 as u128),
                        )
                    } else {
                        s0.asset_configs@
                    })
                    &&& s1.shares@ =~= s0.shares@.insert(
                        k,
                        (us0 + minted) as u128,
                    )
                    &&& s1.totals@ =~= s0.totals@.insert(
                        asset@,
                        ((bal0 + amount) as u128, (sh0 + minted) as u128),
                    )
                    &&& s1.user_reward_rates@ =~= s0.user_reward_rates@.insert(
                        k,
                        s0.asset_reward_rates@[asset@],
                    )
                    &&& s1.config == s0.config
                    &&& s1.whitelist == s0.whitelist
                    &&& s1.asset_reward_rates == s0.asset_reward_rates
                    &&& s1.validators == s0.validators
                    &&& s1.reward_distribution == s0.reward_distribution
                    &&& s1.temp_balance == s0.temp_balance
                    &&& resp.messages@ =~= Seq::<HubMsg>::empty()
                    &&& resp.tolerant_messages@ =~= Seq::<HubMsg>::empty()
                    &&& resp.attributes@.len() == 5
                    &&& resp.attributes@[3] == Attr::Amount(amount)
                    &&& resp.attributes@[4] == Attr::Share(minted as u128)
                },
                Err(e) => {
                    let wl = s0.whitelist@.contains_key(asset@);
                    let entries_ok = settle_entries_ok_s(&s0, recipient@, asset@);
                    let range_ok = settle_range_ok_s(&s0, recipient@, asset@);
                    let mul_ok = settle_mul_ok_s(&s0, recipient@, asset@);
                    ||| (e is AssetNotWhitelisted && !wl)
                    ||| (e is Std && wl && !entries_ok)
                    ||| (e is DecimalRangeExceeded && wl && entries_ok && !range_ok)
                    ||| (e is Overflow && wl && entries_ok && range_ok && !mul_ok)
                    ||| (e is Overflow && wl && entries_ok && range_ok && mul_ok && carry0 + pend
                        > u128::MAX)
                    ||| (e is Overflow && wl && entries_ok && range_ok && mul_ok && carry0 + pend
                        <= u128::MAX && !accrue_ok_s(cfg0, now_s, bal0 as u128))
                    ||| (e is Overflow && wl && entries_ok && range_ok && mul_ok && carry0 + pend
                        <= u128::MAX && accrue_ok_s(cfg0, now_s, bal0 as u128) && (minted
                        > u128::MAX || us0 + minted > u128::MAX || bal0 + amount > u128::MAX || sh0
                        + minted > u128::MAX))
                },
            }
        }))
}

/// Locks `amount` of a whitelisted asset for `recipient`: settles the
/// recipient's pending reward first (so the new shares cannot dilute it),
/// accrues the fee, mints shares against the fee-adjusted available balance
/// — one to one into an empty pool, proportionally floored otherwise — and
/// resets the recipient's reward checkpoint to the current accumulator.
pub fn stake(
    state: &mut HubState,
    now_s: u64,
    asset: AssetInfo,
    amount: u128,
    recipient: String,
) -> (r: Result<Response, ContractError>)
    requires
        old(state).wf(),
        old(state).clocks_ok(now_s),
    ensures
        stake_post(*old(state), *final(state), r, now_s, asset, amount, recipient),
{
    let ghost k = (recipient@, asset@);
    if !state.whitelist.contains_key(&asset) {
        return Err(ContractError::AssetNotWhitelisted);
    }
    let settle = match _claim_reward(state, &recipient, &asset) {
        Ok(t) => t,
        Err(e) => {
            return Err(e);
        },
    };
    let (rw, rate) = settle;
    let key = UserAsset { user: recipient.clone(), asset: asset.clone() };
    let carry0 = match state.unclaimed.get(&key) {
        Some(c) => *c,
        None => 0,
    };
    let new_carry = if rw != 0 {
        match carry0.checked_add(rw) {
            Some(v) => v,
            None => {
                return Err(ContractError::Overflow);
            },
        }
    } else {
        0
    };
    let (bal0, sh0) = match state.totals.get(&asset) {
        Some(t) => (t.0, t.1),
        None => (0, 0),
    };
    let take_out = match _take(state, now_s, &asset, bal0) {
        Ok(t) => t,
        Err(e) => {
            return Err(e);
        },
    };
    let (new_cfg, avail, persist_cfg) = take_out;
    let minted = match compute_share_amount(sh0, amount, avail) {
        Ok(v) => v,
        Err(e) => {
            return Err(e);
        },
    };
    let us0 = match state.shares.get(&key) {
        Some(s) => *s,
        None => 0,
    };
    let new_us = match us0.checked_add(minted) {
        Some(v) => v,
        None => {
            return Err(ContractError::Overflow);
        },
    };
    let new_bal = match bal0.checked_add(amount) {
        Some(v) => v,
        None => {
            return Err(ContractError::Overflow);
        },
    };
    let new_sh = match sh0.checked_add(minted) {
        Some(v) => v,
        None => {
            return Err(ContractError::Overflow);
        },
    };

    let ghost shares_before = state.shares.entries@;
    let ghost cfg0 = cfg_or_init_s(state, asset@);
    if rw != 0 {
        let carry_key = UserAsset { user: recipient.clone(), asset: asset.clone() };
        state.unclaimed.insert(carry_key, new_carry);
    }
    if persist_cfg {
        state.asset_configs.insert(asset.clone(), new_cfg);
    }
    state.shares.insert(UserAsset { user: recipient.clone(), asset: asset.clone() }, new_us);
    state.totals.insert(asset.clone(), (new_bal, new_sh));
    state.user_reward_rates.insert(key, rate);

    proof {
        lemma_sum_shares_insert(shares_before, state.shares.entries@, UserAsset { user: recipient, asset: asset }, new_us);
    }

    let mut resp = Response::new();
    resp.attributes.push(Attr::Action("stake"));
    resp.attributes.push(Attr::User(recipient.clone()));
    resp.attributes.push(Attr::AssetRef(asset.clone()));
    resp.attributes.push(Attr::Amount(amount));
    resp.attributes.push(Attr::Share(minted));

    proof {
        let s0 = old(state);
        lemma_take_amount_nonneg(cfg0, now_s, bal0);
        assert(state.taken_of(asset@) == accrued_taken_s(cfg0, now_s, bal0));
        lemma_user_shares_le_total(s0, k);
        assert forall|a: AssetKey| #[trigger] sum_shares_for(state.shares.entries@, a)
            == state.total_shares_of(a) by {
            assert(sum_shares_for(s0.shares.entries@, a) == s0.total_shares_of(a));
        }
        assert forall|a: AssetKey| #[trigger] state.total_shares_of(a)
            >= state.total_balance_of(a) - state.taken_of(a) by {
            assert(s0.total_shares_of(a) >= s0.total_balance_of(a) - s0.taken_of(a));
            if a == asset@ {
                lemma_share_amount_ge(sh0 as int, amount as int, avail as int);
            }
        }
        assert forall|a: AssetKey| #[trigger] state.asset_configs@.contains_key(a)
            implies state.asset_configs@[a].harvested <= state.asset_configs@[a].taken by {
            if a == asset@ && persist_cfg {
            } else {
                assert(s0.asset_configs@.contains_key(a));
            }
        }
        assert forall|a: AssetKey| #[trigger] state.taken_of(a) <= state.total_balance_of(a) by {
            assert(s0.taken_of(a) <= s0.total_balance_of(a));
        }
        assert forall|k2: (Seq<char>, AssetKey)| #[trigger] state.user_reward_rates@.contains_key(
            k2,
        ) implies state.asset_reward_rates@.contains_key(k2.1)
            && state.user_reward_rates@[k2].atomics <= state.asset_reward_rates@[k2.1].atomics by {
            if k2 != k {
                assert(s0.user_reward_rates@.contains_key(k2));
            }
        }
        assert forall|a: AssetKey| #[trigger] state.asset_configs@.contains_key(a)
            implies state.asset_configs@[a].last_taken_s <= now_s by {
            if a == asset@ && persist_cfg {
            } else {
                assert(s0.asset_configs@.contains_key(a));
            }
        }
    }
    Ok(resp)
}

/// The shares a withdrawal burns: the requested amount converted to shares,
/// clamped to the shares the user owns.
pub open spec fn unstake_burn_s(sh0: int, us0: int, req: int, avail: int) -> int {
    if share_amount_s(sh0, req, avail) > us0 {
        us0
    } else {
        share_amount_s(sh0, req, avail)
    }
}

/// The amount a withdrawal pays: the requested amount, unless the request
/// exceeded the user's holding — then the clamped shares converted back,
/// proportionally and floored.
pub open spec fn unstake_payout_s(sh0: int, us0: int, req: int, avail: int) -> int {
    if share_amount_s(sh0, req, avail) > us0 {
        balance_amount_s(sh0, us0, avail)
    } else {
        req
    }
}

/// Everything [`unstake`] guarantees.
pub open spec fn unstake_post(
    s0: HubState,
    s1: HubState,
    r: Result<Response, ContractError>,
    now_s: u64,
    sender: String,
    asset: Asset,
) -> bool {
    &&& (s1.wf())
    &&& (s1.clocks_ok(now_s))
    &&& (r is Err ==> s1 == s0)
    &&& (HubState::rates_monotone(s0.asset_reward_rates@, s1.asset_reward_rates@))
    &&& (({
            let k = (sender@, asset.info@);
            let req = asset.amount;
            let pend = settle_pending_s(&s0, sender@, asset.info@);
            let carry0 = carry_s(&s0, k);
            let bal0 = s0.total_balance_of(asset.info@);
            let sh0 = s0.total_shares_of(asset.info@);
            let cfg0 = cfg_or_init_s(&s0, asset.info@);
            let avail = available_after_s(cfg0, now_s, bal0 as u128);
            let us0 = user_shares_s(&s0, k);
            let burn = unstake_burn_s(sh0, us0, req as int, avail);
            let payout = unstake_payout_s(sh0, us0, req as int, avail);
            match r {
                Ok(resp) => {
                    &&& req != 0
                    &&& settle_entries_ok_s(&s0, sender@, asset.info@)
                    &&& settle_range_ok_s(&s0, sender@, asset.info@)
                    &&& settle_mul_ok_s(&s0, sender@, asset.info@)
                    &&& carry0 + pend <= u128::MAX
                    &&& accrue_ok_s(cfg0, now_s, bal0 as u128)
                    &&& share_amount_s(sh0, req as int, avail) <= u128::MAX
                    &&& us0 != 0
                    &&& payout <= avail
                    &&& s1.unclaimed@ =~= (if pend != 0 {
                        s0.unclaimed@.insert(k, (carry0 + pend) as u128)
                    } else {
                        s0.unclaimed@
                    })
                    &&& s1.asset_configs@ =~= (
                    if s0.asset_configs@.contains_key(asset.info@)
                        && cfg0.yearly_take_rate.atomics != 0 {
                        s0.asset_configs@.insert(
                            asset.info@,
                            accrued_cfg_s(cfg0, now_s, bal0 as u128),
                        )
                    } else {
                        s0.asset_configs@
                    })
                    &&& s1.shares@ =~= s0.shares@.insert(k, (us0 - burn) as u128)
                    &&& s1.totals@ =~= s0.totals@.insert(
                        asset.info@,
                        ((bal0 - payout) as u128, (sh0 - burn) as u128),
                    )
                    &&& s1.user_reward_rates@ =~= s0.user_reward_rates@.insert(
                        k,
                        s0.asset_reward_rates@[asset.info@],
                    )
                    &&& s1.config == s0.config
                    &&& s1.whitelist == s0.whitelist
                    &&& s1.asset_reward_rates == s0.asset_reward_rates
                    &&& s1.validators == s0.validators
                    &&& s1.reward_distribution == s0.reward_distribution
                    &&& s1.temp_balance == s0.temp_balance
                    &&& resp.messages@ =~= seq![
                        HubMsg::Transfer {
                            recipient: sender,
                            asset: Asset { info: asset.info, amount: payout as u128 },
                        },
                    ]
                    &&& resp.tolerant_messages@ =~= Seq::<HubMsg>::empty()
                    &&& resp.attributes@.len() == 4
                    &&& resp.attributes@[3] == Attr::Amount(payout as u128)
                },
                Err(e) => {
                    let entries_ok = settle_entries_ok_s(&s0, sender@, asset.info@);
                    let range_ok = settle_range_ok_s(&s0, sender@, asset.info@);
                    let mul_ok = settle_mul_ok_s(&s0, sender@, asset.info@);
                    ||| (e is AmountCannotBeZero && req == 0)
                    ||| (e is Std && req != 0 && !entries_ok)
                    ||| (e is DecimalRangeExceeded && req != 0 && entries_ok && !range_ok)
                    ||| (e is Overflow && req != 0 && entries_ok && range_ok && !mul_ok)
                    ||| (e is Overflow && req != 0 && entries_ok && range_ok && mul_ok && carry0
                        + pend > u128::MAX)
                    ||| (e is Overflow && req != 0 && entries_ok && range_ok && mul_ok && carry0
                        + pend <= u128::MAX && !accrue_ok_s(cfg0, now_s, bal0 as u128))
                    ||| (e is Overflow && req != 0 && entries_ok && range_ok && mul_ok && carry0
                        + pend <= u128::MAX && accrue_ok_s(cfg0, now_s, bal0 as u128)
                        && share_amount_s(sh0, req as int, avail) > u128::MAX)
                    ||| (e is InsufficientBalance && req != 0 && entries_ok && range_ok && mul_ok
                        && carry0 + pend <= u128::MAX && accrue_ok_s(cfg0, now_s, bal0 as u128)
                        && share_amount_s(sh0, req as int, avail) <= u128::MAX && us0 == 0)
                    ||| (e is InsufficientBalance && req != 0 && entries_ok && range_ok && mul_ok
                        && carry0 + pend <= u128::MAX && accrue_ok_s(cfg0, now_s, bal0 as u128)
                        && share_amount_s(sh0, req as int, avail) <= u128::MAX && us0 != 0
                        && unstake_payout_s(sh0, us0, req as int, avail) > avail)
                },
            }
        }))
}

/// Withdraws from a pool: settles the withdrawer's pending reward, accrues
/// the fee, converts the requested amount to shares against the
/// fee-adjusted available balance, and — if that exceeds the shares owned —
/// clamps to the owned shares and pays their proportional value instead
/// ("withdraw everything you own" rather than failing). A withdrawer with
/// no shares is refused, and so is a payout that would dip into the
/// fee-owed part of the pool: deposits always cover the cumulative taken
/// fees.
pub fn unstake(state: &mut HubState, now_s: u64, sender: String, asset: Asset) -> (r: Result<
    Response,
    ContractError,
>)
    requires
        old(state).wf(),
        old(state).clocks_ok(now_s),
    ensures
        unstake_post(*old(state), *final(state), r, now_s, sender, asset),
{
    let ghost k = (sender@, asset.info@);
    if asset.amount == 0 {
        return Err(ContractError::AmountCannotBeZero);
    }
    let settle = match _claim_reward(state, &sender, &asset.info) {
        Ok(t) => t,
        Err(e) => {
            return Err(e);
        },
    };
    let (rw, rate) = settle;
    let key = UserAsset { user: sender.clone(), asset: asset.info.clone() };
    let carry0 = match state.unclaimed.get(&key) {
        Some(c) => *c,
        None => 0,
    };
    let new_carry = if rw != 0 {
        match carry0.checked_add(rw) {
            Some(v) => v,
            None => {
                return Err(ContractError::Overflow);
            },
        }
    } else {
        0
    };
    let (bal0, sh0) = match state.totals.get(&asset.info) {
        Some(t) => (t.0, t.1),
        None => (0, 0),
    };
    let take_out = match _take(state, now_s, &asset.info, bal0) {
        Ok(t) => t,
        Err(e) => {
            return Err(e);
        },
    };
    let (new_cfg, avail, persist_cfg) = take_out;
    let mut withdraw_amount = asset.amount;
    let mut share_amount = match compute_share_amount(sh0, withdraw_amount, avail) {
        Ok(v) => v,
        Err(e) => {
            return Err(e);
        },
    };
    let us0 = match state.shares.get(&key) {
        Some(s) => *s,
        None => 0,
    };
    if us0 == 0 {
        return Err(ContractError::InsufficientBalance);
    }
    proof {
        lemma_user_shares_le_total(state, k);
    }
    if us0 < share_amount {
        share_amount = us0;
        withdraw_amount = match compute_balance_amount(sh0, share_amount, avail) {
            Ok(v) => v,
            Err(_) => {
                proof {
                    lemma_balance_amount_le_available(sh0 as int, us0 as int, avail as int);
                }
                return Err(ContractError::Overflow);
            },
        };
    }
    if withdraw_amount > avail {
        // the request would pay out of the fee-owed part of the pool:
        // deposits always cover the cumulative taken fees
        proof {
            if share_amount_s(sh0 as int, asset.amount as int, avail as int) > us0 {
                lemma_balance_amount_le_available(sh0 as int, us0 as int, avail as int);
            }
        }
        return Err(ContractError::InsufficientBalance);
    }
    let new_us = us0 - share_amount;
    let new_bal = bal0 - withdraw_amount;
    let new_sh = sh0 - share_amount;

    let ghost shares_before = state.shares.entries@;
    let ghost cfg0 = cfg_or_init_s(state, asset.info@);
    if rw != 0 {
        let carry_key = UserAsset { user: sender.clone(), asset: asset.info.clone() };
        state.unclaimed.insert(carry_key, new_carry);
    }
    if persist_cfg {
        state.asset_configs.insert(asset.info.clone(), new_cfg);
    }
    state.shares.insert(UserAsset { user: sender.clone(), asset: asset.info.clone() }, new_us);
    state.totals.insert(asset.info.clone(), (new_bal, new_sh));
    state.user_reward_rates.insert(key, rate);

    proof {
        lemma_sum_shares_insert(
            shares_before,
            state.shares.entries@,
            UserAsset { user: sender, asset: asset.info },
            new_us,
        );
    }

    let mut resp = Response::new();
    resp.attributes.push(Attr::Action("unstake"));
    resp.attributes.push(Attr::User(sender.clone()));
    resp.attributes.push(Attr::AssetRef(asset.info.clone()));
    resp.attributes.push(Attr::Amount(withdraw_amount));
    resp.messages.push(
        HubMsg::Transfer {
            recipient: sender,
            asset: Asset { info: asset.info, amount: withdraw_amount },
        },
    );

    proof {
        let s0 = old(state);
        let req = asset.amount as int;
        lemma_take_amount_nonneg(cfg0, now_s, bal0);
        assert(state.taken_of(asset.info@) == accrued_taken_s(cfg0, now_s, bal0));
        assert forall|a: AssetKey| #[trigger] sum_shares_for(state.shares.entries@, a)
            == state.total_shares_of(a) by {
            assert(sum_shares_for(s0.shares.entries@, a) == s0.total_shares_of(a));
        }
        assert forall|a: AssetKey| #[trigger] state.total_shares_of(a)
            >= state.total_balance_of(a) - state.taken_of(a) by {
            assert(s0.total_shares_of(a) >= s0.total_balance_of(a) - s0.taken_of(a));
            if a == asset.info@ {
                if share_amount_s(sh0 as int, req, avail as int) > us0 {
                    lemma_balance_amount_keeps_cover(sh0 as int, us0 as int, avail as int);
                } else {
                    if avail > 0 && req > avail {
                        lemma_share_amount_over_available(sh0 as int, req, avail as int);
                        assert(false);
                    }
                    if avail > 0 {
                        lemma_share_amount_keeps_cover(sh0 as int, req, avail as int);
                    }
                }
            }
        }
        assert forall|a: AssetKey| #[trigger] state.asset_configs@.contains_key(a)
            implies state.asset_configs@[a].harvested <= state.asset_configs@[a].taken by {
            if a == asset.info@ && persist_cfg {
            } else {
                assert(s0.asset_configs@.contains_key(a));
            }
        }
        assert forall|a: AssetKey| #[trigger] state.taken_of(a) <= state.total_balance_of(a) by {
            assert(s0.taken_of(a) <= s0.total_balance_of(a));
        }
        assert forall|k2: (Seq<char>, AssetKey)| #[trigger] state.user_reward_rates@.contains_key(
            k2,
        ) implies state.asset_reward_rates@.contains_key(k2.1)
            && state.user_reward_rates@[k2].atomics <= state.asset_reward_rates@[k2.1].atomics by {
            if k2 != k {
                assert(s0.user_reward_rates@.contains_key(k2));
            }
        }
        assert forall|a: AssetKey| #[trigger] state.asset_configs@.contains_key(a)
            implies state.asset_configs@[a].last_taken_s <= now_s by {
            if a == asset.info@ && persist_cfg {
            } else {
                assert(s0.asset_configs@.contains_key(a));
            }
        }
    }
    Ok(resp)
}

} // verus!
