//! The reward accumulator: lazy per-user settlement against the per-asset
//! reward-per-share accumulator, reward claiming, and the two-phase
//! asynchronous harvest that fans collected rewards into the accumulator.

use vstd::prelude::*;

use crate::state::HubState;
use crate::state::dist_sum;
use crate::math::pending_reward_s;
use crate::table::Table;
use crate::table::entries_map;
use crate::types::Asset;
use crate::types::AssetDistribution;
use crate::types::AssetInfo;
use crate::types::AssetKey;
use crate::types::Attr;
use crate::types::ContractError;
use crate::types::DEC_FRACTIONAL;
use crate::types::Dec;
use crate::types::HubMsg;
use crate::types::Coin;
use crate::types::Response;
use crate::types::UserAsset;

verus! {

/// The reward settlement of one user against one asset reads these entries:
/// the asset's accumulator must exist, and a user with a checkpoint must
/// have a share entry.
pub open spec fn settle_entries_ok_s(s: &HubState, user: Seq<char>, asset: AssetKey) -> bool {
    &&& s.asset_reward_rates@.contains_key(asset)
    &&& (s.user_reward_rates@.contains_key((user, asset)) ==> s.shares@.contains_key(
        (user, asset),
    ))
}

/// The user's share balance fits the fixed-point representation the
/// settlement arithmetic runs in.
pub open spec fn settle_range_ok_s(s: &HubState, user: Seq<char>, asset: AssetKey) -> bool {
    s.user_reward_rates@.contains_key((user, asset)) ==> s.shares@[(user, asset)] <= u128::MAX as int
        / DEC_FRACTIONAL as int
}

/// The settlement product fits 128 bits.
pub open spec fn settle_mul_ok_s(s: &HubState, user: Seq<char>, asset: AssetKey) -> bool {
    s.user_reward_rates@.contains_key((user, asset)) ==> (
    s.asset_reward_rates@[asset].atomics - s.user_reward_rates@[(user, asset)].atomics)
        * s.shares@[(user, asset)] <= u128::MAX as int
}

/// The reward a settlement pays: the accumulator's advance since the user's
/// checkpoint, times the user's shares, floored; zero on first touch.
pub open spec fn settle_pending_s(s: &HubState, user: Seq<char>, asset: AssetKey) -> int {
    if s.user_reward_rates@.contains_key((user, asset)) {
        pending_reward_s(
            s.asset_reward_rates@[asset].atomics as int,
            s.user_reward_rates@[(user, asset)].atomics as int,
            s.shares@[(user, asset)] as int,
        )
    } else {
        0
    }
}

/// Settles one user's pending reward against one asset, without writing
/// state: the reward owed now, and the accumulator value the caller must
/// advance the user's checkpoint to — the checkpoint advances on every
/// settlement. On first touch it initializes to the current accumulator
/// and the reward is zero: rewards predating the first stake are never
/// earned.
pub fn _claim_reward(state: &HubState, user: &String, asset: &AssetInfo) -> (r: Result<
    (u128, Dec),
    ContractError,
>)
    requires
        state.asset_reward_rates.wf(),
        state.user_reward_rates.wf(),
        state.shares.wf(),
        state.checkpoints_wf(),
    ensures
        match r {
            Ok((rw, rate)) => {
                &&& settle_entries_ok_s(state, user@, asset@)
                &&& settle_range_ok_s(state, user@, asset@)
                &&& settle_mul_ok_s(state, user@, asset@)
                &&& rate == state.asset_reward_rates@[asset@]
                &&& rw == settle_pending_s(state, user@, asset@)
            },
            Err(e) => {
                ||| (e is Std && !settle_entries_ok_s(state, user@, asset@))
                ||| (e is DecimalRangeExceeded && settle_entries_ok_s(state, user@, asset@)
                    && !settle_range_ok_s(state, user@, asset@))
                ||| (e is Overflow && settle_entries_ok_s(state, user@, asset@)
                    && settle_range_ok_s(state, user@, asset@) && !settle_mul_ok_s(
                    state,
                    user@,
                    asset@,
                ))
            },
        },
{
    let rate = match state.asset_reward_rates.get(asset) {
        Some(rate) => *rate,
        None => {
            return Err(ContractError::Std(String::from_str("asset reward rate not found")));
        },
    };
    let key = UserAsset { user: user.clone(), asset: asset.clone() };
    match state.user_reward_rates.get(&key) {
        Some(user_rate) => {
            let user_rate = *user_rate;
            let user_staked = match state.shares.get(&key) {
                Some(sh) => *sh,
                None => {
                    return Err(ContractError::Std(String::from_str("user shares not found")));
                },
            };
            if user_staked > u128::MAX / DEC_FRACTIONAL {
                return Err(ContractError::DecimalRangeExceeded);
            }
            assert(user_rate.atomics <= rate.atomics);
            let diff = rate.atomics - user_rate.atomics;
            let prod = match diff.checked_mul(user_staked) {
                Some(p) => p,
                None => {
                    return Err(ContractError::Overflow);
                },
            };
            let rewards = prod / DEC_FRACTIONAL;
            Ok((rewards, rate))
        },
        None => Ok((0, rate)),
    }
}

/// Everything [`claim_rewards`] guarantees.
pub open spec fn claim_rewards_post(
    s0: HubState,
    s1: HubState,
    r: Result<Response, ContractError>,
    sender: String,
    asset_info: AssetInfo,
) -> bool {
    &&& (s1.wf())
    &&& (r is Err ==> s1 == s0)
    &&& (HubState::rates_monotone(s0.asset_reward_rates@, s1.asset_reward_rates@))
    &&& (match r {
            Ok(resp) => {
                let k = (sender@, asset_info@);
                let pend = settle_pending_s(&s0, sender@, asset_info@);
                let carry = if s0.unclaimed@.contains_key(k) {
                    s0.unclaimed@[k] as int
                } else {
                    0
                };
                let total = pend + carry;
                &&& settle_entries_ok_s(&s0, sender@, asset_info@)
                &&& settle_range_ok_s(&s0, sender@, asset_info@)
                &&& settle_mul_ok_s(&s0, sender@, asset_info@)
                &&& total <= u128::MAX
                &&& s1.unclaimed@ =~= s0.unclaimed@.remove(k)
                &&& s1.user_reward_rates@ =~= s0.user_reward_rates@.insert(
                    k,
                    s0.asset_reward_rates@[asset_info@],
                )
                &&& s1.shares@ == s0.shares@
                &&& s1.totals@ == s0.totals@
                &&& s1.asset_configs@ == s0.asset_configs@
                &&& s1.asset_reward_rates@ == s0.asset_reward_rates@
                &&& s1.whitelist@ == s0.whitelist@
                &&& s1.config == s0.config
                &&& s1.validators@ == s0.validators@
                &&& s1.temp_balance == s0.temp_balance
                &&& (if total != 0 {
                    resp.messages@ =~= seq![
                        HubMsg::Transfer {
                            recipient: sender,
                            asset: Asset {
                                info: AssetInfo::Native(s0.config.reward_denom),
                                amount: total as u128,
                            },
                        },
                    ]
                } else {
                    resp.messages@ =~= Seq::<HubMsg>::empty()
                })
                &&& resp.attributes@.len() == 4
                &&& resp.attributes@[3] == Attr::RewardAmount(total as u128)
            },
            Err(e) => {
                ||| (e is Std && !settle_entries_ok_s(&s0, sender@, asset_info@))
                ||| (e is DecimalRangeExceeded && settle_entries_ok_s(
                    &s0,
                    sender@,
                    asset_info@,
                ) && !settle_range_ok_s(&s0, sender@, asset_info@))
                ||| (e is Overflow && settle_entries_ok_s(&s0, sender@, asset_info@)
                    && settle_range_ok_s(&s0, sender@, asset_info@) && (
                    !settle_mul_ok_s(&s0, sender@, asset_info@) || settle_pending_s(
                        &s0,
                        sender@,
                        asset_info@,
                    ) + (if s0.unclaimed@.contains_key((sender@, asset_info@)) {
                        s0.unclaimed@[(sender@, asset_info@)] as int
                    } else {
                        0
                    }) > u128::MAX))
            },
        })
}

/// Claims a user's accumulated rewards for one asset: the pending settlement
/// plus any unclaimed carry, both cleared, and the total paid out in the
/// reward denomination — possibly zero, always reported.
pub fn claim_rewards(state: &mut HubState, sender: String, asset_info: AssetInfo) -> (r: Result<
    Response,
    ContractError,
>)
    requires
        old(state).wf(),
    ensures
        claim_rewards_post(*old(state), *final(state), r, sender, asset_info),
{
    let ghost skey = (sender@, asset_info@);
    let rewards = match _claim_reward(state, &sender, &asset_info) {
        Ok(out) => out,
        Err(e) => {
            return Err(e);
        },
    };
    let (rw, rate) = rewards;
    let key = UserAsset { user: sender.clone(), asset: asset_info.clone() };
    let carry = match state.unclaimed.get(&key) {
        Some(c) => *c,
        None => 0,
    };
    let total = match rw.checked_add(carry) {
        Some(t) => t,
        None => {
            return Err(ContractError::Overflow);
        },
    };
    state.unclaimed.remove(&key);
    let rate_key = UserAsset { user: sender.clone(), asset: asset_info.clone() };
    state.user_reward_rates.insert(rate_key, rate);
    let mut resp = Response::new();
    resp.attributes.push(Attr::Action("claim_rewards"));
    resp.attributes.push(Attr::User(sender.clone()));
    resp.attributes.push(Attr::AssetRef(asset_info.clone()));
    resp.attributes.push(Attr::RewardAmount(total));
    if total != 0 {
        let reward_info = AssetInfo::Native(state.config.reward_denom.clone());
        resp.messages.push(
            HubMsg::Transfer { recipient: sender, asset: Asset { info: reward_info, amount: total } },
        );
    }
    proof {
        assert forall|k2: (Seq<char>, AssetKey)| #[trigger] state.user_reward_rates@.contains_key(
            k2,
        ) implies state.asset_reward_rates@.contains_key(k2.1)
            && state.user_reward_rates@[k2].atomics <= state.asset_reward_rates@[k2.1].atomics by {
            if k2 == skey {
            } else {
                assert(old(state).user_reward_rates@.contains_key(k2));
            }
        }
        HubState::lemma_wf_frame(*old(state), *state);
    }
    Ok(resp)
}

/// The amount of reward denomination attached to the triggering call: the
/// first matching coin, or zero.
pub open spec fn sent_reward_s(funds: Seq<Coin>, denom: Seq<char>) -> int
    decreases funds.len(),
{
    if funds.len() == 0 {
        0
    } else if funds[0].denom@ == denom {
        funds[0].amount as int
    } else {
        sent_reward_s(funds.subrange(1, funds.len() as int), denom)
    }
}

/// Everything [`update_rewards`] guarantees.
pub open spec fn update_rewards_post(
    s0: HubState,
    s1: HubState,
    r: Result<Response, ContractError>,
    funds: Vec<Coin>,
    contract_balance: u128,
) -> bool {
    &&& (s1.wf())
    &&& (r is Err ==> s1 == s0)
    &&& (HubState::rates_monotone(s0.asset_reward_rates@, s1.asset_reward_rates@))
    &&& (match r {
            Ok(resp) => {
                let sent = sent_reward_s(funds@, s0.config.reward_denom@);
                &&& s0.temp_balance is None
                &&& sent <= contract_balance
                &&& s1.temp_balance == Some((contract_balance - sent) as u128)
                &&& s1.config == s0.config
                &&& s1.whitelist == s0.whitelist
                &&& s1.shares == s0.shares
                &&& s1.totals == s0.totals
                &&& s1.asset_configs == s0.asset_configs
                &&& s1.asset_reward_rates == s0.asset_reward_rates
                &&& s1.user_reward_rates == s0.user_reward_rates
                &&& s1.unclaimed == s0.unclaimed
                &&& s1.validators == s0.validators
                &&& s1.reward_distribution == s0.reward_distribution
                &&& resp.tolerant_messages@.len() == s0.validators@.len()
                &&& (forall|i: int|
                    0 <= i < resp.tolerant_messages@.len() ==> (
                    #[trigger] resp.tolerant_messages@[i] matches
                        HubMsg::ClaimDelegationRewards { validator, denom }
                        && validator@ == s0.validators@[i]@
                        && denom@ == s0.config.alliance_token_denom@))
                &&& resp.messages@ =~= seq![HubMsg::UpdateRewardsCallback]
            },
            Err(e) => {
                ||| (e is Std && s0.temp_balance is Some)
                ||| (e is Overflow && s0.temp_balance is None && sent_reward_s(
                    funds@,
                    s0.config.reward_denom@,
                ) > contract_balance)
            },
        })
}

/// Starts a harvest: snapshots the current reward-denomination balance net
/// of funds attached to this very call (to avoid counting them as harvest),
/// dispatches one failure-tolerant claim per known validator, and one
/// self-addressed completion callback. A harvest that is already pending
/// fails fast rather than corrupt the snapshot.
pub fn update_rewards(state: &mut HubState, funds: &Vec<Coin>, contract_balance: u128) -> (r:
    Result<Response, ContractError>)
    requires
        old(state).wf(),
    ensures
        update_rewards_post(*old(state), *final(state), r, *funds, contract_balance),
{
    if state.temp_balance.is_some() {
        return Err(ContractError::Std(String::from_str("a harvest is already pending")));
    }
    let n = funds.len();
    let mut idx: usize = 0;
    let mut sent: u128 = 0;
    let mut found: bool = false;
    proof {
        assert(funds@.subrange(0, n as int) =~= funds@);
    }
    while idx < n
        invariant
            n == funds@.len(),
            idx <= n,
            !found ==> sent == 0 && sent_reward_s(funds@, state.config.reward_denom@)
                == sent_reward_s(
                funds@.subrange(idx as int, n as int),
                state.config.reward_denom@,
            ),
            found ==> sent == sent_reward_s(funds@, state.config.reward_denom@),
        decreases n - idx,
    {
        if !found {
            if funds[idx].denom == state.config.reward_denom {
                sent = funds[idx].amount;
                found = true;
                proof {
                    assert(funds@.subrange(idx as int, n as int)[0] == funds@[idx as int]);
                }
            } else {
                proof {
                    let tail = funds@.subrange(idx as int, n as int);
                    assert(tail[0] == funds@[idx as int]);
                    assert(tail.subrange(1, tail.len() as int) =~= funds@.subrange(
                        idx + 1,
                        n as int,
                    ));
                }
            }
        }
        idx = idx + 1;
    }
    proof {
        if !found {
            assert(funds@.subrange(n as int, n as int).len() == 0);
        }
    }
    let snapshot = match contract_balance.checked_sub(sent) {
        Some(v) => v,
        None => {
            return Err(ContractError::Overflow);
        },
    };
    let mut resp = Response::new();
    resp.attributes.push(Attr::Action("update_rewards"));
    let vn = state.validators.len();
    let mut vi: usize = 0;
    while vi < vn
        invariant
            vn == state.validators@.len(),
            vi <= vn,
            resp.messages@ =~= Seq::<HubMsg>::empty(),
            resp.tolerant_messages@.len() == vi,
            forall|i: int|
                0 <= i < vi ==> (#[trigger] resp.tolerant_messages@[i] matches
                    HubMsg::ClaimDelegationRewards { validator, denom }
                    && validator@ == state.validators@[i]@
                    && denom@ == state.config.alliance_token_denom@),
        decreases vn - vi,
    {
        resp.tolerant_messages.push(
            HubMsg::ClaimDelegationRewards {
                validator: state.validators[vi].clone(),
                denom: state.config.alliance_token_denom.clone(),
            },
        );
        vi = vi + 1;
    }
    resp.messages.push(HubMsg::UpdateRewardsCallback);
    state.temp_balance = Some(snapshot);
    proof {
        HubState::lemma_checkpoints_frame(*old(state), *state);
        HubState::lemma_wf_frame(*old(state), *state);
    }
    Ok(resp)
}

/// The accumulator an asset would show with the pending harvest bumps `pend`
/// applied over the stored accumulators `rates`: absent everywhere means
/// zero.
pub open spec fn cb_rate_of(rates: Map<AssetKey, Dec>, pend: Map<AssetKey, Dec>, a: AssetKey) -> int {
    if pend.contains_key(a) {
        pend[a].atomics as int
    } else if rates.contains_key(a) {
        rates[a].atomics as int
    } else {
        0
    }
}

/// The accumulator bumps the harvest fan-out computes from the first `n`
/// weight entries, fanning `rc` collected reward units out by weight:
/// an asset with no outstanding shares is dropped, a zero rate increment is
/// not written, and `None` means the arithmetic left its range and the
/// callback aborts.
pub open spec fn cb_fold_s(
    rates: Map<AssetKey, Dec>,
    totals: Map<AssetKey, (u128, u128)>,
    ds: Seq<AssetDistribution>,
    rc: u128,
    n: int,
) -> Option<Map<AssetKey, Dec>>
    decreases n,
{
    if n <= 0 {
        Some(Map::empty())
    } else {
        match cb_fold_s(rates, totals, ds, rc, n - 1) {
            None => None,
            Some(p) => {
                let e = ds[n - 1];
                let ts: int = if totals.contains_key(e.asset@) {
                    totals[e.asset@].1 as int
                } else {
                    0
                };
                if ts == 0 {
                    Some(p)
                } else if ts > u128::MAX as int / DEC_FRACTIONAL as int {
                    None
                } else {
                    let inc = (rc * e.distribution.atomics) / ts;
                    if inc > 0 {
                        let cur = cb_rate_of(rates, p, e.asset@);
                        if cur + inc > u128::MAX {
                            None
                        } else {
                            Some(p.insert(e.asset@, Dec { atomics: (cur + inc) as u128 }))
                        }
                    } else {
                        Some(p)
                    }
                }
            },
        }
    }
}

/// Every bump the fan-out writes is at least the accumulator it replaces:
/// the accumulator never decreases.
pub proof fn lemma_cb_fold_monotone(
    rates: Map<AssetKey, Dec>,
    totals: Map<AssetKey, (u128, u128)>,
    ds: Seq<AssetDistribution>,
    rc: u128,
    n: int,
)
    requires
        cb_fold_s(rates, totals, ds, rc, n) is Some,
    ensures
        forall|a: AssetKey| #[trigger] (cb_fold_s(rates, totals, ds, rc, n)->0).contains_key(a)
            ==> (cb_fold_s(rates, totals, ds, rc, n)->0)[a].atomics >= (
            if rates.contains_key(a) {
                rates[a].atomics as int
            } else {
                0
            }),
    decreases n,
{
    if n > 0 {
        lemma_cb_fold_monotone(rates, totals, ds, rc, n - 1);
        let p = cb_fold_s(rates, totals, ds, rc, n - 1)->0;
        let e = ds[n - 1];
        let ts: int = if totals.contains_key(e.asset@) {
            totals[e.asset@].1 as int
        } else {
            0
        };
        if ts != 0 && ts <= u128::MAX as int / DEC_FRACTIONAL as int {
            vstd::arithmetic::mul::lemma_mul_nonnegative(rc as int, e.distribution.atomics as int);
            vstd::arithmetic::div_mod::lemma_div_pos_is_pos(rc * e.distribution.atomics, ts);
        }
    }
}

/// Once the fan-out arithmetic aborts, it stays aborted: the whole callback
/// fails.
pub proof fn lemma_cb_fold_none_prop(
    rates: Map<AssetKey, Dec>,
    totals: Map<AssetKey, (u128, u128)>,
    ds: Seq<AssetDistribution>,
    rc: u128,
    m: int,
    n: int,
)
    requires
        0 <= m <= n,
        cb_fold_s(rates, totals, ds, rc, m) is None,
    ensures
        cb_fold_s(rates, totals, ds, rc, n) is None,
    decreases n - m,
{
    if m < n {
        lemma_cb_fold_none_prop(rates, totals, ds, rc, m, n - 1);
    }
}

/// Everything [`update_reward_callback`] guarantees.
pub open spec fn update_reward_callback_post(
    s0: HubState,
    s1: HubState,
    r: Result<Response, ContractError>,
    contract_address: String,
    sender: String,
    current_balance: u128,
) -> bool {
    &&& (s1.wf())
    &&& (r is Err ==> s1 == s0)
    &&& (HubState::rates_monotone(s0.asset_reward_rates@, s1.asset_reward_rates@))
    &&& (match r {
            Ok(resp) => {
                &&& sender@ == contract_address@
                &&& (s0.temp_balance matches Some(prev) && (current_balance >= prev && (
                s0.reward_distribution matches Some(d) && ({
                    let rc = (current_balance - prev) as u128;
                    &&& rc <= u128::MAX as int / DEC_FRACTIONAL as int
                    &&& (cb_fold_s(
                        s0.asset_reward_rates@,
                        s0.totals@,
                        d@,
                        rc,
                        d@.len() as int,
                    ) matches Some(p) && s1.asset_reward_rates@
                        =~= s0.asset_reward_rates@.union_prefer_right(p))
                }))))
                &&& s1.temp_balance is None
                &&& s1.config == s0.config
                &&& s1.whitelist == s0.whitelist
                &&& s1.shares == s0.shares
                &&& s1.totals == s0.totals
                &&& s1.asset_configs == s0.asset_configs
                &&& s1.user_reward_rates == s0.user_reward_rates
                &&& s1.unclaimed == s0.unclaimed
                &&& s1.validators == s0.validators
                &&& s1.reward_distribution == s0.reward_distribution
                &&& resp.messages@ =~= Seq::<HubMsg>::empty()
                &&& resp.tolerant_messages@ =~= Seq::<HubMsg>::empty()
            },
            Err(e) => {
                ||| (e is Unauthorized && sender@ != contract_address@)
                ||| (e is Std && sender@ == contract_address@ && s0.temp_balance is None)
                ||| (e is Overflow && sender@ == contract_address@ && (s0.temp_balance matches Some(prev) && current_balance < prev))
                ||| (e is Std && sender@ == contract_address@ && (s0.temp_balance matches Some(prev) && current_balance >= prev) && s0.reward_distribution is None)
                ||| (e is DecimalRangeExceeded && sender@ == contract_address@ && (s0.temp_balance matches Some(prev) && current_balance >= prev && current_balance
                    - prev > u128::MAX as int / DEC_FRACTIONAL as int) && s0.reward_distribution is Some)
                ||| ((e is DecimalRangeExceeded || e is Overflow) && sender@ == contract_address@
                    && (s0.temp_balance matches Some(prev) && (current_balance >= prev
                    && current_balance - prev <= u128::MAX as int / DEC_FRACTIONAL as int && (s0.reward_distribution matches Some(d) && cb_fold_s(
                    s0.asset_reward_rates@,
                    s0.totals@,
                    d@,
                    (current_balance - prev) as u128,
                    d@.len() as int,
                ) is None))))
            },
        })
}

/// Completes a harvest: only the ledger itself may call back. The harvested
/// amount is the growth of the reward balance since the snapshot; it is
/// fanned out by the distribution weights (which sum to exactly one), each
/// asset's allocation divided by its outstanding shares and added to its
/// accumulator. An allocation to an asset without shares is dropped, and
/// the snapshot is cleared.
pub fn update_reward_callback(
    state: &mut HubState,
    contract_address: &String,
    sender: &String,
    current_balance: u128,
) -> (r: Result<Response, ContractError>)
    requires
        old(state).wf(),
    ensures
        update_reward_callback_post(*old(state), *final(state), r, *contract_address, *sender, current_balance),
{
    if !(*sender == *contract_address) {
        return Err(ContractError::Unauthorized);
    }
    let prev = match state.temp_balance {
        Some(p) => p,
        None => {
            return Err(ContractError::Std(String::from_str("no harvest is pending")));
        },
    };
    let rc = match current_balance.checked_sub(prev) {
        Some(v) => v,
        None => {
            return Err(ContractError::Overflow);
        },
    };
    let ghost rates0 = state.asset_reward_rates@;
    let ghost totals0 = state.totals@;
    let dist = match &state.reward_distribution {
        Some(d) => d,
        None => {
            return Err(ContractError::Std(String::from_str("no reward distribution is set")));
        },
    };
    let ghost ds = dist@;
    let dn = dist.len();
    proof {
        // the stored weights sum to exactly one whole, so each asset's
        // allocation is the collected amount times its weight (dividing by
        // the weight total is the identity), and the list cannot be empty
        assert(dn > 0) by {
            if dn == 0 {
                assert(ds =~= Seq::<AssetDistribution>::empty());
            }
        }
    }

    if rc > u128::MAX / DEC_FRACTIONAL {
        return Err(ContractError::DecimalRangeExceeded);
    }

    let mut pending: Table<AssetInfo, Dec> = Table::new();
    let mut i: usize = 0;
    while i < dn
        invariant
            i <= dn,
            dn == ds.len(),
            dist@ == ds,
            *state == *old(state),
            state.wf(),
            state.asset_reward_rates@ == rates0,
            state.totals@ == totals0,
            state.reward_distribution is Some && state.reward_distribution->0@ == ds,
            state.temp_balance == Some(prev),
            sender@ == contract_address@,
            current_balance >= prev,
            rc == current_balance - prev,
            dist_sum(ds) == DEC_FRACTIONAL as int,
            rc <= u128::MAX as int / DEC_FRACTIONAL as int,
            pending.wf(),
            cb_fold_s(rates0, totals0, ds, rc, i as int) == Some(pending@),
        decreases dn - i,
    {
        let e = &dist[i];
        proof {
            crate::state::lemma_dist_entry_le(ds, i as int);
            vstd::arithmetic::mul::lemma_mul_upper_bound(
                rc as int,
                u128::MAX as int / DEC_FRACTIONAL as int,
                e.distribution.atomics as int,
                DEC_FRACTIONAL as int,
            );
            vstd::arithmetic::div_mod::lemma_fundamental_div_mod(
                u128::MAX as int,
                DEC_FRACTIONAL as int,
            );
            vstd::arithmetic::mul::lemma_mul_is_commutative(
                u128::MAX as int / DEC_FRACTIONAL as int,
                DEC_FRACTIONAL as int,
            );
        }
        let trd = rc * e.distribution.atomics;
        let ts = match state.totals.get(&e.asset) {
            Some(t) => t.1,
            None => 0,
        };
        if ts != 0 {
            if ts > u128::MAX / DEC_FRACTIONAL {
                proof {
                    assert(cb_fold_s(rates0, totals0, ds, rc, i as int + 1) is None);
                    lemma_cb_fold_none_prop(rates0, totals0, ds, rc, i as int + 1, dn as int);
                }
                return Err(ContractError::DecimalRangeExceeded);
            }
            let inc = trd / ts;
            if inc > 0 {
                let cur: u128 = match pending.get(&e.asset) {
                    Some(v) => v.atomics,
                    None => match state.asset_reward_rates.get(&e.asset) {
                        Some(r) => r.atomics,
                        None => 0,
                    },
                };
                proof {
                    assert(cb_rate_of(rates0, pending@, e.asset@) == cur as int);
                }
                let nr = match cur.checked_add(inc) {
                    Some(v) => v,
                    None => {
                        proof {
                            assert(cb_fold_s(rates0, totals0, ds, rc, i as int + 1) is None);
                            lemma_cb_fold_none_prop(
                                rates0,
                                totals0,
                                ds,
                                rc,
                                i as int + 1,
                                dn as int,
                            );
                        }
                        return Err(ContractError::Overflow);
                    },
                };
                pending.insert(e.asset.clone(), Dec { atomics: nr });
            }
        }
        i = i + 1;
    }
    let ghost pend_final = pending@;
    proof {
        lemma_cb_fold_monotone(rates0, totals0, ds, rc, dn as int);
    }

    let pn = pending.len();
    let mut j: usize = 0;
    proof {
        assert(pending.entries@.subrange(0, 0) =~= Seq::<(AssetInfo, Dec)>::empty());
        assert(rates0.union_prefer_right(entries_map(pending.entries@.subrange(0, 0))) =~= rates0);
    }
    while j < pn
        invariant
            j <= pn,
            pn == pending.entries@.len(),
            pending.wf(),
            pending@ == pend_final,
            state.asset_reward_rates.wf(),
            state.asset_reward_rates@ =~= rates0.union_prefer_right(
                entries_map(pending.entries@.subrange(0, j as int)),
            ),
            state.config == old(state).config,
            state.whitelist == old(state).whitelist,
            state.shares == old(state).shares,
            state.totals == old(state).totals,
            state.asset_configs == old(state).asset_configs,
            state.user_reward_rates == old(state).user_reward_rates,
            state.unclaimed == old(state).unclaimed,
            state.validators == old(state).validators,
            state.reward_distribution == old(state).reward_distribution,
            state.temp_balance == old(state).temp_balance,
        decreases pn - j,
    {
        let kv = pending.entry_at(j);
        let k = kv.0.clone();
        let v = kv.1;
        state.asset_reward_rates.insert(k, v);
        proof {
            let pre = pending.entries@.subrange(0, j as int);
            let post = pending.entries@.subrange(0, j as int + 1);
            assert(post.drop_last() =~= pre);
            assert(post.last() == pending.entries@[j as int]);
            assert(state.asset_reward_rates@ =~= rates0.union_prefer_right(entries_map(post)));
        }
        j = j + 1;
    }
    proof {
        assert(pending.entries@.subrange(0, pn as int) =~= pending.entries@);
    }
    state.temp_balance = None;
    proof {
        assert(HubState::rates_monotone(rates0, state.asset_reward_rates@)) by {
            assert forall|a: AssetKey| #[trigger] rates0.contains_key(a)
                implies state.asset_reward_rates@.contains_key(a)
                && rates0[a].atomics <= state.asset_reward_rates@[a].atomics by {
                assert(state.asset_reward_rates@ =~= rates0.union_prefer_right(pend_final));
                if pend_final.contains_key(a) {
                    assert(cb_fold_s(rates0, totals0, ds, rc, dn as int)->0 == pend_final);
                    assert((cb_fold_s(rates0, totals0, ds, rc, dn as int)->0).contains_key(a));
                }
            }
        }
        HubState::lemma_wf_frame_rates(*old(state), *state);
    }
    let mut resp = Response::new();
    resp.attributes.push(Attr::Action("update_rewards_callback"));
    Ok(resp)
}

} // verus!
