//! Read-only queries: pure projections of the ledger state, computing the
//! fee-adjusted available balance and pending rewards on the fly, with no
//! mutation.

use vstd::prelude::*;

use crate::fee::_take;
use crate::fee::accrue_ok_s;
use crate::fee::available_after_s;
use crate::math::balance_amount_s;
use crate::math::compute_balance_amount;
use crate::math::pending_reward_s;
use crate::state::HubState;
use crate::types::AllPendingRewardsQuery;
use crate::types::AllStakedBalancesQuery;
use crate::types::AssetInfo;
use crate::types::AssetKey;
use crate::types::AssetQuery;
use crate::types::ContractError;
use crate::types::DEC_FRACTIONAL;
use crate::types::Dec;
use crate::types::PendingRewardsRes;
use crate::types::QueryMsg;
use crate::types::QueryResponse;
use crate::types::StakedBalanceRes;
use crate::types::UserAsset;
use crate::vault::carry_s;
use crate::vault::cfg_or_init_s;
use crate::vault::lemma_user_shares_le_total;
use crate::vault::user_shares_s;

verus! {

/// The pool balance an asset records, zero when absent.
pub open spec fn recorded_balance_s(s: &HubState, a: AssetKey) -> u128 {
    if s.totals@.contains_key(a) {
        s.totals@[a].0
    } else {
        0
    }
}

/// The fee-adjusted balance an asset would show if its fee accrued now.
pub open spec fn preview_available_s(s: &HubState, now_s: u64, a: AssetKey) -> int {
    available_after_s(cfg_or_init_s(s, a), now_s, recorded_balance_s(s, a))
}

/// The single-asset pending-rewards query answers exactly when the user
/// holds a checkpoint and a share entry for the asset, the asset has an
/// accumulator, and the settlement arithmetic fits 128 bits.
pub open spec fn pending_query_ok_s(s: &HubState, user: Seq<char>, a: AssetKey) -> bool {
    let k = (user, a);
    &&& s.user_reward_rates@.contains_key(k)
    &&& s.asset_reward_rates@.contains_key(a)
    &&& s.shares@.contains_key(k)
    &&& s.shares@[k] <= u128::MAX as int / DEC_FRACTIONAL as int
    &&& (s.asset_reward_rates@[a].atomics - s.user_reward_rates@[k].atomics) * s.shares@[k]
        <= u128::MAX as int
    &&& pending_reward_s(
        s.asset_reward_rates@[a].atomics as int,
        s.user_reward_rates@[k].atomics as int,
        s.shares@[k] as int,
    ) + carry_s(s, k) <= u128::MAX as int
}

/// Why the single-asset pending-rewards query refuses, by error kind: a
/// missing entry, a share balance beyond the fixed-point range, or
/// settlement arithmetic leaving 128 bits.
pub open spec fn pending_query_err_s(
    s: &HubState,
    user: Seq<char>,
    a: AssetKey,
    e: ContractError,
) -> bool {
    let k = (user, a);
    let entries_ok = s.user_reward_rates@.contains_key(k) && s.asset_reward_rates@.contains_key(a)
        && s.shares@.contains_key(k);
    ||| (e is Std && !entries_ok)
    ||| (e is DecimalRangeExceeded && entries_ok && s.shares@[k] > u128::MAX as int
        / DEC_FRACTIONAL as int)
    ||| (e is Overflow && entries_ok && s.shares@[k] <= u128::MAX as int / DEC_FRACTIONAL as int
        && ((s.asset_reward_rates@[a].atomics - s.user_reward_rates@[k].atomics) * s.shares@[k]
        > u128::MAX as int || pending_reward_s(
        s.asset_reward_rates@[a].atomics as int,
        s.user_reward_rates@[k].atomics as int,
        s.shares@[k] as int,
    ) + carry_s(s, k) > u128::MAX as int))
}

/// One row of a staked-balances listing is correct for one whitelist entry.
pub open spec fn staked_row_ok(
    s: &HubState,
    now_s: u64,
    user: Seq<char>,
    row: StakedBalanceRes,
    e: (AssetInfo, String),
) -> bool {
    row.asset@ == e.0@ && row.balance == preview_user_balance_s(s, now_s, user, e.0@)
}

/// The amount a user's shares in an asset are worth right now.
pub open spec fn preview_user_balance_s(s: &HubState, now_s: u64, user: Seq<char>, a: AssetKey) -> int {
    balance_amount_s(s.total_shares_of(a), user_shares_s(s, (user, a)), preview_available_s(s, now_s, a))
}

/// Everything [`get_config`] guarantees.
pub open spec fn config_query_post(
    s0: HubState,
    r: QueryResponse,
) -> bool {
    &&& ((r matches QueryResponse::Config(c) && c == s0.config))
}

pub fn get_config(state: &HubState) -> (r: QueryResponse)
    ensures
        config_query_post(*state, r),
{
    QueryResponse::Config(state.config.clone())
}

/// Everything [`get_validators`] guarantees.
pub open spec fn validators_query_post(
    s0: HubState,
    r: QueryResponse,
) -> bool {
    &&& ((r matches QueryResponse::Validators(v) && v@.len() == s0.validators@.len() && (forall|
            i: int,
        | 0 <= i < v@.len() ==> #[trigger] v@[i]@ == s0.validators@[i]@)))
}

pub fn get_validators(state: &HubState) -> (r: QueryResponse)
    ensures
        validators_query_post(*state, r),
{
    let mut out: Vec<String> = Vec::new();
    let n = state.validators.len();
    let mut i: usize = 0;
    while i < n
        invariant
            i <= n,
            n == state.validators@.len(),
            out@.len() == i,
            forall|j: int| 0 <= j < i ==> #[trigger] out@[j]@ == state.validators@[j]@,
        decreases n - i,
    {
        out.push(state.validators[i].clone());
        i = i + 1;
    }
    QueryResponse::Validators(out)
}

/// Whether some group already carries this chain tag.
pub open spec fn has_group(groups: Seq<(String, Vec<AssetInfo>)>, chain: Seq<char>) -> bool {
    exists|gi: int| 0 <= gi < groups.len() && #[trigger] groups[gi].0@ == chain
}

/// The assets whitelisted for a chain, in whitelist order.
pub open spec fn chain_assets_s(
    entries: Seq<(AssetInfo, String)>,
    chain: Seq<char>,
    n: int,
) -> Seq<AssetInfo>
    decreases n,
{
    if n <= 0 {
        Seq::empty()
    } else if entries[n - 1].1@ == chain {
        chain_assets_s(entries, chain, n - 1).push(entries[n - 1].0)
    } else {
        chain_assets_s(entries, chain, n - 1)
    }
}

/// Everything [`get_whitelisted_assets`] guarantees.
pub open spec fn whitelisted_assets_query_post(
    s0: HubState,
    r: QueryResponse,
) -> bool {
    &&& ((r matches QueryResponse::WhitelistedAssets(groups) && {
            let entries = s0.whitelist.entries@;
            // one group per distinct chain, holding that chain's assets in
            // whitelist order, and a group for every whitelisted chain
            &&& (forall|gi: int, gj: int|
                0 <= gi < gj < groups@.len() ==> #[trigger] groups@[gi].0@ != #[trigger] groups@[
                    gj
                ].0@)
            &&& (forall|gi: int|
                0 <= gi < groups@.len() ==> #[trigger] groups@[gi].1@ == chain_assets_s(
                    entries,
                    groups@[gi].0@,
                    entries.len() as int,
                ))
            &&& (forall|k: int|
                0 <= k < entries.len() ==> has_group(groups@, #[trigger] entries[k].1@))
        }))
}

pub fn get_whitelisted_assets(state: &HubState) -> (r: QueryResponse)
    requires
        state.wf(),
    ensures
        whitelisted_assets_query_post(*state, r),
{
    let mut groups: Vec<(String, Vec<AssetInfo>)> = Vec::new();
    let n = state.whitelist.len();
    let ghost entries = state.whitelist.entries@;
    let mut i: usize = 0;
    while i < n
        invariant
            i <= n,
            n == entries.len(),
            state.whitelist.entries@ == entries,
            forall|gi: int, gj: int|
                0 <= gi < gj < groups@.len() ==> #[trigger] groups@[gi].0@ != #[trigger] groups@[
                    gj
                ].0@,
            forall|gi: int|
                0 <= gi < groups@.len() ==> #[trigger] groups@[gi].1@ == chain_assets_s(
                    entries,
                    groups@[gi].0@,
                    entries.len() as int,
                ),
            forall|k: int| 0 <= k < i ==> has_group(groups@, #[trigger] entries[k].1@),
        decreases n - i,
    {
        let ghost groups_pre = groups@;
        let chain = &state.whitelist.entry_at(i).1;
        // look for an existing group with this chain
        let gn = groups.len();
        let mut g: usize = 0;
        let mut found = false;
        while g < gn
            invariant
                g <= gn,
                gn == groups@.len(),
                !found ==> forall|x: int| 0 <= x < g ==> #[trigger] groups@[x].0@ != chain@,
                found ==> exists|x: int| 0 <= x < groups@.len() && #[trigger] groups@[x].0@
                    == chain@,
            decreases gn - g,
        {
            if groups[g].0 == *chain {
                found = true;
                g = gn;
            } else {
                g = g + 1;
            }
        }
        if !found {
            // collect every asset of this chain, in whitelist order
            let mut collected: Vec<AssetInfo> = Vec::new();
            let mut k: usize = 0;
            while k < n
                invariant
                    k <= n,
                    n == entries.len(),
                    state.whitelist.entries@ == entries,
                    chain@ == entries[i as int].1@,
                    i < n,
                    collected@ == chain_assets_s(entries, chain@, k as int),
                decreases n - k,
            {
                let e = state.whitelist.entry_at(k);
                if e.1 == *chain {
                    collected.push(e.0.clone());
                }
                k = k + 1;
            }
            groups.push((chain.clone(), collected));
        }
        proof {
            assert forall|k: int| 0 <= k < i as int + 1 implies has_group(
                groups@,
                #[trigger] entries[k].1@,
            ) by {
                if k < i as int {
                    assert(has_group(groups_pre, entries[k].1@));
                    let gi = choose|gi: int|
                        0 <= gi < groups_pre.len() && #[trigger] groups_pre[gi].0@ == entries[
                            k
                        ].1@;
                    assert(groups@[gi].0@ == entries[k].1@);
                } else {
                    if found {
                        let gi = choose|gi: int|
                            0 <= gi < groups_pre.len() && #[trigger] groups_pre[gi].0@ == chain@;
                        assert(groups@[gi].0@ == entries[i as int].1@);
                    } else {
                        assert(groups@[groups@.len() - 1].0@ == entries[i as int].1@);
                    }
                }
            }
        }
        i = i + 1;
    }
    QueryResponse::WhitelistedAssets(groups)
}

/// Everything [`get_rewards_distribution`] guarantees.
pub open spec fn rewards_distribution_query_post(
    s0: HubState,
    r: Result<QueryResponse, ContractError>,

) -> bool {
    &&& (match r {
            Ok(resp) => (resp matches QueryResponse::RewardDistribution(d) && (
            s0.reward_distribution matches Some(d0) && d@ == d0@)),
            Err(e) => e is Std && s0.reward_distribution is None,
        })
}

pub fn get_rewards_distribution(state: &HubState) -> (r: Result<QueryResponse, ContractError>)
    ensures
        rewards_distribution_query_post(*state, r),
{
    match &state.reward_distribution {
        Some(d) => {
            let mut out: Vec<crate::types::AssetDistribution> = Vec::new();
            let n = d.len();
            let mut i: usize = 0;
            while i < n
                invariant
                    i <= n,
                    n == d@.len(),
                    out@.len() == i,
                    forall|j: int| 0 <= j < i ==> #[trigger] out@[j] == d@[j],
                decreases n - i,
            {
                out.push(d[i].clone());
                i = i + 1;
            }
            proof {
                assert(out@ =~= d@);
            }
            Ok(QueryResponse::RewardDistribution(out))
        },
        None => Err(ContractError::Std(String::from_str("no reward distribution is set"))),
    }
}

/// Everything [`get_staked_balance`] guarantees.
pub open spec fn staked_balance_query_post(
    s0: HubState,
    r: Result<QueryResponse, ContractError>,
    now_s: u64,
    asset_query: AssetQuery,
) -> bool {
    &&& (({
            let k = (asset_query.address@, asset_query.asset@);
            match r {
                Ok(resp) => {
                    &&& s0.shares@.contains_key(k)
                    &&& accrue_ok_s(
                        cfg_or_init_s(&s0, asset_query.asset@),
                        now_s,
                        recorded_balance_s(&s0, asset_query.asset@),
                    )
                    &&& (resp matches QueryResponse::StakedBalance(res) && res.asset
                        == asset_query.asset && res.balance == preview_user_balance_s(
                        &s0,
                        now_s,
                        asset_query.address@,
                        asset_query.asset@,
                    ))
                },
                Err(e) => {
                    ||| (e is Std && !s0.shares@.contains_key(k))
                    ||| (e is Overflow && s0.shares@.contains_key(k) && !accrue_ok_s(
                        cfg_or_init_s(&s0, asset_query.asset@),
                        now_s,
                        recorded_balance_s(&s0, asset_query.asset@),
                    ))
                },
            }
        }))
}

/// A user's staked balance in one asset: their shares converted at the
/// fee-adjusted available balance previewed at `now_s`.
pub fn get_staked_balance(state: &HubState, now_s: u64, asset_query: AssetQuery) -> (r: Result<
    QueryResponse,
    ContractError,
>)
    requires
        state.wf(),
        state.clocks_ok(now_s),
    ensures
        staked_balance_query_post(*state, r, now_s, asset_query),
{
    let key = UserAsset { user: asset_query.address.clone(), asset: asset_query.asset.clone() };
    let user_shares = match state.shares.get(&key) {
        Some(s) => *s,
        None => {
            return Err(ContractError::Std(String::from_str("no share balance found")));
        },
    };
    let (bal0, sh0) = match state.totals.get(&asset_query.asset) {
        Some(t) => (t.0, t.1),
        None => (0, 0),
    };
    let take_out = match _take(state, now_s, &asset_query.asset, bal0) {
        Ok(t) => t,
        Err(e) => {
            return Err(e);
        },
    };
    let (_cfg, available, _persist) = take_out;
    proof {
        lemma_user_shares_le_total(state, key@);
        crate::math::lemma_balance_amount_le_available(
            sh0 as int,
            user_shares as int,
            available as int,
        );
    }
    let balance = match compute_balance_amount(sh0, user_shares, available) {
        Ok(v) => v,
        Err(e) => {
            return Err(e);
        },
    };
    Ok(
        QueryResponse::StakedBalance(
            StakedBalanceRes { asset: asset_query.asset, balance },
        ),
    )
}

/// Everything [`get_pending_rewards`] guarantees.
pub open spec fn pending_rewards_query_post(
    s0: HubState,
    r: Result<QueryResponse, ContractError>,
    asset_query: AssetQuery,
) -> bool {
    &&& (({
            let k = (asset_query.address@, asset_query.asset@);
            match r {
                Ok(resp) => {
                    &&& pending_query_ok_s(&s0, asset_query.address@, asset_query.asset@)
                    &&& (resp matches QueryResponse::PendingRewards(res) && {
                        let pend = pending_reward_s(
                            s0.asset_reward_rates@[asset_query.asset@].atomics as int,
                            s0.user_reward_rates@[k].atomics as int,
                            s0.shares@[k] as int,
                        );
                        let carry = if s0.unclaimed@.contains_key(k) {
                            s0.unclaimed@[k] as int
                        } else {
                            0
                        };
                        &&& res.staked_asset == asset_query.asset
                        &&& (res.reward_asset matches AssetInfo::Native(d) && d@
                            == s0.config.reward_denom@)
                        &&& res.rewards == pend + carry
                    })
                },
                Err(e) => pending_query_err_s(
                    &s0,
                    asset_query.address@,
                    asset_query.asset@,
                    e,
                ),
            }
        }))
}

/// A user's pending reward for one asset: the accumulator's advance over
/// their checkpoint applied to their shares, plus any unclaimed carry.
pub fn get_pending_rewards(state: &HubState, asset_query: AssetQuery) -> (r: Result<
    QueryResponse,
    ContractError,
>)
    requires
        state.wf(),
    ensures
        pending_rewards_query_post(*state, r, asset_query),
{
    let key = UserAsset { user: asset_query.address.clone(), asset: asset_query.asset.clone() };
    let user_rate = match state.user_reward_rates.get(&key) {
        Some(rr) => *rr,
        None => {
            return Err(ContractError::Std(String::from_str("no reward checkpoint found")));
        },
    };
    let rate = match state.asset_reward_rates.get(&asset_query.asset) {
        Some(rr) => *rr,
        None => {
            return Err(ContractError::Std(String::from_str("asset reward rate not found")));
        },
    };
    let user_shares = match state.shares.get(&key) {
        Some(s) => *s,
        None => {
            return Err(ContractError::Std(String::from_str("no share balance found")));
        },
    };
    if user_shares > u128::MAX / DEC_FRACTIONAL {
        return Err(ContractError::DecimalRangeExceeded);
    }
    assert(user_rate.atomics <= rate.atomics);
    let diff = rate.atomics - user_rate.atomics;
    let prod = match diff.checked_mul(user_shares) {
        Some(p) => p,
        None => {
            return Err(ContractError::Overflow);
        },
    };
    let pending = prod / DEC_FRACTIONAL;
    let carry = match state.unclaimed.get(&key) {
        Some(c) => *c,
        None => 0,
    };
    let total = match pending.checked_add(carry) {
        Some(t) => t,
        None => {
            return Err(ContractError::Overflow);
        },
    };
    Ok(
        QueryResponse::PendingRewards(
            PendingRewardsRes {
                staked_asset: asset_query.asset,
                reward_asset: AssetInfo::Native(state.config.reward_denom.clone()),
                rewards: total,
            },
        ),
    )
}

/// Everything [`get_all_staked_balances`] guarantees.
pub open spec fn all_staked_balances_query_post(
    s0: HubState,
    r: Result<QueryResponse, ContractError>,
    now_s: u64,
    query: AllStakedBalancesQuery,
) -> bool {
    &&& (match r {
            Ok(resp) => (resp matches QueryResponse::AllStakedBalances(res) && {
                let entries = s0.whitelist.entries@;
                &&& res@.len() == entries.len()
                &&& (forall|i: int|
                    0 <= i < res@.len() ==> staked_row_ok(
                        &s0,
                        now_s,
                        query.address@,
                        #[trigger] res@[i],
                        entries[i],
                    ))
                &&& (forall|i: int|
                    0 <= i < entries.len() ==> accrue_ok_s(
                        cfg_or_init_s(&s0, (#[trigger] entries[i]).0@),
                        now_s,
                        recorded_balance_s(&s0, entries[i].0@),
                    ))
            }),
            Err(e) => e is Overflow && (exists|i: int|
                0 <= i < s0.whitelist.entries@.len() && !accrue_ok_s(
                    cfg_or_init_s(&s0, (#[trigger] s0.whitelist.entries@[i]).0@),
                    now_s,
                    recorded_balance_s(&s0, s0.whitelist.entries@[i].0@),
                )),
        })
}

/// A user's staked balance in every whitelisted asset.
pub fn get_all_staked_balances(state: &HubState, now_s: u64, query: AllStakedBalancesQuery) -> (r:
    Result<QueryResponse, ContractError>)
    requires
        state.wf(),
        state.clocks_ok(now_s),
    ensures
        all_staked_balances_query_post(*state, r, now_s, query),
{
    let mut out: Vec<StakedBalanceRes> = Vec::new();
    let n = state.whitelist.len();
    let ghost entries = state.whitelist.entries@;
    let mut i: usize = 0;
    while i < n
        invariant
            i <= n,
            n == entries.len(),
            state.whitelist.entries@ == entries,
            state.wf(),
            state.clocks_ok(now_s),
            out@.len() == i,
            forall|j: int|
                0 <= j < i ==> staked_row_ok(
                    state,
                    now_s,
                    query.address@,
                    #[trigger] out@[j],
                    entries[j],
                ),
            forall|j: int|
                0 <= j < i ==> accrue_ok_s(
                    cfg_or_init_s(state, (#[trigger] entries[j]).0@),
                    now_s,
                    recorded_balance_s(state, entries[j].0@),
                ),
        decreases n - i,
    {
        let asset = &state.whitelist.entry_at(i).0;
        let key = UserAsset { user: query.address.clone(), asset: asset.clone() };
        let user_shares = match state.shares.get(&key) {
            Some(s) => *s,
            None => 0,
        };
        let (bal0, sh0) = match state.totals.get(asset) {
            Some(t) => (t.0, t.1),
            None => (0, 0),
        };
        let take_out = match _take(state, now_s, asset, bal0) {
            Ok(t) => t,
            Err(e) => {
                return Err(e);
            },
        };
        let (_cfg, available, _persist) = take_out;
        proof {
            lemma_user_shares_le_total(state, key@);
            crate::math::lemma_balance_amount_le_available(
                sh0 as int,
                user_shares as int,
                available as int,
            );
        }
        let balance = match compute_balance_amount(sh0, user_shares, available) {
            Ok(v) => v,
            Err(e) => {
                return Err(e);
            },
        };
        proof {
            assert(sh0 as int == state.total_shares_of(asset@));
            assert(user_shares as int == user_shares_s(state, (query.address@, asset@)));
            assert(available as int == preview_available_s(state, now_s, asset@));
            assert(balance as int == preview_user_balance_s(state, now_s, query.address@, asset@));
        }
        out.push(StakedBalanceRes { asset: asset.clone(), balance });
        i = i + 1;
    }
    proof {
        assert forall|ii: int| 0 <= ii < state.whitelist.entries@.len() implies accrue_ok_s(
            cfg_or_init_s(state, (#[trigger] state.whitelist.entries@[ii]).0@),
            now_s,
            recorded_balance_s(state, state.whitelist.entries@[ii].0@),
        ) by {
            assert(accrue_ok_s(
                cfg_or_init_s(state, entries[ii].0@),
                now_s,
                recorded_balance_s(state, entries[ii].0@),
            ));
        }
    }
    Ok(QueryResponse::AllStakedBalances(out))
}

/// The assets a user holds reward checkpoints for, among the first `n`
/// checkpoint entries, in checkpoint order.
pub open spec fn user_checkpoint_assets_s(
    cps: Seq<(UserAsset, Dec)>,
    user: Seq<char>,
    n: int,
) -> Seq<AssetInfo>
    decreases n,
{
    if n <= 0 {
        Seq::empty()
    } else if cps[n - 1].0.user@ == user {
        user_checkpoint_assets_s(cps, user, n - 1).push(cps[n - 1].0.asset)
    } else {
        user_checkpoint_assets_s(cps, user, n - 1)
    }
}

/// Everything [`get_all_pending_rewards`] guarantees: one answer row per
/// checkpoint the user holds, in checkpoint order, each exactly what the
/// single-asset pending-rewards query answers for that asset.
pub open spec fn all_pending_rewards_query_post(
    s0: HubState,
    r: Result<QueryResponse, ContractError>,
    query: AllPendingRewardsQuery,
) -> bool {
    &&& (match r {
            Ok(resp) => (resp matches QueryResponse::AllPendingRewards(res) && {
                let assets = user_checkpoint_assets_s(
                    s0.user_reward_rates.entries@,
                    query.address@,
                    s0.user_reward_rates.entries@.len() as int,
                );
                &&& res@.len() == assets.len()
                &&& (forall|j: int|
                    0 <= j < res@.len() ==> pending_rewards_query_post(
                        s0,
                        Result::<QueryResponse, ContractError>::Ok(
                            QueryResponse::PendingRewards(#[trigger] res@[j]),
                        ),
                        AssetQuery { address: query.address, asset: assets[j] },
                    ))
                &&& (forall|j: int|
                    0 <= j < s0.user_reward_rates.entries@.len()
                        && (#[trigger] s0.user_reward_rates.entries@[j]).0.user@ == query.address@
                        ==> pending_query_ok_s(
                        &s0,
                        query.address@,
                        s0.user_reward_rates.entries@[j].0.asset@,
                    ))
            }),
            // the first of the user's checkpoints whose single-asset query
            // refuses decides the error
            Err(e) => exists|j: int|
                {
                    &&& 0 <= j < s0.user_reward_rates.entries@.len()
                    &&& (#[trigger] s0.user_reward_rates.entries@[j]).0.user@ == query.address@
                    &&& pending_query_err_s(
                        &s0,
                        query.address@,
                        s0.user_reward_rates.entries@[j].0.asset@,
                        e,
                    )
                    &&& (forall|l: int|
                        0 <= l < j && (#[trigger] s0.user_reward_rates.entries@[l]).0.user@
                            == query.address@ ==> pending_query_ok_s(
                            &s0,
                            query.address@,
                            s0.user_reward_rates.entries@[l].0.asset@,
                        ))
                },
        })
}

/// A user's pending rewards across every asset they hold a checkpoint for,
/// in checkpoint order.
pub fn get_all_pending_rewards(state: &HubState, query: AllPendingRewardsQuery) -> (r: Result<
    QueryResponse,
    ContractError,
>)
    requires
        state.wf(),
    ensures
        all_pending_rewards_query_post(*state, r, query),
{
    let mut out: Vec<PendingRewardsRes> = Vec::new();
    let n = state.user_reward_rates.len();
    let ghost checkpoints = state.user_reward_rates.entries@;
    let mut i: usize = 0;
    while i < n
        invariant
            i <= n,
            n == checkpoints.len(),
            state.user_reward_rates.entries@ == checkpoints,
            state.wf(),
            out@.len() == user_checkpoint_assets_s(checkpoints, query.address@, i as int).len(),
            forall|j: int|
                0 <= j < out@.len() ==> pending_rewards_query_post(
                    *state,
                    Result::<QueryResponse, ContractError>::Ok(
                        QueryResponse::PendingRewards(#[trigger] out@[j]),
                    ),
                    AssetQuery {
                        address: query.address,
                        asset: user_checkpoint_assets_s(checkpoints, query.address@, i as int)[j],
                    },
                ),
            forall|l: int|
                0 <= l < i && (#[trigger] checkpoints[l]).0.user@ == query.address@
                    ==> pending_query_ok_s(state, query.address@, checkpoints[l].0.asset@),
        decreases n - i,
    {
        let ghost assets_pre = user_checkpoint_assets_s(checkpoints, query.address@, i as int);
        let entry = state.user_reward_rates.entry_at(i);
        if entry.0.user == query.address {
            let aq = AssetQuery { address: query.address.clone(), asset: entry.0.asset.clone() };
            match get_pending_rewards(state, aq) {
                Ok(QueryResponse::PendingRewards(res)) => {
                    out.push(res);
                },
                Ok(_) => {
                    // the single-asset query only ever answers with a
                    // pending-rewards row
                },
                Err(e) => {
                    proof {
                        assert(state.user_reward_rates.entries@[i as int].0.user@
                            == query.address@ && pending_query_err_s(
                            state,
                            query.address@,
                            state.user_reward_rates.entries@[i as int].0.asset@,
                            e,
                        ));
                    }
                    return Err(e);
                },
            }
        }
        proof {
            let assets_now = user_checkpoint_assets_s(checkpoints, query.address@, i as int + 1);
            assert forall|j: int| 0 <= j < out@.len() implies pending_rewards_query_post(
                *state,
                Result::<QueryResponse, ContractError>::Ok(
                    QueryResponse::PendingRewards(#[trigger] out@[j]),
                ),
                AssetQuery { address: query.address, asset: assets_now[j] },
            ) by {
                if j < assets_pre.len() {
                    assert(assets_now[j] == assets_pre[j]);
                }
            }
        }
        i = i + 1;
    }
    proof {
        assert forall|j: int|
            0 <= j < state.user_reward_rates.entries@.len()
                && (#[trigger] state.user_reward_rates.entries@[j]).0.user@ == query.address@
            implies pending_query_ok_s(
            state,
            query.address@,
            state.user_reward_rates.entries@[j].0.asset@,
        ) by {
            assert(checkpoints[j].0.user@ == query.address@);
            assert(pending_query_ok_s(state, query.address@, checkpoints[j].0.asset@));
        }
    }
    Ok(QueryResponse::AllPendingRewards(out))
}

/// Everything [`get_total_staked_balances`] guarantees.
pub open spec fn total_staked_balances_query_post(
    s0: HubState,
    r: QueryResponse,
) -> bool {
    &&& ((r matches QueryResponse::TotalStakedBalances(res) && {
            let entries = s0.totals.entries@;
            &&& res@.len() == entries.len()
            &&& (forall|i: int|
                0 <= i < res@.len() ==> #[trigger] res@[i].asset@ == entries[i].0@ && res@[
                    i
                ].balance == entries[i].1.0)
        }))
}

/// Every asset's recorded total deposited balance.
pub fn get_total_staked_balances(state: &HubState) -> (r: QueryResponse)
    ensures
        total_staked_balances_query_post(*state, r),
{
    let mut out: Vec<StakedBalanceRes> = Vec::new();
    let n = state.totals.len();
    let ghost entries = state.totals.entries@;
    let mut i: usize = 0;
    while i < n
        invariant
            i <= n,
            n == entries.len(),
            state.totals.entries@ == entries,
            out@.len() == i,
            forall|j: int|
                0 <= j < i ==> #[trigger] out@[j].asset@ == entries[j].0@ && out@[j].balance
                    == entries[j].1.0,
        decreases n - i,
    {
        let entry = state.totals.entry_at(i);
        out.push(StakedBalanceRes { asset: entry.0.clone(), balance: entry.1.0 });
        i = i + 1;
    }
    QueryResponse::TotalStakedBalances(out)
}

/// Routes a read-only query; every answer is a pure projection of the
/// state, with fee-adjusted balances previewed at `now_s`.
pub fn query(state: &HubState, now_s: u64, msg: QueryMsg) -> (r: Result<
    QueryResponse,
    ContractError,
>)
    requires
        state.wf(),
        state.clocks_ok(now_s),
    ensures
        match msg {
            QueryMsg::Config => r matches Ok(resp) && config_query_post(*state, resp),
            QueryMsg::Validators => r matches Ok(resp) && validators_query_post(*state, resp),
            QueryMsg::WhitelistedAssets => r matches Ok(resp) && whitelisted_assets_query_post(
                *state,
                resp,
            ),
            QueryMsg::RewardDistribution => rewards_distribution_query_post(*state, r),
            QueryMsg::StakedBalance(q) => staked_balance_query_post(*state, r, now_s, q),
            QueryMsg::PendingRewards(q) => pending_rewards_query_post(*state, r, q),
            QueryMsg::AllStakedBalances(q) => all_staked_balances_query_post(*state, r, now_s, q),
            QueryMsg::AllPendingRewards(q) => all_pending_rewards_query_post(*state, r, q),
            QueryMsg::TotalStakedBalances => r matches Ok(resp) && total_staked_balances_query_post(
                *state,
                resp,
            ),
        },
{
    match msg {
        QueryMsg::Config => Ok(get_config(state)),
        QueryMsg::Validators => Ok(get_validators(state)),
        QueryMsg::WhitelistedAssets => Ok(get_whitelisted_assets(state)),
        QueryMsg::RewardDistribution => get_rewards_distribution(state),
        QueryMsg::StakedBalance(q) => get_staked_balance(state, now_s, q),
        QueryMsg::PendingRewards(q) => get_pending_rewards(state, q),
        QueryMsg::AllStakedBalances(q) => get_all_staked_balances(state, now_s, q),
        QueryMsg::AllPendingRewards(q) => get_all_pending_rewards(state, q),
        QueryMsg::TotalStakedBalances => Ok(get_total_staked_balances(state)),
    }
}

} // verus!
