//! Take-rate accrual: the time-proportional protocol fee charged against
//! each asset pool, and the distribution of accrued fees to the fee
//! recipient.

use vstd::prelude::*;

use crate::math::checked_mul_ratio;
use crate::math::lemma_mul_ratio_le;
use crate::math::min_u64;
use crate::math::rate_mul;
use crate::math::rate_mul_s;
use crate::state::HubState;
use crate::table::Table;
use crate::types::Asset;
use crate::types::AssetConfigRuntime;
use crate::types::AssetInfo;
use crate::types::AssetKey;
use crate::types::Attr;
use crate::types::ContractError;
use crate::types::HubMsg;
use crate::types::Response;
use crate::types::SECONDS_PER_YEAR;

verus! {

/// The part of the pool balance that fees still accrue against: what is
/// deposited beyond the fees already taken.
pub open spec fn relevant_balance_s(balance: int, taken: int) -> int {
    if balance > taken {
        balance - taken
    } else {
        0
    }
}

/// Elapsed accrual time, capped at one year: dormancy beyond a year extracts
/// at most one year's nominal rate.
pub open spec fn capped_elapsed_s(now: int, last: int) -> int {
    if now - last <= SECONDS_PER_YEAR {
        now - last
    } else {
        SECONDS_PER_YEAR as int
    }
}

/// The fee one accrual charges: the yearly rate, scaled by the elapsed
/// fraction of a year, applied to the relevant balance. Zero while the rate
/// is zero or the accrual clock has not started.
pub open spec fn take_amount_s(cfg: AssetConfigRuntime, now: u64, balance: u128) -> int {
    rate_mul_s(
        cfg.yearly_take_rate.atomics as int,
        relevant_balance_s(balance as int, cfg.taken as int) * capped_elapsed_s(
            now as int,
            cfg.last_taken_s as int,
        ) / (SECONDS_PER_YEAR as int),
    )
}

/// Cumulative taken fees after one accrual at `now` against `balance`.
pub open spec fn accrued_taken_s(cfg: AssetConfigRuntime, now: u64, balance: u128) -> int {
    if cfg.yearly_take_rate.atomics == 0 || cfg.last_taken_s == 0 {
        cfg.taken as int
    } else {
        cfg.taken + take_amount_s(cfg, now, balance)
    }
}

/// An accrual succeeds exactly when the pool balance covers the new
/// cumulative taken amount; otherwise the operation aborts.
pub open spec fn accrue_ok_s(cfg: AssetConfigRuntime, now: u64, balance: u128) -> bool {
    accrued_taken_s(cfg, now, balance) <= balance
}

/// The fee state after one accrual: the clock always advances to `now` when
/// a rate is configured, and never otherwise.
pub open spec fn accrued_cfg_s(cfg: AssetConfigRuntime, now: u64, balance: u128) -> AssetConfigRuntime {
    if cfg.yearly_take_rate.atomics == 0 {
        cfg
    } else {
        AssetConfigRuntime {
            last_taken_s: now,
            taken: accrued_taken_s(cfg, now, balance) as u128,
            ..cfg
        }
    }
}

/// The fee-adjusted balance available to stakers after one accrual.
pub open spec fn available_after_s(cfg: AssetConfigRuntime, now: u64, balance: u128) -> int {
    balance - accrued_taken_s(cfg, now, balance)
}

pub proof fn lemma_take_amount_nonneg(cfg: AssetConfigRuntime, now: u64, balance: u128)
    requires
        cfg.last_taken_s <= now,
    ensures
        take_amount_s(cfg, now, balance) >= 0,
        accrued_taken_s(cfg, now, balance) >= cfg.taken,
{
    let rel = relevant_balance_s(balance as int, cfg.taken as int);
    let el = capped_elapsed_s(now as int, cfg.last_taken_s as int);
    vstd::arithmetic::mul::lemma_mul_nonnegative(rel, el);
    vstd::arithmetic::div_mod::lemma_div_pos_is_pos(rel * el, SECONDS_PER_YEAR as int);
    vstd::arithmetic::mul::lemma_mul_nonnegative(
        rel * el / (SECONDS_PER_YEAR as int),
        cfg.yearly_take_rate.atomics as int,
    );
    vstd::arithmetic::div_mod::lemma_div_pos_is_pos(
        rel * el / (SECONDS_PER_YEAR as int) * cfg.yearly_take_rate.atomics,
        crate::types::DEC_FRACTIONAL as int,
    );
}

/// One fee accrual against an asset, computed from the current state without
/// writing it: the (possibly advanced) fee state, the fee-adjusted available
/// balance, and whether the caller must persist the returned fee state.
/// An asset with no fee configuration accrues nothing and passes the whole
/// balance through.
pub fn _take(state: &HubState, now_s: u64, asset: &AssetInfo, total_balance: u128) -> (r: Result<
    (AssetConfigRuntime, u128, bool),
    ContractError,
>)
    requires
        state.asset_configs.wf(),
        state.clocks_ok(now_s),
    ensures
        ({
            let had = state.asset_configs@.contains_key(asset@);
            let cfg0 = if had {
                state.asset_configs@[asset@]
            } else {
                AssetConfigRuntime::spec_init()
            };
            match r {
                Ok((cfg, available, persist)) => {
                    &&& accrue_ok_s(cfg0, now_s, total_balance)
                    &&& cfg == accrued_cfg_s(cfg0, now_s, total_balance)
                    &&& available == available_after_s(cfg0, now_s, total_balance)
                    &&& persist == (had && cfg0.yearly_take_rate.atomics != 0)
                },
                Err(e) => {
                    &&& e is Overflow
                    &&& !accrue_ok_s(cfg0, now_s, total_balance)
                },
            }
        }),
{
    match state.asset_configs.get(asset) {
        None => Ok((AssetConfigRuntime::init(), total_balance, false)),
        Some(cfg_ref) => {
            let cfg0 = *cfg_ref;
            match accrue_cfg(cfg0, now_s, total_balance) {
                Ok((cfg, available)) => Ok((cfg, available, !cfg0.yearly_take_rate.is_zero())),
                Err(e) => Err(e),
            }
        },
    }
}

/// One fee accrual against a known fee state: the advanced state and the
/// fee-adjusted available balance, or an error where the pool cannot absorb
/// the fee or the arithmetic leaves 128 bits.
pub fn accrue_cfg(cfg0: AssetConfigRuntime, now_s: u64, total_balance: u128) -> (r: Result<
    (AssetConfigRuntime, u128),
    ContractError,
>)
    requires
        cfg0.last_taken_s <= now_s,
    ensures
        match r {
            Ok((cfg, available)) => {
                &&& accrue_ok_s(cfg0, now_s, total_balance)
                &&& cfg == accrued_cfg_s(cfg0, now_s, total_balance)
                &&& available == available_after_s(cfg0, now_s, total_balance)
            },
            Err(e) => {
                &&& e is Overflow
                &&& !accrue_ok_s(cfg0, now_s, total_balance)
            },
        },
{
    if cfg0.yearly_take_rate.is_zero() {
        if total_balance < cfg0.taken {
            return Err(ContractError::Overflow);
        }
        Ok((cfg0, total_balance - cfg0.taken))
    } else {
        let mut cfg = cfg0;
        if cfg.last_taken_s != 0 {
            let diff_s = now_s - cfg.last_taken_s;
            let relevant = if total_balance > cfg.taken {
                total_balance - cfg.taken
            } else {
                0
            };
            let capped = min_u64(diff_s, SECONDS_PER_YEAR);
            proof {
                lemma_mul_ratio_le(relevant as int, capped as int, SECONDS_PER_YEAR as int);
                lemma_take_amount_nonneg(cfg0, now_s, total_balance);
            }
            let scaled = match checked_mul_ratio(
                relevant,
                capped as u128,
                SECONDS_PER_YEAR as u128,
            ) {
                Some(v) => v,
                None => {
                    return Err(ContractError::Overflow);
                },
            };
            let take = match rate_mul(cfg.yearly_take_rate, scaled) {
                Ok(v) => v,
                Err(_) => {
                    return Err(ContractError::Overflow);
                },
            };
            let new_taken = match cfg.taken.checked_add(take) {
                Some(v) => v,
                None => {
                    return Err(ContractError::Overflow);
                },
            };
            cfg.taken = new_taken;
        }
        cfg.last_taken_s = now_s;
        if total_balance < cfg.taken {
            return Err(ContractError::Overflow);
        }
        Ok((cfg, total_balance - cfg.taken))
    }
}

/// The fee state an asset shows with the pending updates `pend` applied
/// over the stored states `cfgs`.
pub open spec fn dtr_cfg_of(
    cfgs: Map<AssetKey, AssetConfigRuntime>,
    pend: Map<AssetKey, AssetConfigRuntime>,
    a: AssetKey,
) -> AssetConfigRuntime {
    if pend.contains_key(a) {
        pend[a]
    } else if cfgs.contains_key(a) {
        cfgs[a]
    } else {
        AssetConfigRuntime::spec_init()
    }
}

/// The fee-state updates and the payments that distributing the take rate
/// over the first `n` selected assets produces: each asset optionally
/// refreshes its accrual, pays out what was taken but not yet harvested,
/// and records everything as harvested; an asset with nothing to pay is
/// skipped untouched. `None` means a refresh aborted.
pub open spec fn dtr_fold_s(
    cfgs: Map<AssetKey, AssetConfigRuntime>,
    totals: Map<AssetKey, (u128, u128)>,
    now: u64,
    upd: bool,
    list: Seq<AssetInfo>,
    n: int,
) -> Option<(Map<AssetKey, AssetConfigRuntime>, Seq<(AssetInfo, u128)>)>
    decreases n,
{
    if n <= 0 {
        Some((Map::empty(), Seq::empty()))
    } else {
        match dtr_fold_s(cfgs, totals, now, upd, list, n - 1) {
            None => None,
            Some(pp) => {
                let a = list[n - 1];
                let cfg0 = dtr_cfg_of(cfgs, pp.0, a@);
                let bal = if totals.contains_key(a@) {
                    totals[a@].0
                } else {
                    0
                };
                if upd && !accrue_ok_s(cfg0, now, bal) {
                    None
                } else {
                    let cfg1 = if upd {
                        accrued_cfg_s(cfg0, now, bal)
                    } else {
                        cfg0
                    };
                    let take = cfg1.taken - cfg1.harvested;
                    if take == 0 {
                        Some(pp)
                    } else {
                        Some(
                            (
                                pp.0.insert(
                                    a@,
                                    AssetConfigRuntime { harvested: cfg1.taken, ..cfg1 },
                                ),
                                pp.1.push((a, take as u128)),
                            ),
                        )
                    }
                }
            },
        }
    }
}

/// Once a refresh aborts, the whole distribution aborts.
pub proof fn lemma_dtr_fold_none_prop(
    cfgs: Map<AssetKey, AssetConfigRuntime>,
    totals: Map<AssetKey, (u128, u128)>,
    now: u64,
    upd: bool,
    list: Seq<AssetInfo>,
    m: int,
    n: int,
)
    requires
        0 <= m <= n,
        dtr_fold_s(cfgs, totals, now, upd, list, m) is None,
    ensures
        dtr_fold_s(cfgs, totals, now, upd, list, n) is None,
    decreases n - m,
{
    if m < n {
        lemma_dtr_fold_none_prop(cfgs, totals, now, upd, list, m, n - 1);
    }
}

/// The per-asset report a distribution produces, in selection order: each
/// processed asset is reported as skipped (nothing to pay) or as taken,
/// with the amount paid.
pub open spec fn dtr_attrs_s(
    cfgs: Map<AssetKey, AssetConfigRuntime>,
    totals: Map<AssetKey, (u128, u128)>,
    now: u64,
    upd: bool,
    list: Seq<AssetInfo>,
    n: int,
) -> Seq<Attr>
    decreases n,
{
    if n <= 0 {
        Seq::empty()
    } else {
        let prev = dtr_attrs_s(cfgs, totals, now, upd, list, n - 1);
        match dtr_fold_s(cfgs, totals, now, upd, list, n - 1) {
            None => prev,
            Some(pp) => {
                let a = list[n - 1];
                let cfg0 = dtr_cfg_of(cfgs, pp.0, a@);
                let bal = if totals.contains_key(a@) {
                    totals[a@].0
                } else {
                    0
                };
                if upd && !accrue_ok_s(cfg0, now, bal) {
                    prev
                } else {
                    let cfg1 = if upd {
                        accrued_cfg_s(cfg0, now, bal)
                    } else {
                        cfg0
                    };
                    let take = cfg1.taken - cfg1.harvested;
                    if take == 0 {
                        prev.push(Attr::Skipped(a))
                    } else {
                        prev.push(Attr::Taken(a, take as u128))
                    }
                }
            },
        }
    }
}

/// The assets a distribution with no explicit selection runs over: every
/// whitelisted asset, in whitelist order.
pub open spec fn wl_assets_s(s: &HubState) -> Seq<AssetInfo> {
    Seq::new(s.whitelist.entries@.len(), |i: int| s.whitelist.entries@[i].0)
}

/// The assets one distribution call selects.
pub open spec fn dtr_selection_s(s: &HubState, assets: Option<Vec<AssetInfo>>) -> Seq<AssetInfo> {
    match assets {
        Some(list) => list@,
        None => wl_assets_s(s),
    }
}

/// Everything [`distribute_take_rate`] guarantees.
pub open spec fn distribute_take_rate_post(
    s0: HubState,
    s1: HubState,
    r: Result<Response, ContractError>,
    now_s: u64,
    update: Option<bool>,
    assets: Option<Vec<AssetInfo>>,
) -> bool {
    &&& (s1.wf())
    &&& (s1.clocks_ok(now_s))
    &&& (r is Err ==> s1 == s0)
    &&& (HubState::rates_monotone(s0.asset_reward_rates@, s1.asset_reward_rates@))
    &&& (s1.config == s0.config)
    &&& (s1.whitelist == s0.whitelist)
    &&& (s1.shares == s0.shares)
    &&& (s1.totals == s0.totals)
    &&& (s1.asset_reward_rates == s0.asset_reward_rates)
    &&& (s1.user_reward_rates == s0.user_reward_rates)
    &&& (s1.unclaimed == s0.unclaimed)
    &&& (s1.validators == s0.validators)
    &&& (s1.reward_distribution == s0.reward_distribution)
    &&& (s1.temp_balance == s0.temp_balance)
    &&& (({
            let upd = update == Some(true);
            let chosen = dtr_selection_s(&s0, assets);
            let fold = dtr_fold_s(
                s0.asset_configs@,
                s0.totals@,
                now_s,
                upd,
                chosen,
                chosen.len() as int,
            );
            match r {
                Ok(resp) => {
                    &&& fold matches Some(pp) && {
                        &&& s1.asset_configs@ =~= s0.asset_configs@.union_prefer_right(pp.0)
                        &&& resp.messages@.len() == pp.1.len()
                        &&& (forall|j: int|
                            0 <= j < resp.messages@.len() ==> (#[trigger] resp.messages@[j] matches
                                HubMsg::Transfer { recipient, asset }
                                && recipient@ == s0.config.take_rate_taker@
                                && asset.info@ == pp.1[j].0@
                                && asset.amount == pp.1[j].1))
                    }
                    &&& resp.tolerant_messages@ =~= Seq::<HubMsg>::empty()
                    &&& resp.attributes@.len() == 1 + dtr_attrs_s(
                        s0.asset_configs@,
                        s0.totals@,
                        now_s,
                        upd,
                        chosen,
                        chosen.len() as int,
                    ).len()
                    &&& (resp.attributes@[0] matches Attr::Action(act) && act@
                        == "distribute_take_rate"@)
                    &&& (forall|x: int|
                        1 <= x < resp.attributes@.len() ==> #[trigger] resp.attributes@[x]
                            == dtr_attrs_s(
                            s0.asset_configs@,
                            s0.totals@,
                            now_s,
                            upd,
                            chosen,
                            chosen.len() as int,
                        )[x - 1])
                },
                Err(e) => {
                    &&& e is Overflow
                    &&& upd
                    &&& fold is None
                },
            }
        }))
}

/// Pays accrued take-rate fees to the fee recipient: for each selected
/// asset (all whitelisted assets by default), optionally refreshes the
/// accrual, transfers what was taken but not yet harvested, and marks it
/// harvested. Assets with nothing to pay are skipped, not errored.
pub fn distribute_take_rate(
    state: &mut HubState,
    now_s: u64,
    update: Option<bool>,
    assets: Option<Vec<AssetInfo>>,
) -> (r: Result<Response, ContractError>)
    requires
        old(state).wf(),
        old(state).clocks_ok(now_s),
    ensures
        distribute_take_rate_post(*old(state), *final(state), r, now_s, update, assets),
{
    let ghost chosen0 = dtr_selection_s(old(state), assets);
    let upd = match update {
        Some(true) => true,
        _ => false,
    };
    let list: Vec<AssetInfo> = match assets {
        Some(list) => list,
        None => {
            let mut keys: Vec<AssetInfo> = Vec::new();
            let wn = state.whitelist.len();
            let mut wi: usize = 0;
            while wi < wn
                invariant
                    wi <= wn,
                    wn == state.whitelist.entries@.len(),
                    keys@.len() == wi,
                    forall|j: int| 0 <= j < wi ==> keys@[j] == state.whitelist.entries@[j].0,
                decreases wn - wi,
            {
                keys.push(state.whitelist.entry_at(wi).0.clone());
                wi = wi + 1;
            }
            proof {
                assert(*state == *old(state));
                assert(keys@ =~= wl_assets_s(old(state)));
            }
            keys
        },
    };
    proof {
        assert(list@ =~= chosen0);
    }
    let ghost lseq = list@;
    let ghost cfgs0 = state.asset_configs@;
    let ghost totals0 = state.totals@;

    let mut resp = Response::new();
    resp.attributes.push(Attr::Action("distribute_take_rate"));

    let mut pending: Table<AssetInfo, AssetConfigRuntime> = Table::new();
    let mut payments: Vec<(AssetInfo, u128)> = Vec::new();
    let n = list.len();
    let mut i: usize = 0;
    while i < n
        invariant
            i <= n,
            n == lseq.len(),
            list@ == lseq,
            *state == *old(state),
            state.wf(),
            state.clocks_ok(now_s),
            state.asset_configs@ == cfgs0,
            state.totals@ == totals0,
            pending.wf(),
            lseq == chosen0,
            chosen0 == dtr_selection_s(old(state), assets),
            upd == (update == Some(true)),
            resp.messages@ =~= Seq::<HubMsg>::empty(),
            resp.tolerant_messages@ =~= Seq::<HubMsg>::empty(),
            resp.attributes@.len() == 1 + dtr_attrs_s(
                cfgs0,
                totals0,
                now_s,
                upd,
                lseq,
                i as int,
            ).len(),
            (resp.attributes@[0] matches Attr::Action(act) && act@ == "distribute_take_rate"@),
            forall|x: int|
                1 <= x < resp.attributes@.len() ==> #[trigger] resp.attributes@[x] == dtr_attrs_s(
                    cfgs0,
                    totals0,
                    now_s,
                    upd,
                    lseq,
                    i as int,
                )[x - 1],
            dtr_fold_s(cfgs0, totals0, now_s, upd, lseq, i as int) == Some(
                (pending@, payments@),
            ),
            forall|a: AssetKey| #[trigger] pending@.contains_key(a) ==> {
                &&& cfgs0.contains_key(a)
                &&& pending@[a].harvested <= pending@[a].taken
                &&& pending@[a].taken >= cfgs0[a].taken
                &&& pending@[a].taken <= (if totals0.contains_key(a) {
                    totals0[a].0 as int
                } else {
                    0
                })
                &&& pending@[a].last_taken_s <= now_s
            },
        decreases n - i,
    {
        let asset = &list[i];
        let cfg0 = match pending.get(asset) {
            Some(c) => *c,
            None => match state.asset_configs.get(asset) {
                Some(c) => *c,
                None => AssetConfigRuntime::init(),
            },
        };
        let bal = match state.totals.get(asset) {
            Some(t) => t.0,
            None => 0,
        };
        let cfg1 = if upd {
            proof {
                if cfgs0.contains_key(asset@) && !pending@.contains_key(asset@) {
                    assert(state.asset_configs@.contains_key(asset@));
                }
            }
            match accrue_cfg(cfg0, now_s, bal) {
                Ok((c, _avail)) => c,
                Err(_) => {
                    proof {
                        assert(dtr_fold_s(cfgs0, totals0, now_s, upd, lseq, i as int + 1)
                            is None);
                        lemma_dtr_fold_none_prop(
                            cfgs0,
                            totals0,
                            now_s,
                            upd,
                            lseq,
                            i as int + 1,
                            n as int,
                        );
                    }
                    return Err(ContractError::Overflow);
                },
            }
        } else {
            cfg0
        };
        proof {
            if upd {
                lemma_take_amount_nonneg(cfg0, now_s, bal);
            }
        }
        proof {
            assert(state.taken_of(asset@) <= state.total_balance_of(asset@));
        }
        let take_amount = cfg1.taken - cfg1.harvested;
        if take_amount == 0 {
            resp.attributes.push(Attr::Skipped(asset.clone()));
        } else {
            let done = AssetConfigRuntime { harvested: cfg1.taken, ..cfg1 };
            pending.insert(asset.clone(), done);
            payments.push((asset.clone(), take_amount));
            resp.attributes.push(Attr::Taken(asset.clone(), take_amount));
        }
        i = i + 1;
    }
    let ghost pend_final = pending@;
    let ghost pays_final = payments@;

    let pn = pending.len();
    let mut j: usize = 0;
    proof {
        assert(pending.entries@.subrange(0, 0) =~= Seq::<(AssetInfo, AssetConfigRuntime)>::empty());
        assert(cfgs0.union_prefer_right(
            crate::table::entries_map(pending.entries@.subrange(0, 0)),
        ) =~= cfgs0);
    }
    while j < pn
        invariant
            j <= pn,
            pn == pending.entries@.len(),
            pending.wf(),
            pending@ == pend_final,
            state.asset_configs.wf(),
            state.asset_configs@ =~= cfgs0.union_prefer_right(
                crate::table::entries_map(pending.entries@.subrange(0, j as int)),
            ),
            resp.messages@ =~= Seq::<HubMsg>::empty(),
            resp.tolerant_messages@ =~= Seq::<HubMsg>::empty(),
            lseq == chosen0,
            chosen0 == dtr_selection_s(old(state), assets),
            upd == (update == Some(true)),
            resp.attributes@.len() == 1 + dtr_attrs_s(
                cfgs0,
                totals0,
                now_s,
                upd,
                lseq,
                lseq.len() as int,
            ).len(),
            (resp.attributes@[0] matches Attr::Action(act) && act@ == "distribute_take_rate"@),
            forall|x: int|
                1 <= x < resp.attributes@.len() ==> #[trigger] resp.attributes@[x] == dtr_attrs_s(
                    cfgs0,
                    totals0,
                    now_s,
                    upd,
                    lseq,
                    lseq.len() as int,
                )[x - 1],
            state.config == old(state).config,
            state.whitelist == old(state).whitelist,
            state.shares == old(state).shares,
            state.totals == old(state).totals,
            state.asset_reward_rates == old(state).asset_reward_rates,
            state.user_reward_rates == old(state).user_reward_rates,
            state.unclaimed == old(state).unclaimed,
            state.validators == old(state).validators,
            state.reward_distribution == old(state).reward_distribution,
            state.temp_balance == old(state).temp_balance,
        decreases pn - j,
    {
        let kv = pending.entry_at(j);
        let k = kv.0.clone();
        let v = kv.1;
        state.asset_configs.insert(k, v);
        proof {
            let pre = pending.entries@.subrange(0, j as int);
            let post = pending.entries@.subrange(0, j as int + 1);
            assert(post.drop_last() =~= pre);
            assert(post.last() == pending.entries@[j as int]);
            assert(state.asset_configs@ =~= cfgs0.union_prefer_right(
                crate::table::entries_map(post),
            ));
        }
        j = j + 1;
    }
    proof {
        assert(pending.entries@.subrange(0, pn as int) =~= pending.entries@);
        assert(state.asset_configs@ =~= cfgs0.union_prefer_right(pend_final));
    }

    let pm = payments.len();
    let mut m: usize = 0;
    let recipient_base = state.config.take_rate_taker.clone();
    while m < pm
        invariant
            m <= pm,
            pm == pays_final.len(),
            payments@ == pays_final,
            recipient_base@ == state.config.take_rate_taker@,
            lseq == chosen0,
            chosen0 == dtr_selection_s(old(state), assets),
            upd == (update == Some(true)),
            resp.attributes@.len() == 1 + dtr_attrs_s(
                cfgs0,
                totals0,
                now_s,
                upd,
                lseq,
                lseq.len() as int,
            ).len(),
            (resp.attributes@[0] matches Attr::Action(act) && act@ == "distribute_take_rate"@),
            forall|x: int|
                1 <= x < resp.attributes@.len() ==> #[trigger] resp.attributes@[x] == dtr_attrs_s(
                    cfgs0,
                    totals0,
                    now_s,
                    upd,
                    lseq,
                    lseq.len() as int,
                )[x - 1],
            resp.messages@.len() == m,
            forall|x: int|
                0 <= x < m ==> (#[trigger] resp.messages@[x] matches HubMsg::Transfer {
                    recipient,
                    asset,
                } && recipient@ == state.config.take_rate_taker@ && asset.info@
                    == pays_final[x].0@ && asset.amount == pays_final[x].1),
            resp.tolerant_messages@ =~= Seq::<HubMsg>::empty(),
        decreases pm - m,
    {
        let pay = &payments[m];
        resp.messages.push(
            HubMsg::Transfer {
                recipient: recipient_base.clone(),
                asset: Asset { info: pay.0.clone(), amount: pay.1 },
            },
        );
        m = m + 1;
    }

    proof {
        let s0 = old(state);
        HubState::lemma_checkpoints_frame(*old(state), *state);
        assert forall|a: AssetKey| #[trigger] crate::state::sum_shares_for(
            state.shares.entries@,
            a,
        ) == state.total_shares_of(a) by {
            assert(crate::state::sum_shares_for(s0.shares.entries@, a) == s0.total_shares_of(a));
        }
        assert forall|a: AssetKey| #[trigger] state.total_shares_of(a)
            >= state.total_balance_of(a) - state.taken_of(a) by {
            assert(s0.total_shares_of(a) >= s0.total_balance_of(a) - s0.taken_of(a));
            if pend_final.contains_key(a) {
            }
        }
        assert forall|a: AssetKey| #[trigger] state.asset_configs@.contains_key(a)
            implies state.asset_configs@[a].harvested <= state.asset_configs@[a].taken by {
            if !pend_final.contains_key(a) {
                assert(s0.asset_configs@.contains_key(a));
            }
        }
        assert forall|a: AssetKey| #[trigger] state.taken_of(a) <= state.total_balance_of(a) by {
            assert(s0.taken_of(a) <= s0.total_balance_of(a));
            if pend_final.contains_key(a) {
            }
        }
        assert forall|a: AssetKey| #[trigger] state.asset_configs@.contains_key(a)
            implies state.asset_configs@[a].last_taken_s <= now_s by {
            if !pend_final.contains_key(a) {
                assert(s0.asset_configs@.contains_key(a));
            }
        }
    }
    Ok(resp)
}

} // verus!
