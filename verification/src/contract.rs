//! The operation catalogue: genesis, the inbound-operation dispatcher,
//! access control, asset registry management, delegation bookkeeping, and
//! the asynchronous-completion handler.

use vstd::prelude::*;

use crate::rewards::claim_rewards;
use crate::rewards::update_reward_callback;
use crate::rewards::update_rewards;
use crate::state::HubState;
use crate::state::dist_sum;
use crate::state::lemma_dist_sum_prefix;
use crate::state::lemma_dist_sum_step;
use crate::state::validators_unique;
use crate::table::Table;
use crate::types::AllianceDelegateMsg;
use crate::types::AllianceRedelegateMsg;
use crate::types::AllianceUndelegateMsg;
use crate::types::AssetConfigRuntime;
use crate::types::AssetDistribution;
use crate::types::AssetInfo;
use crate::types::AssetInfoWithConfig;
use crate::types::AssetKey;
use crate::types::Attr;
use crate::types::Coin;
use crate::types::Config;
use crate::types::ContractError;
use crate::types::Cw20HookMsg;
use crate::types::Cw20ReceiveMsg;
use crate::types::DEC_FRACTIONAL;
use crate::types::Dec;
use crate::types::ExecuteMsg;
use crate::types::HubMsg;
use crate::types::InstantiateMsg;
use crate::types::Response;
use crate::types::StakeConfig;
use crate::vault::stake;
use crate::vault::unstake;

verus! {

/// The completion id of the genesis token-creation dispatch.
pub const CREATE_REPLY_ID: u64 = 1;

/// The completion id of a tolerated per-validator claim failure during a
/// harvest.
pub const CLAIM_REWARD_ERROR_REPLY_ID: u64 = 2;

/// The fixed total supply of the derivative token, minted once at genesis.
pub const ALLIANCE_TOKEN_SUPPLY: u128 = 1_000_000_000_000;

/// Only the controller steers delegation.
pub fn is_controller(sender: &String, config: &Config) -> (r: Result<(), ContractError>)
    ensures
        match r {
            Ok(_) => sender@ == config.controller@,
            Err(e) => e is Unauthorized && sender@ != config.controller@,
        },
{
    if *sender == config.controller {
        Ok(())
    } else {
        Err(ContractError::Unauthorized)
    }
}

/// Only governance changes the registry and the configuration.
pub fn is_governance(sender: &String, config: &Config) -> (r: Result<(), ContractError>)
    ensures
        match r {
            Ok(_) => sender@ == config.governance@,
            Err(e) => e is Unauthorized && sender@ != config.governance@,
        },
{
    if *sender == config.governance {
        Ok(())
    } else {
        Err(ContractError::Unauthorized)
    }
}

/// Governance or the operator set the reward distribution weights.
pub fn is_authorized(sender: &String, config: &Config) -> (r: Result<(), ContractError>)
    ensures
        match r {
            Ok(_) => sender@ == config.governance@ || sender@ == config.operator@,
            Err(e) => e is Unauthorized && sender@ != config.governance@ && sender@
                != config.operator@,
        },
{
    if *sender == config.governance || *sender == config.operator {
        Ok(())
    } else {
        Err(ContractError::Unauthorized)
    }
}

/// Presence on the whitelist gates staking eligibility.
pub fn assert_asset_whitelisted(state: &HubState, asset: &AssetInfo) -> (r: Result<
    String,
    ContractError,
>)
    requires
        state.whitelist.wf(),
    ensures
        match r {
            Ok(chain) => state.whitelist@.contains_key(asset@) && chain@
                == state.whitelist@[asset@]@,
            Err(e) => e is AssetNotWhitelisted && !state.whitelist@.contains_key(asset@),
        },
{
    match state.whitelist.get(asset) {
        Some(chain) => Ok(chain.clone()),
        None => Err(ContractError::AssetNotWhitelisted),
    }
}

/// Creates the ledger at genesis: stores the configuration with an empty
/// derivative-token denomination (the token-creation completion fills it
/// in), and dispatches the creation of the derivative token.
pub fn instantiate(msg: InstantiateMsg) -> (r: (HubState, Response))
    ensures
        r.0.wf(),
        forall|now: u64| r.0.clocks_ok(now),
        r.0.config.governance == msg.governance,
        r.0.config.controller == msg.controller,
        r.0.config.oracle == msg.oracle,
        r.0.config.operator == msg.operator,
        r.0.config.take_rate_taker == msg.take_rate_taker,
        r.0.config.alliance_token_denom@ == Seq::<char>::empty(),
        r.0.config.alliance_token_supply == 0,
        r.0.config.last_reward_update_timestamp == 0,
        r.0.config.reward_denom == msg.reward_denom,
        r.0.config.default_yearly_take_rate == msg.default_yearly_take_rate,
        r.0.whitelist@ =~= Map::<AssetKey, String>::empty(),
        r.0.shares@ =~= Map::<(Seq<char>, AssetKey), u128>::empty(),
        r.0.totals@ =~= Map::<AssetKey, (u128, u128)>::empty(),
        r.0.asset_configs@ =~= Map::<AssetKey, AssetConfigRuntime>::empty(),
        r.0.asset_reward_rates@ =~= Map::<AssetKey, Dec>::empty(),
        r.0.user_reward_rates@ =~= Map::<(Seq<char>, AssetKey), Dec>::empty(),
        r.0.unclaimed@ =~= Map::<(Seq<char>, AssetKey), u128>::empty(),
        r.0.validators@.len() == 0,
        r.0.reward_distribution is None,
        r.0.temp_balance is None,
        r.1.messages@.len() == 1,
        (r.1.messages@[0] == HubMsg::CreateDenom { subdenom: msg.alliance_token_denom }),
{
    let state = HubState {
        config: Config {
            governance: msg.governance,
            controller: msg.controller,
            oracle: msg.oracle,
            operator: msg.operator,
            take_rate_taker: msg.take_rate_taker,
            alliance_token_denom: String::new(),
            alliance_token_supply: 0,
            last_reward_update_timestamp: 0,
            reward_denom: msg.reward_denom,
            default_yearly_take_rate: msg.default_yearly_take_rate,
        },
        whitelist: Table::new(),
        shares: Table::new(),
        totals: Table::new(),
        asset_configs: Table::new(),
        asset_reward_rates: Table::new(),
        user_reward_rates: Table::new(),
        unclaimed: Table::new(),
        validators: Vec::new(),
        reward_distribution: None,
        temp_balance: None,
    };
    let mut resp = Response::new();
    resp.attributes.push(Attr::Action("instantiate"));
    resp.messages.push(HubMsg::CreateDenom { subdenom: msg.alliance_token_denom });
    (state, resp)
}

/// Routes an asynchronous completion by its correlation id: the genesis
/// token creation (recording the created denomination and dispatching the
/// one-time mint and its metadata), or a tolerated per-validator claim
/// failure during a harvest (ignored). An unrecognized id is a fatal
/// protocol error.
pub fn reply(
    state: &mut HubState,
    contract_address: &String,
    reply_id: u64,
    created_denom: Option<String>,
) -> (r: Result<Response, ContractError>)
    requires
        old(state).wf(),
    ensures
        final(state).wf(),
        r is Err ==> *final(state) == *old(state),
        HubState::rates_monotone(old(state).asset_reward_rates@, final(state).asset_reward_rates@),
        final(state).whitelist == old(state).whitelist,
        final(state).shares == old(state).shares,
        final(state).totals == old(state).totals,
        final(state).asset_configs == old(state).asset_configs,
        final(state).asset_reward_rates == old(state).asset_reward_rates,
        final(state).user_reward_rates == old(state).user_reward_rates,
        final(state).unclaimed == old(state).unclaimed,
        final(state).validators == old(state).validators,
        final(state).reward_distribution == old(state).reward_distribution,
        final(state).temp_balance == old(state).temp_balance,
        match r {
            Ok(resp) => {
                ||| (reply_id == CREATE_REPLY_ID && (created_denom matches Some(denom) && {
                    &&& final(state).config.alliance_token_denom == denom
                    &&& final(state).config.alliance_token_supply == ALLIANCE_TOKEN_SUPPLY
                    &&& final(state).config.governance == old(state).config.governance
                    &&& final(state).config.controller == old(state).config.controller
                    &&& final(state).config.oracle == old(state).config.oracle
                    &&& final(state).config.operator == old(state).config.operator
                    &&& final(state).config.take_rate_taker == old(state).config.take_rate_taker
                    &&& final(state).config.reward_denom == old(state).config.reward_denom
                    &&& final(state).config.default_yearly_take_rate == old(
                        state,
                    ).config.default_yearly_take_rate
                    &&& resp.messages@.len() == 2
                    &&& resp.messages@[0] matches HubMsg::MintTokens {
                        denom: d1,
                        amount,
                        mint_to_address,
                    } && d1@ == denom@ && amount == ALLIANCE_TOKEN_SUPPLY && mint_to_address@
                        == contract_address@
                    &&& (resp.messages@[1] matches HubMsg::SetMetadata { denom: d2 } && d2@
                        == denom@)
                    &&& resp.attributes@.len() == 2
                    &&& (resp.attributes@[0] matches Attr::TokenDenom(d3) && d3@ == denom@)
                    &&& resp.attributes@[1] == Attr::TokenSupply(ALLIANCE_TOKEN_SUPPLY)
                }))
                ||| (reply_id == CLAIM_REWARD_ERROR_REPLY_ID && *final(state) == *old(state)
                    && resp.messages@.len() == 0 && resp.attributes@.len() == 1 && (
                resp.attributes@[0] matches Attr::Action(act) && act@ == "claim_reward_error"@))
            },
            Err(e) => {
                ||| (e is Std && reply_id == CREATE_REPLY_ID && created_denom is None)
                ||| (e is InvalidReplyId && reply_id != CREATE_REPLY_ID && reply_id
                    != CLAIM_REWARD_ERROR_REPLY_ID && e == ContractError::InvalidReplyId(reply_id))
            },
        },
{
    if reply_id == CREATE_REPLY_ID {
        let denom = match created_denom {
            Some(d) => d,
            None => {
                return Err(
                    ContractError::Std(String::from_str("token creation reply held no data")),
                );
            },
        };
        state.config.alliance_token_denom = denom.clone();
        state.config.alliance_token_supply = ALLIANCE_TOKEN_SUPPLY;
        let mut resp = Response::new();
        resp.attributes.push(Attr::TokenDenom(denom.clone()));
        resp.attributes.push(Attr::TokenSupply(ALLIANCE_TOKEN_SUPPLY));
        resp.messages.push(
            HubMsg::MintTokens {
                denom: denom.clone(),
                amount: ALLIANCE_TOKEN_SUPPLY,
                mint_to_address: contract_address.clone(),
            },
        );
        resp.messages.push(HubMsg::SetMetadata { denom });
        proof {
            HubState::lemma_checkpoints_frame(*old(state), *state);
            HubState::lemma_wf_frame(*old(state), *state);
        }
        Ok(resp)
    } else if reply_id == CLAIM_REWARD_ERROR_REPLY_ID {
        let mut resp = Response::new();
        resp.attributes.push(Attr::Action("claim_reward_error"));
        Ok(resp)
    } else {
        Err(ContractError::InvalidReplyId(reply_id))
    }
}

/// Everything [`update_config`] guarantees.
pub open spec fn update_config_post(
    s0: HubState,
    s1: HubState,
    r: Result<Response, ContractError>,
    sender: String,
    governance: Option<String>,
    controller: Option<String>,
    oracle: Option<String>,
    operator: Option<String>,
    take_rate_taker: Option<String>,
    default_yearly_take_rate: Option<Dec>,
) -> bool {
    &&& (s1.wf())
    &&& (r is Err ==> s1 == s0)
    &&& (HubState::rates_monotone(s0.asset_reward_rates@, s1.asset_reward_rates@))
    &&& (s1.whitelist == s0.whitelist)
    &&& (s1.shares == s0.shares)
    &&& (s1.totals == s0.totals)
    &&& (s1.asset_configs == s0.asset_configs)
    &&& (s1.asset_reward_rates == s0.asset_reward_rates)
    &&& (s1.user_reward_rates == s0.user_reward_rates)
    &&& (s1.unclaimed == s0.unclaimed)
    &&& (s1.validators == s0.validators)
    &&& (s1.reward_distribution == s0.reward_distribution)
    &&& (s1.temp_balance == s0.temp_balance)
    &&& (match r {
            Ok(_) => {
                &&& sender@ == s0.config.governance@
                &&& s1.config.governance == (match governance {
                    Some(g) => g,
                    None => s0.config.governance,
                })
                &&& s1.config.controller == (match controller {
                    Some(c) => c,
                    None => s0.config.controller,
                })
                &&& s1.config.oracle == (match oracle {
                    Some(o) => o,
                    None => s0.config.oracle,
                })
                &&& s1.config.operator == (match operator {
                    Some(o) => o,
                    None => s0.config.operator,
                })
                &&& s1.config.take_rate_taker == (match take_rate_taker {
                    Some(t) => t,
                    None => s0.config.take_rate_taker,
                })
                &&& s1.config.default_yearly_take_rate == (
                match default_yearly_take_rate {
                    Some(d) => d,
                    None => s0.config.default_yearly_take_rate,
                })
                &&& s1.config.alliance_token_denom == s0.config.alliance_token_denom
                &&& s1.config.alliance_token_supply == s0.config.alliance_token_supply
                &&& s1.config.reward_denom == s0.config.reward_denom
            },
            Err(e) => e is Unauthorized && sender@ != s0.config.governance@,
        })
}

/// Updates the global parameters; governance only. Role addresses arrive
/// already validated by the host boundary.
pub fn update_config(
    state: &mut HubState,
    sender: &String,
    governance: Option<String>,
    controller: Option<String>,
    oracle: Option<String>,
    operator: Option<String>,
    take_rate_taker: Option<String>,
    default_yearly_take_rate: Option<Dec>,
) -> (r: Result<Response, ContractError>)
    requires
        old(state).wf(),
    ensures
        update_config_post(*old(state), *final(state), r, *sender, governance, controller, oracle, operator, take_rate_taker, default_yearly_take_rate),
{
    if !(*sender == state.config.governance) {
        return Err(ContractError::Unauthorized);
    }
    match governance {
        Some(g) => {
            state.config.governance = g;
        },
        None => {},
    }
    match controller {
        Some(c) => {
            state.config.controller = c;
        },
        None => {},
    }
    match oracle {
        Some(o) => {
            state.config.oracle = o;
        },
        None => {},
    }
    match operator {
        Some(o) => {
            state.config.operator = o;
        },
        None => {},
    }
    match take_rate_taker {
        Some(t) => {
            state.config.take_rate_taker = t;
        },
        None => {},
    }
    match default_yearly_take_rate {
        Some(d) => {
            state.config.default_yearly_take_rate = d;
        },
        None => {},
    }
    proof {
        HubState::lemma_checkpoints_frame(*old(state), *state);
        HubState::lemma_wf_frame(*old(state), *state);
    }
    let mut resp = Response::new();
    resp.attributes.push(Attr::Action("update_config"));
    Ok(resp)
}

/// Everything [`set_asset_reward_distribution`] guarantees.
pub open spec fn set_asset_reward_distribution_post(
    s0: HubState,
    s1: HubState,
    r: Result<Response, ContractError>,
    sender: String,
    asset_reward_distribution: Vec<AssetDistribution>,
) -> bool {
    &&& (s1.wf())
    &&& (r is Err ==> s1 == s0)
    &&& (HubState::rates_monotone(s0.asset_reward_rates@, s1.asset_reward_rates@))
    &&& (({
            let authorized = sender@ == s0.config.governance@ || sender@ == s0.config.operator@;
            match r {
                Ok(_) => {
                    &&& authorized
                    &&& dist_sum(asset_reward_distribution@) == DEC_FRACTIONAL as int
                    &&& s1.reward_distribution == Some(asset_reward_distribution)
                    &&& s1.config == s0.config
                    &&& s1.whitelist == s0.whitelist
                    &&& s1.shares == s0.shares
                    &&& s1.totals == s0.totals
                    &&& s1.asset_configs == s0.asset_configs
                    &&& s1.asset_reward_rates == s0.asset_reward_rates
                    &&& s1.user_reward_rates == s0.user_reward_rates
                    &&& s1.unclaimed == s0.unclaimed
                    &&& s1.validators == s0.validators
                    &&& s1.temp_balance == s0.temp_balance
                },
                Err(e) => {
                    ||| (e is Unauthorized && !authorized)
                    ||| (e is Overflow && authorized && dist_sum(asset_reward_distribution@)
                        > u128::MAX)
                    ||| (e is InvalidDistribution && authorized && dist_sum(
                        asset_reward_distribution@,
                    ) <= u128::MAX && dist_sum(asset_reward_distribution@) != DEC_FRACTIONAL as int)
                },
            }
        }))
}

/// Replaces the reward distribution weights; governance or operator only.
/// The weights must sum to exactly 100%, and any update restates the whole
/// set.
pub fn set_asset_reward_distribution(
    state: &mut HubState,
    sender: &String,
    asset_reward_distribution: Vec<AssetDistribution>,
) -> (r: Result<Response, ContractError>)
    requires
        old(state).wf(),
    ensures
        set_asset_reward_distribution_post(*old(state), *final(state), r, *sender, asset_reward_distribution),
{
    match is_authorized(sender, &state.config) {
        Ok(_) => {},
        Err(e) => {
            return Err(e);
        },
    }
    let ghost ds = asset_reward_distribution@;
    let n = asset_reward_distribution.len();
    let mut i: usize = 0;
    let mut total: u128 = 0;
    proof {
        assert(ds.subrange(0, 0) =~= Seq::<AssetDistribution>::empty());
    }
    while i < n
        invariant
            i <= n,
            n == ds.len(),
            asset_reward_distribution@ == ds,
            total == dist_sum(ds.subrange(0, i as int)),
            *state == *old(state),
            state.wf(),
            sender@ == state.config.governance@ || sender@ == state.config.operator@,
        decreases n - i,
    {
        proof {
            lemma_dist_sum_step(ds, i as int);
        }
        total = match total.checked_add(asset_reward_distribution[i].distribution.atomics) {
            Some(v) => v,
            None => {
                proof {
                    lemma_dist_sum_prefix(ds, i as int + 1);
                }
                return Err(ContractError::Overflow);
            },
        };
        i = i + 1;
    }
    proof {
        assert(ds.subrange(0, n as int) =~= ds);
    }
    if !(total == DEC_FRACTIONAL) {
        return Err(ContractError::InvalidDistribution);
    }
    state.reward_distribution = Some(asset_reward_distribution);
    proof {
        HubState::lemma_checkpoints_frame(*old(state), *state);
        assert forall|a: AssetKey| #[trigger] crate::state::sum_shares_for(
            state.shares.entries@,
            a,
        ) == state.total_shares_of(a) by {
            assert(crate::state::sum_shares_for(old(state).shares.entries@, a) == old(
                state,
            ).total_shares_of(a));
        }
        assert forall|a: AssetKey| #[trigger] state.total_shares_of(a)
            >= state.total_balance_of(a) - state.taken_of(a) by {
            assert(old(state).total_shares_of(a) >= old(state).total_balance_of(a) - old(
                state,
            ).taken_of(a));
        }
        assert forall|a: AssetKey| #[trigger] state.asset_configs@.contains_key(a)
            implies state.asset_configs@[a].harvested <= state.asset_configs@[a].taken by {
            assert(old(state).asset_configs@.contains_key(a));
        }
        assert forall|a: AssetKey| #[trigger] state.taken_of(a) <= state.total_balance_of(a) by {
            assert(old(state).taken_of(a) <= old(state).total_balance_of(a));
        }
    }
    let mut resp = Response::new();
    resp.attributes.push(Attr::Action("set_asset_reward_distribution"));
    Ok(resp)
}

/// Everything [`update_asset_config`] guarantees.
pub open spec fn update_asset_config_post(
    s0: HubState,
    s1: HubState,
    r: Result<Response, ContractError>,
    sender: String,
    update: AssetInfoWithConfig,
) -> bool {
    &&& (s1.wf())
    &&& (r is Err ==> s1 == s0)
    &&& (HubState::rates_monotone(s0.asset_reward_rates@, s1.asset_reward_rates@))
    &&& (({
            let cur = crate::vault::cfg_or_init_s(&s0, update.info@);
            let new_rate = match update.yearly_take_rate {
                Some(rr) => rr,
                None => s0.config.default_yearly_take_rate,
            };
            match r {
                Ok(_) => {
                    &&& sender@ == s0.config.governance@
                    &&& s0.whitelist@.contains_key(update.info@)
                    &&& s1.asset_configs@ =~= s0.asset_configs@.insert(
                        update.info@,
                        AssetConfigRuntime {
                            yearly_take_rate: new_rate,
                            stake_config: StakeConfig::SelfCustody,
                            ..cur
                        },
                    )
                    &&& s1.config == s0.config
                    &&& s1.whitelist == s0.whitelist
                    &&& s1.shares == s0.shares
                    &&& s1.totals == s0.totals
                    &&& s1.asset_reward_rates == s0.asset_reward_rates
                    &&& s1.user_reward_rates == s0.user_reward_rates
                    &&& s1.unclaimed == s0.unclaimed
                    &&& s1.validators == s0.validators
                    &&& s1.reward_distribution == s0.reward_distribution
                    &&& s1.temp_balance == s0.temp_balance
                },
                Err(e) => {
                    ||| (e is Unauthorized && sender@ != s0.config.governance@)
                    ||| (e is AssetNotWhitelisted && sender@ == s0.config.governance@
                        && !s0.whitelist@.contains_key(update.info@))
                },
            }
        }))
}

/// Overrides one asset's take rate; governance only, and only for a
/// whitelisted asset. An absent override falls back to the global default
/// rate. The staking backend stays in the ledger's own custody, so no
/// rebalancing dispatch arises.
pub fn update_asset_config(state: &mut HubState, sender: &String, update: AssetInfoWithConfig) -> (
    r: Result<Response, ContractError>)
    requires
        old(state).wf(),
    ensures
        update_asset_config_post(*old(state), *final(state), r, *sender, update),
{
    match is_governance(sender, &state.config) {
        Ok(_) => {},
        Err(e) => {
            return Err(e);
        },
    }
    match assert_asset_whitelisted(state, &update.info) {
        Ok(_) => {},
        Err(e) => {
            return Err(e);
        },
    }
    let current = match state.asset_configs.get(&update.info) {
        Some(c) => *c,
        None => AssetConfigRuntime::init(),
    };
    let new_rate = match update.yearly_take_rate {
        Some(rr) => rr,
        None => state.config.default_yearly_take_rate,
    };
    let updated = AssetConfigRuntime {
        yearly_take_rate: new_rate,
        stake_config: StakeConfig::SelfCustody,
        ..current
    };
    state.asset_configs.insert(update.info.clone(), updated);
    proof {
        let s0 = old(state);
        HubState::lemma_checkpoints_frame(*old(state), *state);
        assert forall|a: AssetKey| #[trigger] crate::state::sum_shares_for(
            state.shares.entries@,
            a,
        ) == state.total_shares_of(a) by {
            assert(crate::state::sum_shares_for(s0.shares.entries@, a) == s0.total_shares_of(a));
        }
        assert forall|a: AssetKey| #[trigger] state.total_shares_of(a)
            >= state.total_balance_of(a) - state.taken_of(a) by {
            assert(s0.total_shares_of(a) >= s0.total_balance_of(a) - s0.taken_of(a));
        }
        assert forall|a: AssetKey| #[trigger] state.asset_configs@.contains_key(a)
            implies state.asset_configs@[a].harvested <= state.asset_configs@[a].taken by {
            if a != update.info@ {
                assert(s0.asset_configs@.contains_key(a));
            }
        }
        assert forall|a: AssetKey| #[trigger] state.taken_of(a) <= state.total_balance_of(a) by {
            assert(s0.taken_of(a) <= s0.total_balance_of(a));
        }
    }
    let mut resp = Response::new();
    resp.attributes.push(Attr::Action("update_asset_config"));
    resp.attributes.push(Attr::AssetRef(update.info));
    Ok(resp)
}

/// The registry maps that whitelisting touches.
pub struct RegistryMaps {
    pub wl: Map<AssetKey, String>,
    pub rates: Map<AssetKey, Dec>,
    pub cfgs: Map<AssetKey, AssetConfigRuntime>,
}

pub open spec fn regs_of(s: &HubState) -> RegistryMaps {
    RegistryMaps { wl: s.whitelist@, rates: s.asset_reward_rates@, cfgs: s.asset_configs@ }
}

/// Whitelisting one asset under one chain tag: the whitelist entry is
/// written, the reward accumulator is initialized to zero only if absent,
/// and the fee state keeps its cumulative taken/harvested amounts while the
/// rate is set (falling back to the global default) and the accrual clock
/// is reset.
pub open spec fn wl_one_s(
    m: RegistryMaps,
    default_rate: Dec,
    chain: String,
    e: AssetInfoWithConfig,
) -> RegistryMaps {
    let cur = if m.cfgs.contains_key(e.info@) {
        m.cfgs[e.info@]
    } else {
        AssetConfigRuntime::spec_init()
    };
    let new_rate = match e.yearly_take_rate {
        Some(rr) => rr,
        None => default_rate,
    };
    RegistryMaps {
        wl: m.wl.insert(e.info@, chain),
        rates: if m.rates.contains_key(e.info@) {
            m.rates
        } else {
            m.rates.insert(e.info@, Dec::spec_zero())
        },
        cfgs: m.cfgs.insert(
            e.info@,
            AssetConfigRuntime {
                last_taken_s: 0,
                taken: cur.taken,
                harvested: cur.harvested,
                yearly_take_rate: new_rate,
                stake_config: StakeConfig::SelfCustody,
            },
        ),
    }
}

/// The first `n` assets of one chain's request, applied in order.
pub open spec fn wl_chain_s(
    m: RegistryMaps,
    default_rate: Dec,
    chain: String,
    assets: Seq<AssetInfoWithConfig>,
    n: int,
) -> RegistryMaps
    decreases n,
{
    if n <= 0 {
        m
    } else {
        wl_one_s(wl_chain_s(m, default_rate, chain, assets, n - 1), default_rate, chain, assets[n - 1])
    }
}

/// The first `n` chain requests, applied in order.
pub open spec fn wl_reqs_s(
    m: RegistryMaps,
    default_rate: Dec,
    reqs: Seq<(String, Vec<AssetInfoWithConfig>)>,
    n: int,
) -> RegistryMaps
    decreases n,
{
    if n <= 0 {
        m
    } else {
        let prev = wl_reqs_s(m, default_rate, reqs, n - 1);
        wl_chain_s(prev, default_rate, reqs[n - 1].0, reqs[n - 1].1@, reqs[n - 1].1@.len() as int)
    }
}

/// Everything [`whitelist_assets`] guarantees.
pub open spec fn whitelist_assets_post(
    s0: HubState,
    s1: HubState,
    r: Result<Response, ContractError>,
    sender: String,
    assets_request: Vec<(String, Vec<AssetInfoWithConfig>)>,
) -> bool {
    &&& (s1.wf())
    &&& (r is Err ==> s1 == s0)
    &&& (HubState::rates_monotone(s0.asset_reward_rates@, s1.asset_reward_rates@))
    &&& (s1.config == s0.config)
    &&& (s1.shares == s0.shares)
    &&& (s1.totals == s0.totals)
    &&& (s1.user_reward_rates == s0.user_reward_rates)
    &&& (s1.unclaimed == s0.unclaimed)
    &&& (s1.validators == s0.validators)
    &&& (s1.reward_distribution == s0.reward_distribution)
    &&& (s1.temp_balance == s0.temp_balance)
    &&& (match r {
            Ok(_) => {
                &&& sender@ == s0.config.governance@
                &&& regs_of(&s1).wl =~= wl_reqs_s(
                    regs_of(&s0),
                    s0.config.default_yearly_take_rate,
                    assets_request@,
                    assets_request@.len() as int,
                ).wl
                &&& regs_of(&s1).rates =~= wl_reqs_s(
                    regs_of(&s0),
                    s0.config.default_yearly_take_rate,
                    assets_request@,
                    assets_request@.len() as int,
                ).rates
                &&& regs_of(&s1).cfgs =~= wl_reqs_s(
                    regs_of(&s0),
                    s0.config.default_yearly_take_rate,
                    assets_request@,
                    assets_request@.len() as int,
                ).cfgs
            },
            Err(e) => e is Unauthorized && sender@ != s0.config.governance@,
        })
}

/// Admits assets to staking; governance only. Each asset is tagged with its
/// chain, gets a zero reward accumulator if it never had one, and has its
/// fee state refreshed — cumulative taken/harvested amounts survive, the
/// accrual clock restarts.
pub fn whitelist_assets(
    state: &mut HubState,
    sender: &String,
    assets_request: Vec<(String, Vec<AssetInfoWithConfig>)>,
) -> (r: Result<Response, ContractError>)
    requires
        old(state).wf(),
    ensures
        whitelist_assets_post(*old(state), *final(state), r, *sender, assets_request),
{
    match is_governance(sender, &state.config) {
        Ok(_) => {},
        Err(e) => {
            return Err(e);
        },
    }
    let ghost regs0 = regs_of(state);
    let ghost default_rate0 = state.config.default_yearly_take_rate;
    let ghost reqs = assets_request@;
    let mut resp = Response::new();
    resp.attributes.push(Attr::Action("whitelist_assets"));
    let cn = assets_request.len();
    let mut ci: usize = 0;
    while ci < cn
        invariant
            ci <= cn,
            cn == reqs.len(),
            assets_request@ == reqs,
            state.wf(),
            default_rate0 == state.config.default_yearly_take_rate,
            regs_of(state).wl == wl_reqs_s(regs0, default_rate0, reqs, ci as int).wl,
            regs_of(state).rates == wl_reqs_s(regs0, default_rate0, reqs, ci as int).rates,
            regs_of(state).cfgs == wl_reqs_s(regs0, default_rate0, reqs, ci as int).cfgs,
            HubState::rates_monotone(regs0.rates, state.asset_reward_rates@),
            state.config == old(state).config,
            state.shares == old(state).shares,
            state.totals == old(state).totals,
            state.user_reward_rates == old(state).user_reward_rates,
            state.unclaimed == old(state).unclaimed,
            state.validators == old(state).validators,
            state.reward_distribution == old(state).reward_distribution,
            state.temp_balance == old(state).temp_balance,
        decreases cn - ci,
    {
        let ghost mchain = wl_reqs_s(regs0, default_rate0, reqs, ci as int);
        let chain_id = &assets_request[ci].0;
        let assets = &assets_request[ci].1;
        resp.attributes.push(Attr::ChainId(chain_id.clone()));
        let ghost aseq = assets@;
        let an = assets.len();
        let mut ai: usize = 0;
        while ai < an
            invariant
                ai <= an,
                an == aseq.len(),
                assets@ == aseq,
                *chain_id == reqs[ci as int].0,
                aseq == reqs[ci as int].1@,
                0 <= ci < reqs.len(),
                state.wf(),
                default_rate0 == state.config.default_yearly_take_rate,
                regs_of(state).wl == wl_chain_s(mchain, default_rate0, *chain_id, aseq, ai as int).wl,
                regs_of(state).rates == wl_chain_s(mchain, default_rate0, *chain_id, aseq, ai as int).rates,
                regs_of(state).cfgs == wl_chain_s(mchain, default_rate0, *chain_id, aseq, ai as int).cfgs,
                mchain == wl_reqs_s(regs0, default_rate0, reqs, ci as int),
                HubState::rates_monotone(regs0.rates, state.asset_reward_rates@),
                state.config == old(state).config,
                state.shares == old(state).shares,
                state.totals == old(state).totals,
                state.user_reward_rates == old(state).user_reward_rates,
                state.unclaimed == old(state).unclaimed,
                state.validators == old(state).validators,
                state.reward_distribution == old(state).reward_distribution,
                state.temp_balance == old(state).temp_balance,
            decreases an - ai,
        {
            let ghost s_pre = *state;
            let entry = &assets[ai];
            state.whitelist.insert(entry.info.clone(), chain_id.clone());
            if !state.asset_reward_rates.contains_key(&entry.info) {
                state.asset_reward_rates.insert(entry.info.clone(), Dec::zero());
            }
            let current = match state.asset_configs.get(&entry.info) {
                Some(c) => *c,
                None => AssetConfigRuntime::init(),
            };
            let new_rate = match entry.yearly_take_rate {
                Some(rr) => rr,
                None => state.config.default_yearly_take_rate,
            };
            state.asset_configs.insert(
                entry.info.clone(),
                AssetConfigRuntime {
                    last_taken_s: 0,
                    taken: current.taken,
                    harvested: current.harvested,
                    yearly_take_rate: new_rate,
                    stake_config: StakeConfig::SelfCustody,
                },
            );
            proof {
                assert(regs_of(state).wl =~= wl_chain_s(
                    mchain,
                    default_rate0,
                    *chain_id,
                    aseq,
                    ai as int + 1,
                ).wl);
                assert(regs_of(state).rates =~= wl_chain_s(
                    mchain,
                    default_rate0,
                    *chain_id,
                    aseq,
                    ai as int + 1,
                ).rates);
                assert(regs_of(state).cfgs =~= wl_chain_s(
                    mchain,
                    default_rate0,
                    *chain_id,
                    aseq,
                    ai as int + 1,
                ).cfgs);
                assert forall|a: AssetKey| #[trigger] crate::state::sum_shares_for(
                    state.shares.entries@,
                    a,
                ) == state.total_shares_of(a) by {
                    assert(crate::state::sum_shares_for(s_pre.shares.entries@, a)
                        == s_pre.total_shares_of(a));
                }
                assert forall|a: AssetKey| #[trigger] state.total_shares_of(a)
                    >= state.total_balance_of(a) - state.taken_of(a) by {
                    assert(s_pre.total_shares_of(a) >= s_pre.total_balance_of(a) - s_pre.taken_of(
                        a,
                    ));
                }
                assert forall|a: AssetKey| #[trigger] state.asset_configs@.contains_key(a)
                    implies state.asset_configs@[a].harvested <= state.asset_configs@[a].taken by {
                    if a != entry.info@ {
                        assert(s_pre.asset_configs@.contains_key(a));
                    }
                }
                assert forall|a: AssetKey| #[trigger] state.taken_of(a) <= state.total_balance_of(
                    a,
                ) by {
                    assert(s_pre.taken_of(a) <= s_pre.total_balance_of(a));
                }
                assert forall|k2: (Seq<char>, AssetKey)| #[trigger] state.user_reward_rates@
                    .contains_key(k2) implies state.asset_reward_rates@.contains_key(k2.1)
                    && state.user_reward_rates@[k2].atomics <= state.asset_reward_rates@[
                    k2.1
                ].atomics by {
                    assert(s_pre.user_reward_rates@.contains_key(k2));
                    assert(s_pre.asset_reward_rates@.contains_key(k2.1));
                }
            }
            resp.attributes.push(Attr::AssetRef(entry.info.clone()));
            ai = ai + 1;
        }
        ci = ci + 1;
    }
    proof {
        assert(regs_of(state).wl =~= wl_reqs_s(regs0, default_rate0, reqs, cn as int).wl);
        assert(regs_of(state).rates =~= wl_reqs_s(regs0, default_rate0, reqs, cn as int).rates);
        assert(regs_of(state).cfgs =~= wl_reqs_s(regs0, default_rate0, reqs, cn as int).cfgs);
    }
    Ok(resp)
}

/// The asset keys named by the first `n` entries of a removal request.
pub open spec fn asset_keys_of(s: Seq<AssetInfo>, n: int) -> Set<AssetKey> {
    Set::new(|a: AssetKey| exists|i: int| 0 <= i < n && s[i]@ == a)
}

/// Everything [`remove_assets`] guarantees.
pub open spec fn remove_assets_post(
    s0: HubState,
    s1: HubState,
    r: Result<Response, ContractError>,
    sender: String,
    assets: Vec<AssetInfo>,
) -> bool {
    &&& (s1.wf())
    &&& (r is Err ==> s1 == s0)
    &&& (HubState::rates_monotone(s0.asset_reward_rates@, s1.asset_reward_rates@))
    &&& (s1.config == s0.config)
    &&& (s1.shares == s0.shares)
    &&& (s1.totals == s0.totals)
    &&& (s1.asset_configs == s0.asset_configs)
    &&& (s1.asset_reward_rates == s0.asset_reward_rates)
    &&& (s1.user_reward_rates == s0.user_reward_rates)
    &&& (s1.unclaimed == s0.unclaimed)
    &&& (s1.validators == s0.validators)
    &&& (s1.reward_distribution == s0.reward_distribution)
    &&& (s1.temp_balance == s0.temp_balance)
    &&& (match r {
            Ok(_) => {
                &&& sender@ == s0.config.governance@
                &&& s1.whitelist@ =~= s0.whitelist@.remove_keys(
                    asset_keys_of(assets@, assets@.len() as int),
                )
            },
            Err(e) => e is Unauthorized && sender@ != s0.config.governance@,
        })
}

/// Drops assets from the whitelist; governance only. Only eligibility for
/// new stakes ends: ledger, fee and reward state survive, so existing
/// positions stay withdrawable and reward-earning.
pub fn remove_assets(state: &mut HubState, sender: &String, assets: Vec<AssetInfo>) -> (r: Result<
    Response,
    ContractError,
>)
    requires
        old(state).wf(),
    ensures
        remove_assets_post(*old(state), *final(state), r, *sender, assets),
{
    match is_governance(sender, &state.config) {
        Ok(_) => {},
        Err(e) => {
            return Err(e);
        },
    }
    let ghost wl0 = state.whitelist@;
    let ghost aseq = assets@;
    let n = assets.len();
    let mut i: usize = 0;
    proof {
        assert(wl0.remove_keys(asset_keys_of(aseq, 0)) =~= wl0);
    }
    while i < n
        invariant
            i <= n,
            n == aseq.len(),
            assets@ == aseq,
            state.whitelist.wf(),
            state.whitelist@ =~= wl0.remove_keys(asset_keys_of(aseq, i as int)),
            state.config == old(state).config,
            state.shares == old(state).shares,
            state.totals == old(state).totals,
            state.asset_configs == old(state).asset_configs,
            state.asset_reward_rates == old(state).asset_reward_rates,
            state.user_reward_rates == old(state).user_reward_rates,
            state.unclaimed == old(state).unclaimed,
            state.validators == old(state).validators,
            state.reward_distribution == old(state).reward_distribution,
            state.temp_balance == old(state).temp_balance,
        decreases n - i,
    {
        state.whitelist.remove(&assets[i]);
        proof {
            assert(state.whitelist@ =~= wl0.remove_keys(asset_keys_of(aseq, i as int + 1)));
        }
        i = i + 1;
    }
    proof {
        HubState::lemma_checkpoints_frame(*old(state), *state);
        HubState::lemma_wf_frame(*old(state), *state);
    }
    let mut resp = Response::new();
    resp.attributes.push(Attr::Action("remove_assets"));
    Ok(resp)
}

/// Whether a validator is already recorded.
pub open spec fn vals_contain(vs: Seq<String>, v: Seq<char>) -> bool {
    exists|i: int| 0 <= i < vs.len() && vs[i]@ == v
}

/// Recording a validator: appended once, never twice.
pub open spec fn vals_add_s(vs: Seq<String>, v: String) -> Seq<String> {
    if vals_contain(vs, v@) {
        vs
    } else {
        vs.push(v)
    }
}

/// The validators recorded after the first `n` delegations of a batch.
pub open spec fn vals_add_delegations_s(
    vs: Seq<String>,
    ds: Seq<crate::types::AllianceDelegation>,
    n: int,
) -> Seq<String>
    decreases n,
{
    if n <= 0 {
        vs
    } else {
        vals_add_s(vals_add_delegations_s(vs, ds, n - 1), ds[n - 1].validator)
    }
}

/// The validators recorded after the first `n` redelegations of a batch
/// (each records its destination).
pub open spec fn vals_add_redelegations_s(
    vs: Seq<String>,
    ds: Seq<crate::types::AllianceRedelegation>,
    n: int,
) -> Seq<String>
    decreases n,
{
    if n <= 0 {
        vs
    } else {
        vals_add_s(vals_add_redelegations_s(vs, ds, n - 1), ds[n - 1].dst_validator)
    }
}

/// Records a validator unless it is already known.
fn validators_insert(validators: &mut Vec<String>, v: String)
    requires
        validators_unique(old(validators)@),
    ensures
        validators_unique(final(validators)@),
        final(validators)@ == vals_add_s(old(validators)@, v),
{
    let n = validators.len();
    let mut i: usize = 0;
    while i < n
        invariant
            i <= n,
            n == validators@.len(),
            validators@ == old(validators)@,
            validators_unique(validators@),
            forall|j: int| 0 <= j < i ==> validators@[j]@ != v@,
        decreases n - i,
    {
        if validators[i] == v {
            return ;
        }
        i = i + 1;
    }
    validators.push(v);
    proof {
        assert(!vals_contain(old(validators)@, v@));
        assert forall|x: int, y: int|
            0 <= x < y < validators@.len() implies validators@[x]@ != validators@[y]@ by {
            if y < validators@.len() - 1 {
                assert(old(validators)@[x]@ != old(validators)@[y]@);
            }
        }
    }
}

/// Everything [`alliance_delegate`] guarantees.
pub open spec fn alliance_delegate_post(
    s0: HubState,
    s1: HubState,
    r: Result<Response, ContractError>,
    sender: String,
    msg: AllianceDelegateMsg,
) -> bool {
    &&& (s1.wf())
    &&& (r is Err ==> s1 == s0)
    &&& (HubState::rates_monotone(s0.asset_reward_rates@, s1.asset_reward_rates@))
    &&& (s1.config == s0.config)
    &&& (s1.whitelist == s0.whitelist)
    &&& (s1.shares == s0.shares)
    &&& (s1.totals == s0.totals)
    &&& (s1.asset_configs == s0.asset_configs)
    &&& (s1.asset_reward_rates == s0.asset_reward_rates)
    &&& (s1.user_reward_rates == s0.user_reward_rates)
    &&& (s1.unclaimed == s0.unclaimed)
    &&& (s1.reward_distribution == s0.reward_distribution)
    &&& (s1.temp_balance == s0.temp_balance)
    &&& (match r {
            Ok(resp) => {
                &&& sender@ == s0.config.controller@
                &&& msg.delegations@.len() > 0
                &&& s1.validators@ == vals_add_delegations_s(
                    s0.validators@,
                    msg.delegations@,
                    msg.delegations@.len() as int,
                )
                &&& resp.messages@.len() == msg.delegations@.len()
                &&& (forall|i: int|
                    0 <= i < resp.messages@.len() ==> (#[trigger] resp.messages@[i] matches
                        HubMsg::Delegate { validator, denom, amount }
                        && validator@ == msg.delegations@[i].validator@
                        && denom@ == s0.config.alliance_token_denom@
                        && amount == msg.delegations@[i].amount))
                &&& resp.tolerant_messages@ =~= Seq::<HubMsg>::empty()
            },
            Err(e) => {
                ||| (e is Unauthorized && sender@ != s0.config.controller@)
                ||| (e is EmptyDelegation && sender@ == s0.config.controller@
                    && msg.delegations@.len() == 0)
            },
        })
}

/// Dispatches one delegation of derivative stake per batch entry;
/// controller only, empty batches refused. Every destination validator is
/// recorded for later harvests.
pub fn alliance_delegate(state: &mut HubState, sender: &String, msg: AllianceDelegateMsg) -> (r:
    Result<Response, ContractError>)
    requires
        old(state).wf(),
    ensures
        alliance_delegate_post(*old(state), *final(state), r, *sender, msg),
{
    match is_controller(sender, &state.config) {
        Ok(_) => {},
        Err(e) => {
            return Err(e);
        },
    }
    if msg.delegations.len() == 0 {
        return Err(ContractError::EmptyDelegation);
    }
    let ghost vs0 = state.validators@;
    let ghost dels = msg.delegations@;
    let mut resp = Response::new();
    resp.attributes.push(Attr::Action("alliance_delegate"));
    let n = msg.delegations.len();
    let mut i: usize = 0;
    while i < n
        invariant
            i <= n,
            n == dels.len(),
            msg.delegations@ == dels,
            validators_unique(state.validators@),
            state.validators@ == vals_add_delegations_s(vs0, dels, i as int),
            state.config == old(state).config,
            state.whitelist == old(state).whitelist,
            state.shares == old(state).shares,
            state.totals == old(state).totals,
            state.asset_configs == old(state).asset_configs,
            state.asset_reward_rates == old(state).asset_reward_rates,
            state.user_reward_rates == old(state).user_reward_rates,
            state.unclaimed == old(state).unclaimed,
            state.reward_distribution == old(state).reward_distribution,
            state.temp_balance == old(state).temp_balance,
            resp.messages@.len() == i,
            forall|j: int|
                0 <= j < i ==> (#[trigger] resp.messages@[j] matches HubMsg::Delegate {
                    validator,
                    denom,
                    amount,
                } && validator@ == dels[j].validator@ && denom@
                    == state.config.alliance_token_denom@ && amount == dels[j].amount),
            resp.tolerant_messages@ =~= Seq::<HubMsg>::empty(),
        decreases n - i,
    {
        let d = &msg.delegations[i];
        resp.messages.push(
            HubMsg::Delegate {
                validator: d.validator.clone(),
                denom: state.config.alliance_token_denom.clone(),
                amount: d.amount,
            },
        );
        validators_insert(&mut state.validators, d.validator.clone());
        i = i + 1;
    }
    proof {
        HubState::lemma_checkpoints_frame(*old(state), *state);
        HubState::lemma_wf_frame(*old(state), *state);
    }
    Ok(resp)
}

/// Everything [`alliance_undelegate`] guarantees.
pub open spec fn alliance_undelegate_post(
    s0: HubState,
    s1: HubState,
    r: Result<Response, ContractError>,
    sender: String,
    msg: AllianceUndelegateMsg,
) -> bool {
    &&& (s1.wf())
    &&& (r is Err ==> s1 == s0)
    &&& (HubState::rates_monotone(s0.asset_reward_rates@, s1.asset_reward_rates@))
    &&& (r is Ok ==> s1 == s0)
    &&& (match r {
            Ok(resp) => {
                &&& sender@ == s0.config.controller@
                &&& msg.undelegations@.len() > 0
                &&& resp.messages@.len() == msg.undelegations@.len()
                &&& (forall|i: int|
                    0 <= i < resp.messages@.len() ==> (#[trigger] resp.messages@[i] matches
                        HubMsg::Undelegate { validator, denom, amount }
                        && validator@ == msg.undelegations@[i].validator@
                        && denom@ == s0.config.alliance_token_denom@
                        && amount == msg.undelegations@[i].amount))
                &&& resp.tolerant_messages@ =~= Seq::<HubMsg>::empty()
            },
            Err(e) => {
                ||| (e is Unauthorized && sender@ != s0.config.controller@)
                ||| (e is EmptyDelegation && sender@ == s0.config.controller@
                    && msg.undelegations@.len() == 0)
            },
        })
}

/// Dispatches one undelegation per batch entry; controller only, empty
/// batches refused. The validator set keeps the source validator: later
/// harvests still attempt (and tolerate failing) claims against it.
pub fn alliance_undelegate(state: &mut HubState, sender: &String, msg: AllianceUndelegateMsg) -> (
    r: Result<Response, ContractError>)
    requires
        old(state).wf(),
    ensures
        alliance_undelegate_post(*old(state), *final(state), r, *sender, msg),
{
    match is_controller(sender, &state.config) {
        Ok(_) => {},
        Err(e) => {
            return Err(e);
        },
    }
    if msg.undelegations.len() == 0 {
        return Err(ContractError::EmptyDelegation);
    }
    let ghost dels = msg.undelegations@;
    let mut resp = Response::new();
    resp.attributes.push(Attr::Action("alliance_undelegate"));
    let n = msg.undelegations.len();
    let mut i: usize = 0;
    while i < n
        invariant
            i <= n,
            n == dels.len(),
            msg.undelegations@ == dels,
            *state == *old(state),
            resp.messages@.len() == i,
            forall|j: int|
                0 <= j < i ==> (#[trigger] resp.messages@[j] matches HubMsg::Undelegate {
                    validator,
                    denom,
                    amount,
                } && validator@ == dels[j].validator@ && denom@
                    == state.config.alliance_token_denom@ && amount == dels[j].amount),
            resp.tolerant_messages@ =~= Seq::<HubMsg>::empty(),
        decreases n - i,
    {
        let d = &msg.undelegations[i];
        resp.messages.push(
            HubMsg::Undelegate {
                validator: d.validator.clone(),
                denom: state.config.alliance_token_denom.clone(),
                amount: d.amount,
            },
        );
        i = i + 1;
    }
    Ok(resp)
}

/// Everything [`alliance_redelegate`] guarantees.
pub open spec fn alliance_redelegate_post(
    s0: HubState,
    s1: HubState,
    r: Result<Response, ContractError>,
    sender: String,
    msg: AllianceRedelegateMsg,
) -> bool {
    &&& (s1.wf())
    &&& (r is Err ==> s1 == s0)
    &&& (HubState::rates_monotone(s0.asset_reward_rates@, s1.asset_reward_rates@))
    &&& (s1.config == s0.config)
    &&& (s1.whitelist == s0.whitelist)
    &&& (s1.shares == s0.shares)
    &&& (s1.totals == s0.totals)
    &&& (s1.asset_configs == s0.asset_configs)
    &&& (s1.asset_reward_rates == s0.asset_reward_rates)
    &&& (s1.user_reward_rates == s0.user_reward_rates)
    &&& (s1.unclaimed == s0.unclaimed)
    &&& (s1.reward_distribution == s0.reward_distribution)
    &&& (s1.temp_balance == s0.temp_balance)
    &&& (match r {
            Ok(resp) => {
                &&& sender@ == s0.config.controller@
                &&& msg.redelegations@.len() > 0
                &&& s1.validators@ == vals_add_redelegations_s(
                    s0.validators@,
                    msg.redelegations@,
                    msg.redelegations@.len() as int,
                )
                &&& resp.messages@.len() == msg.redelegations@.len()
                &&& (forall|i: int|
                    0 <= i < resp.messages@.len() ==> (#[trigger] resp.messages@[i] matches
                        HubMsg::Redelegate { src_validator, dst_validator, denom, amount }
                        && src_validator@ == msg.redelegations@[i].src_validator@
                        && dst_validator@ == msg.redelegations@[i].dst_validator@
                        && denom@ == s0.config.alliance_token_denom@
                        && amount == msg.redelegations@[i].amount))
                &&& resp.tolerant_messages@ =~= Seq::<HubMsg>::empty()
            },
            Err(e) => {
                ||| (e is Unauthorized && sender@ != s0.config.controller@)
                ||| (e is EmptyDelegation && sender@ == s0.config.controller@
                    && msg.redelegations@.len() == 0)
            },
        })
}

/// Dispatches one redelegation per batch entry; controller only, empty
/// batches refused. Every destination validator is recorded.
pub fn alliance_redelegate(state: &mut HubState, sender: &String, msg: AllianceRedelegateMsg) -> (
    r: Result<Response, ContractError>)
    requires
        old(state).wf(),
    ensures
        alliance_redelegate_post(*old(state), *final(state), r, *sender, msg),
{
    match is_controller(sender, &state.config) {
        Ok(_) => {},
        Err(e) => {
            return Err(e);
        },
    }
    if msg.redelegations.len() == 0 {
        return Err(ContractError::EmptyDelegation);
    }
    let ghost vs0 = state.validators@;
    let ghost dels = msg.redelegations@;
    let mut resp = Response::new();
    resp.attributes.push(Attr::Action("alliance_redelegate"));
    let n = msg.redelegations.len();
    let mut i: usize = 0;
    while i < n
        invariant
            i <= n,
            n == dels.len(),
            msg.redelegations@ == dels,
            validators_unique(state.validators@),
            state.validators@ == vals_add_redelegations_s(vs0, dels, i as int),
            state.config == old(state).config,
            state.whitelist == old(state).whitelist,
            state.shares == old(state).shares,
            state.totals == old(state).totals,
            state.asset_configs == old(state).asset_configs,
            state.asset_reward_rates == old(state).asset_reward_rates,
            state.user_reward_rates == old(state).user_reward_rates,
            state.unclaimed == old(state).unclaimed,
            state.reward_distribution == old(state).reward_distribution,
            state.temp_balance == old(state).temp_balance,
            resp.messages@.len() == i,
            forall|j: int|
                0 <= j < i ==> (#[trigger] resp.messages@[j] matches HubMsg::Redelegate {
                    src_validator,
                    dst_validator,
                    denom,
                    amount,
                } && src_validator@ == dels[j].src_validator@ && dst_validator@
                    == dels[j].dst_validator@ && denom@ == state.config.alliance_token_denom@
                    && amount == dels[j].amount),
            resp.tolerant_messages@ =~= Seq::<HubMsg>::empty(),
        decreases n - i,
    {
        let d = &msg.redelegations[i];
        resp.messages.push(
            HubMsg::Redelegate {
                src_validator: d.src_validator.clone(),
                dst_validator: d.dst_validator.clone(),
                denom: state.config.alliance_token_denom.clone(),
                amount: d.amount,
            },
        );
        validators_insert(&mut state.validators, d.dst_validator.clone());
        i = i + 1;
    }
    proof {
        HubState::lemma_checkpoints_frame(*old(state), *state);
        HubState::lemma_wf_frame(*old(state), *state);
    }
    Ok(resp)
}

/// Everything [`receive_cw20`] guarantees: a zero-amount stake hook is
/// refused, and otherwise the operation behaves exactly as the staking or
/// unstaking it routes to. Note the unstake hook acts for the calling token
/// contract, exactly as the inbound notification presents it.
pub open spec fn receive_cw20_post(
    s0: HubState,
    s1: HubState,
    r: Result<Response, ContractError>,
    now_s: u64,
    token_contract: String,
    cw20_msg: Cw20ReceiveMsg,
) -> bool {
    match cw20_msg.msg {
        Cw20HookMsg::Stake => {
            if cw20_msg.amount == 0 {
                (r matches Err(e) && e is AmountCannotBeZero) && s1 == s0
            } else {
                crate::vault::stake_post(
                    s0,
                    s1,
                    r,
                    now_s,
                    AssetInfo::Cw20(token_contract),
                    cw20_msg.amount,
                    cw20_msg.sender,
                )
            }
        },
        Cw20HookMsg::Unstake(asset) => crate::vault::unstake_post(
            s0,
            s1,
            r,
            now_s,
            token_contract,
            asset,
        ),
    }
}

/// Routes a token-receive notification to its hook: a stake credited to the
/// notification's original sender, or an unstake. The calling token
/// contract is the asset staked.
pub fn receive_cw20(
    state: &mut HubState,
    now_s: u64,
    token_contract: String,
    cw20_msg: Cw20ReceiveMsg,
) -> (r: Result<Response, ContractError>)
    requires
        old(state).wf(),
        old(state).clocks_ok(now_s),
    ensures
        receive_cw20_post(*old(state), *final(state), r, now_s, token_contract, cw20_msg),
{
    match cw20_msg.msg {
        Cw20HookMsg::Stake => {
            if cw20_msg.amount == 0 {
                return Err(ContractError::AmountCannotBeZero);
            }
            let asset = AssetInfo::Cw20(token_contract);
            stake(state, now_s, asset, cw20_msg.amount, cw20_msg.sender)
        },
        Cw20HookMsg::Unstake(asset) => unstake(state, now_s, token_contract, asset),
    }
}

/// Routes an inbound operation to its handler; the per-operation handlers
/// carry the exact contracts. A native stake must attach exactly one
/// nonzero coin, which becomes the staked asset; harvest operations need
/// the current reward-denomination balance from the host.
pub fn execute(
    state: &mut HubState,
    now_s: u64,
    sender: String,
    funds: Vec<Coin>,
    contract_address: &String,
    reward_balance: Option<u128>,
    msg: ExecuteMsg,
) -> (r: Result<Response, ContractError>)
    requires
        old(state).wf(),
        old(state).clocks_ok(now_s),
    ensures
        ({
            let s0 = *old(state);
            let s1 = *final(state);
            match msg {
                ExecuteMsg::Receive(m) => receive_cw20_post(s0, s1, r, now_s, sender, m),
                ExecuteMsg::Stake => {
                    if funds@.len() != 1 {
                        (r matches Err(e) && e is OnlySingleAssetAllowed) && s1 == s0
                    } else if funds@[0].amount == 0 {
                        (r matches Err(e) && e is AmountCannotBeZero) && s1 == s0
                    } else {
                        crate::vault::stake_post(
                            s0,
                            s1,
                            r,
                            now_s,
                            AssetInfo::Native(funds@[0].denom),
                            funds@[0].amount,
                            sender,
                        )
                    }
                },
                ExecuteMsg::Unstake(a) => crate::vault::unstake_post(s0, s1, r, now_s, sender, a),
                ExecuteMsg::ClaimRewards(ai) => crate::rewards::claim_rewards_post(
                    s0,
                    s1,
                    r,
                    sender,
                    ai,
                ),
                ExecuteMsg::UpdateRewards => match reward_balance {
                    Some(b) => crate::rewards::update_rewards_post(s0, s1, r, funds, b),
                    None => (r matches Err(e) && e is Std) && s1 == s0,
                },
                ExecuteMsg::UpdateRewardsCallback => match reward_balance {
                    Some(b) => crate::rewards::update_reward_callback_post(
                        s0,
                        s1,
                        r,
                        *contract_address,
                        sender,
                        b,
                    ),
                    None => (r matches Err(e) && e is Std) && s1 == s0,
                },
                ExecuteMsg::WhitelistAssets(reqs) => whitelist_assets_post(s0, s1, r, sender, reqs),
                ExecuteMsg::RemoveAssets(list) => remove_assets_post(s0, s1, r, sender, list),
                ExecuteMsg::AllianceDelegate(m) => alliance_delegate_post(s0, s1, r, sender, m),
                ExecuteMsg::AllianceUndelegate(m) => alliance_undelegate_post(s0, s1, r, sender, m),
                ExecuteMsg::AllianceRedelegate(m) => alliance_redelegate_post(s0, s1, r, sender, m),
                ExecuteMsg::SetAssetRewardDistribution(d) => set_asset_reward_distribution_post(
                    s0,
                    s1,
                    r,
                    sender,
                    d,
                ),
                ExecuteMsg::DistributeTakeRate { update, assets } => {
                    crate::fee::distribute_take_rate_post(s0, s1, r, now_s, update, assets)
                },
                ExecuteMsg::UpdateAssetConfig(u) => update_asset_config_post(s0, s1, r, sender, u),
                ExecuteMsg::UpdateConfig {
                    governance,
                    controller,
                    oracle,
                    operator,
                    take_rate_taker,
                    default_yearly_take_rate,
                } => update_config_post(
                    s0,
                    s1,
                    r,
                    sender,
                    governance,
                    controller,
                    oracle,
                    operator,
                    take_rate_taker,
                    default_yearly_take_rate,
                ),
                ExecuteMsg::RebalanceEmissions => (r matches Err(e) && e is Std) && s1 == s0,
                ExecuteMsg::RebalanceEmissionsCallback => (r matches Err(e) && e is Std) && s1
                    == s0,
            }
        }),
{
    match msg {
        ExecuteMsg::Receive(cw20_msg) => receive_cw20(state, now_s, sender, cw20_msg),
        ExecuteMsg::WhitelistAssets(assets) => whitelist_assets(state, &sender, assets),
        ExecuteMsg::RemoveAssets(assets) => remove_assets(state, &sender, assets),
        ExecuteMsg::Stake => {
            if funds.len() != 1 {
                return Err(ContractError::OnlySingleAssetAllowed);
            }
            if funds[0].amount == 0 {
                return Err(ContractError::AmountCannotBeZero);
            }
            let asset = AssetInfo::Native(funds[0].denom.clone());
            stake(state, now_s, asset, funds[0].amount, sender)
        },
        ExecuteMsg::Unstake(asset) => unstake(state, now_s, sender, asset),
        ExecuteMsg::ClaimRewards(asset_info) => claim_rewards(state, sender, asset_info),
        ExecuteMsg::UpdateRewards => {
            match reward_balance {
                Some(balance) => update_rewards(state, &funds, balance),
                None => Err(
                    ContractError::Std(String::from_str("the reward balance was not supplied")),
                ),
            }
        },
        ExecuteMsg::AllianceDelegate(m) => alliance_delegate(state, &sender, m),
        ExecuteMsg::AllianceUndelegate(m) => alliance_undelegate(state, &sender, m),
        ExecuteMsg::AllianceRedelegate(m) => alliance_redelegate(state, &sender, m),
        ExecuteMsg::UpdateRewardsCallback => {
            match reward_balance {
                Some(balance) => update_reward_callback(state, contract_address, &sender, balance),
                None => Err(
                    ContractError::Std(String::from_str("the reward balance was not supplied")),
                ),
            }
        },
        ExecuteMsg::SetAssetRewardDistribution(dist) => set_asset_reward_distribution(
            state,
            &sender,
            dist,
        ),
        ExecuteMsg::DistributeTakeRate { update, assets } => crate::fee::distribute_take_rate(
            state,
            now_s,
            update,
            assets,
        ),
        ExecuteMsg::UpdateAssetConfig(update) => update_asset_config(state, &sender, update),
        ExecuteMsg::UpdateConfig {
            governance,
            controller,
            oracle,
            operator,
            take_rate_taker,
            default_yearly_take_rate,
        } => update_config(
            state,
            &sender,
            governance,
            controller,
            oracle,
            operator,
            take_rate_taker,
            default_yearly_take_rate,
        ),
        ExecuteMsg::RebalanceEmissions => Err(
            ContractError::Std(String::from_str("unsupported action")),
        ),
        ExecuteMsg::RebalanceEmissionsCallback => Err(
            ContractError::Std(String::from_str("unsupported action")),
        ),
    }
}

} // verus!
