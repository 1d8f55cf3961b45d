use alliance_hub::contract::alliance_delegate;
use alliance_hub::contract::alliance_redelegate;
use alliance_hub::contract::alliance_undelegate;
use alliance_hub::contract::execute;
use alliance_hub::contract::instantiate;
use alliance_hub::contract::reply;
use alliance_hub::contract::set_asset_reward_distribution;
use alliance_hub::contract::whitelist_assets;
use alliance_hub::contract::CLAIM_REWARD_ERROR_REPLY_ID;
use alliance_hub::contract::CREATE_REPLY_ID;
use alliance_hub::query::get_pending_rewards;
use alliance_hub::query::query;
use alliance_hub::rewards::claim_rewards;
use alliance_hub::rewards::update_reward_callback;
use alliance_hub::rewards::update_rewards;
use alliance_hub::state::HubState;
use alliance_hub::types::AllianceDelegateMsg;
use alliance_hub::types::AllianceDelegation;
use alliance_hub::types::AllianceRedelegateMsg;
use alliance_hub::types::AllianceRedelegation;
use alliance_hub::types::AllianceUndelegateMsg;
use alliance_hub::types::Asset;
use alliance_hub::types::AssetDistribution;
use alliance_hub::types::AssetInfo;
use alliance_hub::types::AssetInfoWithConfig;
use alliance_hub::types::AssetQuery;
use alliance_hub::types::Attr;
use alliance_hub::types::ContractError;
use alliance_hub::types::Dec;
use alliance_hub::types::ExecuteMsg;
use alliance_hub::types::HubMsg;
use alliance_hub::types::InstantiateMsg;
use alliance_hub::types::QueryMsg;
use alliance_hub::types::QueryResponse;
use alliance_hub::vault::stake;

const ONE: u128 = 1_000_000_000_000_000_000;

fn fresh_state() -> HubState {
    let (state, _) = instantiate(InstantiateMsg {
        governance: "gov".to_string(),
        controller: "ctrl".to_string(),
        oracle: "oracle".to_string(),
        operator: "op".to_string(),
        take_rate_taker: "collector".to_string(),
        alliance_token_denom: "ualliance".to_string(),
        reward_denom: "uluna".to_string(),
        default_yearly_take_rate: Dec { atomics: 0 },
    });
    state
}

fn uasset() -> AssetInfo {
    AssetInfo::Native("uasset".to_string())
}

fn whitelist_zero_fee(state: &mut HubState) {
    whitelist_assets(
        state,
        &"gov".to_string(),
        vec![(
            "terra".to_string(),
            vec![AssetInfoWithConfig { info: uasset(), yearly_take_rate: Some(Dec { atomics: 0 }) }],
        )],
    )
    .unwrap();
}

fn reward_amount(resp: &alliance_hub::types::Response) -> u128 {
    for a in resp.attributes.iter() {
        if let Attr::RewardAmount(v) = a {
            return *v;
        }
    }
    panic!("no reward amount attribute");
}

/// Runs a full harvest collecting `collected` units of the reward
/// denomination.
fn harvest(state: &mut HubState, collected: u128) {
    let base = 5_000u128;
    update_rewards(state, &vec![], base).unwrap();
    update_reward_callback(state, &"hub".to_string(), &"hub".to_string(), base + collected)
        .unwrap();
}

#[test]
fn harvest_fans_out_by_weight_and_user_earns_floored_share() {
    let mut state = fresh_state();
    whitelist_zero_fee(&mut state);
    stake(&mut state, 10, uasset(), 1_000_000, "alice".to_string()).unwrap();
    stake(&mut state, 10, uasset(), 500_000, "bob".to_string()).unwrap();
    set_asset_reward_distribution(
        &mut state,
        &"op".to_string(),
        vec![AssetDistribution { asset: uasset(), distribution: Dec { atomics: ONE } }],
    )
    .unwrap();
    harvest(&mut state, 100_000);
    // accumulator advance: 100,000 * 10^18 / 1,500,000 atomics
    let rate = state.asset_reward_rates.get(&uasset()).copied().unwrap();
    assert_eq!(rate.atomics, 66_666_666_666_666_666);
    // alice's pending reward: the advance times her 1,000,000 shares, floored
    let res = get_pending_rewards(
        &state,
        AssetQuery { address: "alice".to_string(), asset: uasset() },
    )
    .unwrap();
    match res {
        QueryResponse::PendingRewards(p) => {
            assert_eq!(p.rewards, 66_666);
            assert_eq!(p.reward_asset, AssetInfo::Native("uluna".to_string()));
        },
        _ => panic!("wrong response variant"),
    }
}

#[test]
fn claim_pays_and_second_claim_pays_zero() {
    let mut state = fresh_state();
    whitelist_zero_fee(&mut state);
    stake(&mut state, 10, uasset(), 1_000_000, "alice".to_string()).unwrap();
    set_asset_reward_distribution(
        &mut state,
        &"gov".to_string(),
        vec![AssetDistribution { asset: uasset(), distribution: Dec { atomics: ONE } }],
    )
    .unwrap();
    harvest(&mut state, 50_000);
    let first = claim_rewards(&mut state, "alice".to_string(), uasset()).unwrap();
    assert_eq!(reward_amount(&first), 50_000);
    assert_eq!(
        first.messages,
        vec![HubMsg::Transfer {
            recipient: "alice".to_string(),
            asset: Asset { info: AssetInfo::Native("uluna".to_string()), amount: 50_000 },
        }]
    );
    // no share or accumulator change in between: the second claim pays zero
    let second = claim_rewards(&mut state, "alice".to_string(), uasset()).unwrap();
    assert_eq!(reward_amount(&second), 0);
    assert_eq!(second.messages, vec![]);
}

#[test]
fn checkpoint_advances_even_when_the_settlement_floors_to_zero() {
    let mut state = fresh_state();
    whitelist_zero_fee(&mut state);
    stake(&mut state, 10, uasset(), 3, "alice".to_string()).unwrap();
    set_asset_reward_distribution(
        &mut state,
        &"gov".to_string(),
        vec![AssetDistribution { asset: uasset(), distribution: Dec { atomics: ONE } }],
    )
    .unwrap();
    // one collected unit over three shares floors to zero per settlement
    harvest(&mut state, 1);
    let first = claim_rewards(&mut state, "alice".to_string(), uasset()).unwrap();
    assert_eq!(reward_amount(&first), 0);
    // the checkpoint advanced to the accumulator all the same
    let rate = state.asset_reward_rates.get(&uasset()).copied().unwrap();
    let checkpoint = state
        .user_reward_rates
        .get(&alliance_hub::types::UserAsset { user: "alice".to_string(), asset: uasset() })
        .copied()
        .unwrap();
    assert_eq!(checkpoint, rate);
    // so the sub-unit accrual does not carry into the next settlement
    harvest(&mut state, 1);
    let second = claim_rewards(&mut state, "alice".to_string(), uasset()).unwrap();
    assert_eq!(reward_amount(&second), 0);
}

#[test]
fn late_staker_earns_nothing_for_earlier_harvests() {
    let mut state = fresh_state();
    whitelist_zero_fee(&mut state);
    stake(&mut state, 10, uasset(), 1_000_000, "alice".to_string()).unwrap();
    set_asset_reward_distribution(
        &mut state,
        &"gov".to_string(),
        vec![AssetDistribution { asset: uasset(), distribution: Dec { atomics: ONE } }],
    )
    .unwrap();
    harvest(&mut state, 30_000);
    // bob's first touch initializes his checkpoint at the current accumulator
    stake(&mut state, 11, uasset(), 1_000_000, "bob".to_string()).unwrap();
    let resp = claim_rewards(&mut state, "bob".to_string(), uasset()).unwrap();
    assert_eq!(reward_amount(&resp), 0);
}

#[test]
fn accumulator_never_decreases_across_harvests() {
    let mut state = fresh_state();
    whitelist_zero_fee(&mut state);
    stake(&mut state, 10, uasset(), 1_000, "alice".to_string()).unwrap();
    set_asset_reward_distribution(
        &mut state,
        &"gov".to_string(),
        vec![AssetDistribution { asset: uasset(), distribution: Dec { atomics: ONE } }],
    )
    .unwrap();
    let mut last = 0u128;
    for collected in [0u128, 10, 0, 5_000, 1] {
        harvest(&mut state, collected);
        let rate = state.asset_reward_rates.get(&uasset()).copied().unwrap();
        assert!(rate.atomics >= last);
        last = rate.atomics;
    }
}

#[test]
fn harvest_allocation_to_shareless_asset_is_dropped() {
    let mut state = fresh_state();
    whitelist_zero_fee(&mut state);
    // nobody staked: the allocation is dropped, not carried forward
    set_asset_reward_distribution(
        &mut state,
        &"gov".to_string(),
        vec![AssetDistribution { asset: uasset(), distribution: Dec { atomics: ONE } }],
    )
    .unwrap();
    harvest(&mut state, 77_000);
    let rate = state.asset_reward_rates.get(&uasset()).copied().unwrap();
    assert_eq!(rate.atomics, 0);
}

#[test]
fn second_harvest_request_fails_fast_while_one_is_pending() {
    let mut state = fresh_state();
    update_rewards(&mut state, &vec![], 1_000).unwrap();
    let err = update_rewards(&mut state, &vec![], 1_000).unwrap_err();
    assert!(matches!(err, ContractError::Std(_)));
}

#[test]
fn harvest_request_excludes_attached_reward_funds() {
    let mut state = fresh_state();
    let funds = vec![alliance_hub::types::Coin { denom: "uluna".to_string(), amount: 300 }];
    update_rewards(&mut state, &funds, 1_000).unwrap();
    assert_eq!(state.temp_balance, Some(700));
}

#[test]
fn harvest_callback_rejects_strangers() {
    let mut state = fresh_state();
    update_rewards(&mut state, &vec![], 1_000).unwrap();
    let err = update_reward_callback(&mut state, &"hub".to_string(), &"mallory".to_string(), 1_000)
        .unwrap_err();
    assert_eq!(err, ContractError::Unauthorized);
}

#[test]
fn harvest_request_claims_from_every_known_validator() {
    let mut state = fresh_state();
    alliance_delegate(
        &mut state,
        &"ctrl".to_string(),
        AllianceDelegateMsg {
            delegations: vec![
                AllianceDelegation { validator: "val1".to_string(), amount: 5 },
                AllianceDelegation { validator: "val2".to_string(), amount: 7 },
            ],
        },
    )
    .unwrap();
    let resp = update_rewards(&mut state, &vec![], 0).unwrap();
    assert_eq!(resp.tolerant_messages.len(), 2);
    assert_eq!(resp.messages, vec![HubMsg::UpdateRewardsCallback]);
}

#[test]
fn undelegate_keeps_the_validator_recorded() {
    let mut state = fresh_state();
    alliance_delegate(
        &mut state,
        &"ctrl".to_string(),
        AllianceDelegateMsg {
            delegations: vec![AllianceDelegation { validator: "val1".to_string(), amount: 5 }],
        },
    )
    .unwrap();
    alliance_undelegate(
        &mut state,
        &"ctrl".to_string(),
        AllianceUndelegateMsg {
            undelegations: vec![AllianceDelegation { validator: "val1".to_string(), amount: 5 }],
        },
    )
    .unwrap();
    // the source validator stays: later harvests still attempt its claim
    assert_eq!(state.validators, vec!["val1".to_string()]);
}

#[test]
fn redelegate_records_the_destination() {
    let mut state = fresh_state();
    alliance_redelegate(
        &mut state,
        &"ctrl".to_string(),
        AllianceRedelegateMsg {
            redelegations: vec![AllianceRedelegation {
                src_validator: "val1".to_string(),
                dst_validator: "val2".to_string(),
                amount: 5,
            }],
        },
    )
    .unwrap();
    assert_eq!(state.validators, vec!["val2".to_string()]);
}

#[test]
fn empty_delegation_batches_are_refused() {
    let mut state = fresh_state();
    let err = alliance_delegate(
        &mut state,
        &"ctrl".to_string(),
        AllianceDelegateMsg { delegations: vec![] },
    )
    .unwrap_err();
    assert_eq!(err, ContractError::EmptyDelegation);
    let err = alliance_delegate(
        &mut state,
        &"mallory".to_string(),
        AllianceDelegateMsg {
            delegations: vec![AllianceDelegation { validator: "v".to_string(), amount: 1 }],
        },
    )
    .unwrap_err();
    assert_eq!(err, ContractError::Unauthorized);
}

#[test]
fn distribution_weights_must_sum_to_one() {
    let mut state = fresh_state();
    let err = set_asset_reward_distribution(
        &mut state,
        &"gov".to_string(),
        vec![AssetDistribution { asset: uasset(), distribution: Dec { atomics: ONE / 2 } }],
    )
    .unwrap_err();
    assert_eq!(err, ContractError::InvalidDistribution);
    let err = set_asset_reward_distribution(
        &mut state,
        &"mallory".to_string(),
        vec![AssetDistribution { asset: uasset(), distribution: Dec { atomics: ONE } }],
    )
    .unwrap_err();
    assert_eq!(err, ContractError::Unauthorized);
}

#[test]
fn reply_routes_by_correlation_id() {
    let mut state = fresh_state();
    let resp = reply(
        &mut state,
        &"hub".to_string(),
        CREATE_REPLY_ID,
        Some("factory/hub/ualliance".to_string()),
    )
    .unwrap();
    assert_eq!(state.config.alliance_token_denom, "factory/hub/ualliance".to_string());
    assert_eq!(state.config.alliance_token_supply, 1_000_000_000_000);
    assert_eq!(resp.messages.len(), 2);
    reply(&mut state, &"hub".to_string(), CLAIM_REWARD_ERROR_REPLY_ID, None).unwrap();
    let err = reply(&mut state, &"hub".to_string(), 77, None).unwrap_err();
    assert_eq!(err, ContractError::InvalidReplyId(77));
}

#[test]
fn execute_routes_native_stake_and_checks_funds() {
    let mut state = fresh_state();
    whitelist_zero_fee(&mut state);
    let err = execute(
        &mut state,
        10,
        "alice".to_string(),
        vec![],
        &"hub".to_string(),
        None,
        ExecuteMsg::Stake,
    )
    .unwrap_err();
    assert_eq!(err, ContractError::OnlySingleAssetAllowed);
    let funds = vec![alliance_hub::types::Coin { denom: "uasset".to_string(), amount: 2_500 }];
    execute(
        &mut state,
        10,
        "alice".to_string(),
        funds,
        &"hub".to_string(),
        None,
        ExecuteMsg::Stake,
    )
    .unwrap();
    assert_eq!(state.totals.get(&uasset()).copied(), Some((2_500, 2_500)));
}

#[test]
fn queries_project_the_ledger() {
    let mut state = fresh_state();
    whitelist_zero_fee(&mut state);
    stake(&mut state, 10, uasset(), 40_000, "alice".to_string()).unwrap();
    match query(&state, 20, QueryMsg::StakedBalance(AssetQuery {
        address: "alice".to_string(),
        asset: uasset(),
    }))
    .unwrap()
    {
        QueryResponse::StakedBalance(res) => {
            assert_eq!(res.balance, 40_000);
            assert_eq!(res.asset, uasset());
        },
        _ => panic!("wrong response variant"),
    }
    match query(&state, 20, QueryMsg::TotalStakedBalances).unwrap() {
        QueryResponse::TotalStakedBalances(res) => {
            assert_eq!(res.len(), 1);
            assert_eq!(res[0].balance, 40_000);
        },
        _ => panic!("wrong response variant"),
    }
    match query(&state, 20, QueryMsg::WhitelistedAssets).unwrap() {
        QueryResponse::WhitelistedAssets(groups) => {
            assert_eq!(groups, vec![("terra".to_string(), vec![uasset()])]);
        },
        _ => panic!("wrong response variant"),
    }
    match query(&state, 20, QueryMsg::Config).unwrap() {
        QueryResponse::Config(c) => assert_eq!(c.reward_denom, "uluna".to_string()),
        _ => panic!("wrong response variant"),
    }
}
