use alliance_hub::contract::instantiate;
use alliance_hub::contract::whitelist_assets;
use alliance_hub::fee::distribute_take_rate;
use alliance_hub::state::HubState;
use alliance_hub::types::Asset;
use alliance_hub::types::AssetInfo;
use alliance_hub::types::AssetInfoWithConfig;
use alliance_hub::types::Attr;
use alliance_hub::types::ContractError;
use alliance_hub::types::Dec;
use alliance_hub::types::HubMsg;
use alliance_hub::types::InstantiateMsg;
use alliance_hub::vault::stake;
use alliance_hub::vault::unstake;

fn fresh_state() -> HubState {
    let (state, resp) = instantiate(InstantiateMsg {
        governance: "gov".to_string(),
        controller: "ctrl".to_string(),
        oracle: "oracle".to_string(),
        operator: "op".to_string(),
        take_rate_taker: "collector".to_string(),
        alliance_token_denom: "ualliance".to_string(),
        reward_denom: "uluna".to_string(),
        default_yearly_take_rate: Dec { atomics: 0 },
    });
    assert_eq!(
        resp.messages,
        vec![HubMsg::CreateDenom { subdenom: "ualliance".to_string() }]
    );
    state
}

fn uasset() -> AssetInfo {
    AssetInfo::Native("uasset".to_string())
}

fn whitelist_zero_fee(state: &mut HubState) {
    whitelist_assets(
        state,
        &"gov".to_string(),
        vec![(
            "terra".to_string(),
            vec![AssetInfoWithConfig { info: uasset(), yearly_take_rate: Some(Dec { atomics: 0 }) }],
        )],
    )
    .unwrap();
}

fn share_attr(resp: &alliance_hub::types::Response) -> u128 {
    for a in resp.attributes.iter() {
        if let Attr::Share(v) = a {
            return *v;
        }
    }
    panic!("no share attribute");
}

#[test]
fn first_depositor_mints_one_to_one() {
    let mut state = fresh_state();
    whitelist_zero_fee(&mut state);
    let resp = stake(&mut state, 10, uasset(), 1_000_000, "alice".to_string()).unwrap();
    assert_eq!(share_attr(&resp), 1_000_000);
    let totals = state.totals.get(&uasset()).copied().unwrap();
    assert_eq!(totals, (1_000_000, 1_000_000));
}

#[test]
fn second_depositor_mints_proportionally() {
    let mut state = fresh_state();
    whitelist_zero_fee(&mut state);
    stake(&mut state, 10, uasset(), 1_000_000, "alice".to_string()).unwrap();
    let resp = stake(&mut state, 11, uasset(), 500_000, "bob".to_string()).unwrap();
    assert_eq!(share_attr(&resp), 500_000);
    let totals = state.totals.get(&uasset()).copied().unwrap();
    assert_eq!(totals, (1_500_000, 1_500_000));
}

#[test]
fn stake_then_unstake_returns_exactly_the_deposit() {
    let mut state = fresh_state();
    whitelist_zero_fee(&mut state);
    stake(&mut state, 10, uasset(), 123_457, "alice".to_string()).unwrap();
    let resp = unstake(
        &mut state,
        10,
        "alice".to_string(),
        Asset { info: uasset(), amount: 123_457 },
    )
    .unwrap();
    assert_eq!(
        resp.messages,
        vec![HubMsg::Transfer {
            recipient: "alice".to_string(),
            asset: Asset { info: uasset(), amount: 123_457 },
        }]
    );
    let totals = state.totals.get(&uasset()).copied().unwrap();
    assert_eq!(totals, (0, 0));
}

#[test]
fn unstake_request_above_holding_clamps_to_owned_shares() {
    let mut state = fresh_state();
    whitelist_zero_fee(&mut state);
    stake(&mut state, 10, uasset(), 1_000_000, "alice".to_string()).unwrap();
    stake(&mut state, 10, uasset(), 500_000, "bob".to_string()).unwrap();
    let resp = unstake(
        &mut state,
        11,
        "bob".to_string(),
        Asset { info: uasset(), amount: 10_000_000 },
    )
    .unwrap();
    // bob owns 500,000 of 1,500,000 shares against 1,500,000 available:
    // the request clamps to his holding and pays its proportional value
    assert_eq!(
        resp.messages,
        vec![HubMsg::Transfer {
            recipient: "bob".to_string(),
            asset: Asset { info: uasset(), amount: 500_000 },
        }]
    );
    assert_eq!(state.shares.get(&alliance_hub::types::UserAsset {
        user: "bob".to_string(),
        asset: uasset(),
    }), Some(&0));
}

#[test]
fn unstake_of_zero_is_refused() {
    let mut state = fresh_state();
    whitelist_zero_fee(&mut state);
    let err = unstake(
        &mut state,
        10,
        "alice".to_string(),
        Asset { info: uasset(), amount: 0 },
    )
    .unwrap_err();
    assert_eq!(err, ContractError::AmountCannotBeZero);
}

#[test]
fn unstake_without_shares_is_refused() {
    let mut state = fresh_state();
    whitelist_zero_fee(&mut state);
    stake(&mut state, 10, uasset(), 1_000, "alice".to_string()).unwrap();
    let err = unstake(
        &mut state,
        10,
        "mallory".to_string(),
        Asset { info: uasset(), amount: 1_000 },
    )
    .unwrap_err();
    assert_eq!(err, ContractError::InsufficientBalance);
}

#[test]
fn stake_of_unlisted_asset_is_refused() {
    let mut state = fresh_state();
    let err = stake(&mut state, 10, uasset(), 1_000, "alice".to_string()).unwrap_err();
    assert_eq!(err, ContractError::AssetNotWhitelisted);
}

#[test]
fn take_rate_accrues_over_half_a_year() {
    let mut state = fresh_state();
    // whitelist with a 10% yearly take rate
    whitelist_assets(
        &mut state,
        &"gov".to_string(),
        vec![(
            "terra".to_string(),
            vec![AssetInfoWithConfig {
                info: uasset(),
                yearly_take_rate: Some(Dec { atomics: 100_000_000_000_000_000 }),
            }],
        )],
    )
    .unwrap();
    // the first accruing operation only starts the clock
    stake(&mut state, 1_000, uasset(), 1_000_000, "alice".to_string()).unwrap();
    let cfg = state.asset_configs.get(&uasset()).copied().unwrap();
    assert_eq!(cfg.taken, 0);
    assert_eq!(cfg.last_taken_s, 1_000);
    // half a year later: 10% / year on 1,000,000 for half a year = 50,000
    let half_year = 1_000 + 31_536_000 / 2;
    let resp = distribute_take_rate(&mut state, half_year, Some(true), None).unwrap();
    assert_eq!(
        resp.messages,
        vec![HubMsg::Transfer {
            recipient: "collector".to_string(),
            asset: Asset { info: uasset(), amount: 50_000 },
        }]
    );
    let cfg = state.asset_configs.get(&uasset()).copied().unwrap();
    assert_eq!(cfg.taken, 50_000);
    assert_eq!(cfg.harvested, 50_000);
}

#[test]
fn distribution_with_nothing_to_harvest_is_a_no_op() {
    let mut state = fresh_state();
    whitelist_zero_fee(&mut state);
    stake(&mut state, 10, uasset(), 1_000_000, "alice".to_string()).unwrap();
    let resp = distribute_take_rate(&mut state, 20, Some(true), None).unwrap();
    // taken == harvested == 0: skipped, no transfer dispatched
    assert_eq!(resp.messages, vec![]);
    assert!(resp.attributes.contains(&Attr::Skipped(uasset())));
}

/// The sum of every user's share balance for one asset, read straight from
/// the share table.
fn share_sum(state: &HubState, asset: &AssetInfo) -> u128 {
    state
        .shares
        .entries
        .iter()
        .filter(|(k, _)| k.asset == *asset)
        .map(|(_, v)| *v)
        .sum()
}

#[test]
fn outstanding_shares_equal_the_sum_of_user_shares() {
    let mut state = fresh_state();
    whitelist_zero_fee(&mut state);
    stake(&mut state, 10, uasset(), 1_000_000, "alice".to_string()).unwrap();
    stake(&mut state, 11, uasset(), 77_777, "bob".to_string()).unwrap();
    stake(&mut state, 12, uasset(), 5, "carol".to_string()).unwrap();
    unstake(&mut state, 13, "bob".to_string(), Asset { info: uasset(), amount: 40_000 }).unwrap();
    let totals = state.totals.get(&uasset()).copied().unwrap();
    assert_eq!(totals.1, share_sum(&state, &uasset()));
    // deposits also cover the cumulative taken fees
    let taken = state.asset_configs.get(&uasset()).map(|c| c.taken).unwrap_or(0);
    assert!(totals.0 >= taken);
}

#[test]
fn payouts_plus_fees_never_exceed_deposits() {
    let mut state = fresh_state();
    // 20% yearly take rate
    whitelist_assets(
        &mut state,
        &"gov".to_string(),
        vec![(
            "terra".to_string(),
            vec![AssetInfoWithConfig {
                info: uasset(),
                yearly_take_rate: Some(Dec { atomics: 200_000_000_000_000_000 }),
            }],
        )],
    )
    .unwrap();
    let mut deposits: u128 = 0;
    let mut payouts: u128 = 0;
    let mut t = 1_000u64;
    stake(&mut state, t, uasset(), 1_000_000, "alice".to_string()).unwrap();
    deposits += 1_000_000;
    for step in 0..4u64 {
        t += 31_536_000 / 10;
        stake(&mut state, t, uasset(), 300_000, "bob".to_string()).unwrap();
        deposits += 300_000;
        t += 31_536_000 / 10;
        let resp = unstake(
            &mut state,
            t,
            "bob".to_string(),
            Asset { info: uasset(), amount: 100_000 + step as u128 },
        )
        .unwrap();
        match &resp.messages[0] {
            HubMsg::Transfer { asset, .. } => payouts += asset.amount,
            _ => panic!("expected a transfer"),
        }
    }
    let fees = state.asset_configs.get(&uasset()).unwrap().taken;
    assert!(payouts + fees <= deposits);
}

#[test]
fn removed_assets_stay_withdrawable_but_refuse_new_stakes() {
    let mut state = fresh_state();
    whitelist_zero_fee(&mut state);
    stake(&mut state, 10, uasset(), 9_000, "alice".to_string()).unwrap();
    alliance_hub::contract::remove_assets(&mut state, &"gov".to_string(), vec![uasset()]).unwrap();
    let err = stake(&mut state, 11, uasset(), 1, "bob".to_string()).unwrap_err();
    assert_eq!(err, ContractError::AssetNotWhitelisted);
    let resp = unstake(
        &mut state,
        11,
        "alice".to_string(),
        Asset { info: uasset(), amount: 9_000 },
    )
    .unwrap();
    assert_eq!(
        resp.messages,
        vec![HubMsg::Transfer {
            recipient: "alice".to_string(),
            asset: Asset { info: uasset(), amount: 9_000 },
        }]
    );
}

#[test]
fn update_asset_config_overrides_the_rate_for_whitelisted_assets_only() {
    let mut state = fresh_state();
    whitelist_zero_fee(&mut state);
    alliance_hub::contract::update_asset_config(
        &mut state,
        &"gov".to_string(),
        AssetInfoWithConfig {
            info: uasset(),
            yearly_take_rate: Some(Dec { atomics: 250_000_000_000_000_000 }),
        },
    )
    .unwrap();
    assert_eq!(
        state.asset_configs.get(&uasset()).unwrap().yearly_take_rate,
        Dec { atomics: 250_000_000_000_000_000 }
    );
    let other = AssetInfo::Native("unlisted".to_string());
    let err = alliance_hub::contract::update_asset_config(
        &mut state,
        &"gov".to_string(),
        AssetInfoWithConfig { info: other, yearly_take_rate: None },
    )
    .unwrap_err();
    assert_eq!(err, ContractError::AssetNotWhitelisted);
}

#[test]
fn whitelisting_without_an_override_uses_the_global_default_rate() {
    let (mut state, _) = instantiate(InstantiateMsg {
        governance: "gov".to_string(),
        controller: "ctrl".to_string(),
        oracle: "oracle".to_string(),
        operator: "op".to_string(),
        take_rate_taker: "collector".to_string(),
        alliance_token_denom: "ualliance".to_string(),
        reward_denom: "uluna".to_string(),
        default_yearly_take_rate: Dec { atomics: 50_000_000_000_000_000 },
    });
    whitelist_assets(
        &mut state,
        &"gov".to_string(),
        vec![(
            "terra".to_string(),
            vec![AssetInfoWithConfig { info: uasset(), yearly_take_rate: None }],
        )],
    )
    .unwrap();
    assert_eq!(
        state.asset_configs.get(&uasset()).unwrap().yearly_take_rate,
        Dec { atomics: 50_000_000_000_000_000 }
    );
}

#[test]
fn update_config_is_governance_only_and_replaces_roles() {
    let mut state = fresh_state();
    let err = alliance_hub::contract::update_config(
        &mut state,
        &"mallory".to_string(),
        None,
        None,
        None,
        None,
        None,
        None,
    )
    .unwrap_err();
    assert_eq!(err, ContractError::Unauthorized);
    alliance_hub::contract::update_config(
        &mut state,
        &"gov".to_string(),
        None,
        Some("ctrl2".to_string()),
        None,
        None,
        None,
        Some(Dec { atomics: 42 }),
    )
    .unwrap();
    assert_eq!(state.config.controller, "ctrl2".to_string());
    assert_eq!(state.config.default_yearly_take_rate, Dec { atomics: 42 });
    assert_eq!(state.config.governance, "gov".to_string());
}

#[test]
fn proportional_minting_floors() {
    let mut state = fresh_state();
    // 50% yearly rate; after a full year half the pool is taken
    whitelist_assets(
        &mut state,
        &"gov".to_string(),
        vec![(
            "terra".to_string(),
            vec![AssetInfoWithConfig {
                info: uasset(),
                yearly_take_rate: Some(Dec { atomics: 500_000_000_000_000_000 }),
            }],
        )],
    )
    .unwrap();
    stake(&mut state, 1_000, uasset(), 1_000, "alice".to_string()).unwrap();
    // available is now 500 against 1,000 shares: 333 deposited units are
    // worth 333 * 1000 / 500 = 666 shares
    let resp = stake(&mut state, 1_000 + 31_536_000, uasset(), 333, "bob".to_string()).unwrap();
    assert_eq!(share_attr(&resp), 666);
    // a 49-unit withdrawal burns 49 * 1666 / 833 = 98 shares: conversions
    // floor in the vault's favour
    let resp = unstake(
        &mut state,
        1_000 + 31_536_000,
        "bob".to_string(),
        Asset { info: uasset(), amount: 49 },
    )
    .unwrap();
    match &resp.messages[0] {
        HubMsg::Transfer { asset, .. } => assert_eq!(asset.amount, 49),
        _ => panic!("expected a transfer"),
    }
}

#[test]
fn deposits_overflowing_the_pool_abort() {
    let mut state = fresh_state();
    whitelist_zero_fee(&mut state);
    stake(&mut state, 10, uasset(), u128::MAX, "alice".to_string()).unwrap();
    let err = stake(&mut state, 11, uasset(), 1, "bob".to_string()).unwrap_err();
    assert_eq!(err, ContractError::Overflow);
}

#[test]
fn share_balances_beyond_the_rate_range_abort_settlement() {
    let mut state = fresh_state();
    whitelist_zero_fee(&mut state);
    // more shares than the 18-digit fixed-point settlement can scale
    let huge = u128::MAX / 1_000_000_000_000_000_000 + 1;
    stake(&mut state, 10, uasset(), huge, "alice".to_string()).unwrap();
    let err = alliance_hub::rewards::claim_rewards(&mut state, "alice".to_string(), uasset())
        .unwrap_err();
    assert_eq!(err, ContractError::DecimalRangeExceeded);
}

#[test]
fn withdrawals_never_pay_out_of_the_fee_owed_balance() {
    let mut state = fresh_state();
    // 100% yearly rate: after a full year the whole pool is owed as fees
    whitelist_assets(
        &mut state,
        &"gov".to_string(),
        vec![(
            "terra".to_string(),
            vec![AssetInfoWithConfig {
                info: uasset(),
                yearly_take_rate: Some(Dec { atomics: 1_000_000_000_000_000_000 }),
            }],
        )],
    )
    .unwrap();
    stake(&mut state, 1_000, uasset(), 1_000, "alice".to_string()).unwrap();
    let err = unstake(
        &mut state,
        1_000 + 31_536_000,
        "alice".to_string(),
        Asset { info: uasset(), amount: 500 },
    )
    .unwrap_err();
    assert_eq!(err, ContractError::InsufficientBalance);
    // deposits still cover the cumulative taken fees
    let totals = state.totals.get(&uasset()).copied().unwrap();
    let taken = state.asset_configs.get(&uasset()).unwrap().taken;
    assert!(taken <= totals.0);
}

#[test]
fn check_wf_accepts_ledger_states_and_rejects_corrupt_ones() {
    let mut state = fresh_state();
    whitelist_zero_fee(&mut state);
    stake(&mut state, 10, uasset(), 1_000, "alice".to_string()).unwrap();
    stake(&mut state, 11, uasset(), 500, "bob".to_string()).unwrap();
    assert!(state.check_wf());
    // a share balance that no longer matches the outstanding total
    let good = state.shares.entries[0].1;
    state.shares.entries[0].1 = good + 1;
    assert!(!state.check_wf());
    state.shares.entries[0].1 = good;
    assert!(state.check_wf());
    // a duplicated key
    let dup = (
        alliance_hub::types::UserAsset { user: "alice".to_string(), asset: uasset() },
        0u128,
    );
    state.shares.entries.push(dup);
    assert!(!state.check_wf());
}

#[test]
fn check_wf_rejects_overdrawn_fee_state() {
    let mut state = fresh_state();
    whitelist_zero_fee(&mut state);
    stake(&mut state, 10, uasset(), 1_000, "alice".to_string()).unwrap();
    let mut cfg = *state.asset_configs.get(&uasset()).unwrap();
    // more taken than was ever deposited
    cfg.taken = 2_000;
    state.asset_configs.entries[0].1 = cfg;
    assert!(!state.check_wf());
}

#[test]
fn check_wf_rejects_a_checkpoint_ahead_of_the_accumulator() {
    let mut state = fresh_state();
    whitelist_zero_fee(&mut state);
    stake(&mut state, 10, uasset(), 1_000, "alice".to_string()).unwrap();
    let i = state
        .user_reward_rates
        .entries
        .iter()
        .position(|(k, _)| k.user == "alice")
        .unwrap();
    state.user_reward_rates.entries[i].1 = Dec { atomics: 1 };
    assert!(!state.check_wf());
}

#[test]
fn fee_reduces_later_withdrawals() {
    let mut state = fresh_state();
    // 50% yearly rate
    whitelist_assets(
        &mut state,
        &"gov".to_string(),
        vec![(
            "terra".to_string(),
            vec![AssetInfoWithConfig {
                info: uasset(),
                yearly_take_rate: Some(Dec { atomics: 500_000_000_000_000_000 }),
            }],
        )],
    )
    .unwrap();
    stake(&mut state, 1_000, uasset(), 1_000_000, "alice".to_string()).unwrap();
    // a full year later, half the pool has accrued to the protocol
    let resp = unstake(
        &mut state,
        1_000 + 31_536_000,
        "alice".to_string(),
        Asset { info: uasset(), amount: 1_000_000 },
    )
    .unwrap();
    assert_eq!(
        resp.messages,
        vec![HubMsg::Transfer {
            recipient: "alice".to_string(),
            asset: Asset { info: uasset(), amount: 500_000 },
        }]
    );
}
