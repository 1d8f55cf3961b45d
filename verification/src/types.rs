//! Core data types of the ledger: amounts, fixed-point rates, asset
//! identifiers, configuration, messages in and out, and the error type.

use vstd::prelude::*;

use crate::table::TableKey;

verus! {

/// Atomic units of one whole in the fixed-point rate representation
/// (18 fractional decimal digits, as the host chain's decimal type uses).
pub const DEC_FRACTIONAL: u128 = 1_000_000_000_000_000_000;

/// Seconds in a (365-day) year; the unit of the yearly take rate.
pub const SECONDS_PER_YEAR: u64 = 31_536_000;

/// A non-negative fixed-point rate with 18 fractional decimal digits,
/// stored as its count of atomic units. `atomics == DEC_FRACTIONAL`
/// means a rate of exactly 1 (100%).
#[derive(Clone, Copy, Debug, PartialEq, Eq, Structural)]
pub struct Dec {
    pub atomics: u128,
}

impl Dec {
    pub open spec fn spec_zero() -> Dec {
        Dec { atomics: 0 }
    }

    pub fn zero() -> (r: Dec)
        ensures
            r == Dec::spec_zero(),
    {
        Dec { atomics: 0 }
    }

    pub open spec fn spec_one() -> Dec {
        Dec { atomics: DEC_FRACTIONAL }
    }

    /// A rate of exactly 100%.
    pub fn one_hundred_percent() -> (r: Dec)
        ensures
            r == Dec::spec_one(),
    {
        Dec { atomics: DEC_FRACTIONAL }
    }

    pub fn is_zero(&self) -> (r: bool)
        ensures
            r <==> self.atomics == 0,
    {
        self.atomics == 0
    }
}

/// Identifies a stakeable asset: either a native coin by denomination or a
/// contract-managed token by contract address.
#[derive(Debug, PartialEq, Eq)]
pub enum AssetInfo {
    Native(String),
    Cw20(String),
}

impl Clone for AssetInfo {
    fn clone(&self) -> (r: Self)
        ensures
            r == *self,
    {
        match self {
            AssetInfo::Native(d) => AssetInfo::Native(d.clone()),
            AssetInfo::Cw20(a) => AssetInfo::Cw20(a.clone()),
        }
    }
}

impl TableKey for AssetInfo {
    fn key_eq(&self, other: &Self) -> (r: bool)
        ensures
            r <==> self@ == other@,
    {
        match (self, other) {
            (AssetInfo::Native(a), AssetInfo::Native(b)) => *a == *b,
            (AssetInfo::Cw20(a), AssetInfo::Cw20(b)) => *a == *b,
            _ => false,
        }
    }
}

/// A (user, asset) pair: the key of the per-user ledgers.
#[derive(Debug, PartialEq, Eq)]
pub struct UserAsset {
    pub user: String,
    pub asset: AssetInfo,
}

impl View for UserAsset {
    type V = (Seq<char>, AssetKey);

    open spec fn view(&self) -> (Seq<char>, AssetKey) {
        (self.user@, self.asset@)
    }
}

impl Clone for UserAsset {
    fn clone(&self) -> (r: Self)
        ensures
            r == *self,
    {
        UserAsset { user: self.user.clone(), asset: self.asset.clone() }
    }
}

impl TableKey for UserAsset {
    fn key_eq(&self, other: &Self) -> (r: bool)
        ensures
            r <==> self@ == other@,
    {
        self.user == other.user && self.asset.key_eq(&other.asset)
    }
}

/// The mathematical identity of an [`AssetInfo`] value.
pub enum AssetKey {
    Native(Seq<char>),
    Cw20(Seq<char>),
}

impl View for AssetInfo {
    type V = AssetKey;

    open spec fn view(&self) -> AssetKey {
        match self {
            AssetInfo::Native(d) => AssetKey::Native(d@),
            AssetInfo::Cw20(a) => AssetKey::Cw20(a@),
        }
    }
}

/// An asset identifier together with an amount of it.
#[derive(Debug, PartialEq, Eq)]
pub struct Asset {
    pub info: AssetInfo,
    pub amount: u128,
}

impl Clone for Asset {
    fn clone(&self) -> (r: Self)
        ensures
            r == *self,
    {
        Asset { info: self.info.clone(), amount: self.amount }
    }
}

/// A coin attached to an inbound call: a native denomination and an amount.
#[derive(Clone, Debug, PartialEq, Eq)]
pub struct Coin {
    pub denom: String,
    pub amount: u128,
}

/// The ledger's global parameters.
#[derive(Debug, PartialEq, Eq)]
pub struct Config {
    pub governance: String,
    pub controller: String,
    pub oracle: String,
    pub operator: String,
    pub take_rate_taker: String,
    pub alliance_token_denom: String,
    pub alliance_token_supply: u128,
    pub last_reward_update_timestamp: u64,
    pub reward_denom: String,
    pub default_yearly_take_rate: Dec,
}

impl Clone for Config {
    fn clone(&self) -> (r: Self)
        ensures
            r == *self,
    {
        Config {
            governance: self.governance.clone(),
            controller: self.controller.clone(),
            oracle: self.oracle.clone(),
            operator: self.operator.clone(),
            take_rate_taker: self.take_rate_taker.clone(),
            alliance_token_denom: self.alliance_token_denom.clone(),
            alliance_token_supply: self.alliance_token_supply,
            last_reward_update_timestamp: self.last_reward_update_timestamp,
            reward_denom: self.reward_denom.clone(),
            default_yearly_take_rate: self.default_yearly_take_rate,
        }
    }
}

/// Per-asset runtime fee state: the yearly take rate, the backend selector,
/// the last accrual time (0 until the clock first starts), and the cumulative
/// amounts taken and harvested.
#[derive(Clone, Copy, Debug, PartialEq, Eq, Structural)]
pub struct AssetConfigRuntime {
    pub last_taken_s: u64,
    pub taken: u128,
    pub harvested: u128,
    pub yearly_take_rate: Dec,
    pub stake_config: StakeConfig,
}

/// Selects the staking backend an asset's pool balance is parked in.
/// The ledger keeps every pool in its own custody.
#[derive(Clone, Copy, Debug, PartialEq, Eq, Structural)]
pub enum StakeConfig {
    SelfCustody,
}

impl AssetConfigRuntime {
    pub open spec fn spec_init() -> AssetConfigRuntime {
        AssetConfigRuntime {
            last_taken_s: 0,
            taken: 0,
            harvested: 0,
            yearly_take_rate: Dec::spec_zero(),
            stake_config: StakeConfig::SelfCustody,
        }
    }

    /// The state of an asset that has never had fee configuration: zero rate,
    /// clock never started, nothing taken or harvested.
    pub fn init() -> (r: AssetConfigRuntime)
        ensures
            r == AssetConfigRuntime::spec_init(),
    {
        AssetConfigRuntime {
            last_taken_s: 0,
            taken: 0,
            harvested: 0,
            yearly_take_rate: Dec { atomics: 0 },
            stake_config: StakeConfig::SelfCustody,
        }
    }
}

/// One entry of the reward distribution weights: an asset and its weight.
#[derive(Debug, PartialEq, Eq)]
pub struct AssetDistribution {
    pub asset: AssetInfo,
    pub distribution: Dec,
}

impl Clone for AssetDistribution {
    fn clone(&self) -> (r: Self)
        ensures
            r == *self,
    {
        AssetDistribution { asset: self.asset.clone(), distribution: self.distribution }
    }
}

/// An asset with an optional per-asset yearly take rate override.
#[derive(Clone, Debug, PartialEq, Eq)]
pub struct AssetInfoWithConfig {
    pub info: AssetInfo,
    pub yearly_take_rate: Option<Dec>,
}

#[derive(Clone, Debug, PartialEq, Eq)]
pub struct InstantiateMsg {
    pub governance: String,
    pub controller: String,
    pub oracle: String,
    pub operator: String,
    pub take_rate_taker: String,
    pub alliance_token_denom: String,
    pub reward_denom: String,
    pub default_yearly_take_rate: Dec,
}

#[derive(Clone, Debug, PartialEq, Eq)]
pub struct MigrateMsg {}

#[derive(Clone, Debug, PartialEq, Eq)]
pub struct AllianceDelegation {
    pub validator: String,
    pub amount: u128,
}

#[derive(Clone, Debug, PartialEq, Eq)]
pub struct AllianceDelegateMsg {
    pub delegations: Vec<AllianceDelegation>,
}

#[derive(Clone, Debug, PartialEq, Eq)]
pub struct AllianceUndelegateMsg {
    pub undelegations: Vec<AllianceDelegation>,
}

#[derive(Clone, Debug, PartialEq, Eq)]
pub struct AllianceRedelegation {
    pub src_validator: String,
    pub dst_validator: String,
    pub amount: u128,
}

#[derive(Clone, Debug, PartialEq, Eq)]
pub struct AllianceRedelegateMsg {
    pub redelegations: Vec<AllianceRedelegation>,
}

/// A token-receive notification forwarded by a token contract: the original
/// sender, the amount received, and the decoded hook instruction.
#[derive(Clone, Debug, PartialEq, Eq)]
pub struct Cw20ReceiveMsg {
    pub sender: String,
    pub amount: u128,
    pub msg: Cw20HookMsg,
}

#[derive(Clone, Debug, PartialEq, Eq)]
pub enum Cw20HookMsg {
    Stake,
    Unstake(Asset),
}

/// Every inbound mutating operation of the ledger.
#[derive(Clone, Debug, PartialEq, Eq)]
pub enum ExecuteMsg {
    Receive(Cw20ReceiveMsg),
    Stake,
    Unstake(Asset),
    ClaimRewards(AssetInfo),
    UpdateRewards,
    WhitelistAssets(Vec<(String, Vec<AssetInfoWithConfig>)>),
    RemoveAssets(Vec<AssetInfo>),
    UpdateRewardsCallback,
    AllianceDelegate(AllianceDelegateMsg),
    AllianceUndelegate(AllianceUndelegateMsg),
    AllianceRedelegate(AllianceRedelegateMsg),
    RebalanceEmissions,
    RebalanceEmissionsCallback,
    SetAssetRewardDistribution(Vec<AssetDistribution>),
    DistributeTakeRate { update: Option<bool>, assets: Option<Vec<AssetInfo>> },
    UpdateAssetConfig(AssetInfoWithConfig),
    UpdateConfig {
        governance: Option<String>,
        controller: Option<String>,
        oracle: Option<String>,
        operator: Option<String>,
        take_rate_taker: Option<String>,
        default_yearly_take_rate: Option<Dec>,
    },
}

/// Read-only queries.
#[derive(Clone, Debug, PartialEq, Eq)]
pub enum QueryMsg {
    Config,
    Validators,
    WhitelistedAssets,
    RewardDistribution,
    StakedBalance(AssetQuery),
    PendingRewards(AssetQuery),
    AllStakedBalances(AllStakedBalancesQuery),
    AllPendingRewards(AllPendingRewardsQuery),
    TotalStakedBalances,
}

#[derive(Clone, Debug, PartialEq, Eq)]
pub struct AssetQuery {
    pub address: String,
    pub asset: AssetInfo,
}

#[derive(Clone, Debug, PartialEq, Eq)]
pub struct AllStakedBalancesQuery {
    pub address: String,
}

#[derive(Clone, Debug, PartialEq, Eq)]
pub struct AllPendingRewardsQuery {
    pub address: String,
}

#[derive(Clone, Debug, PartialEq, Eq)]
pub struct StakedBalanceRes {
    pub asset: AssetInfo,
    pub balance: u128,
}

#[derive(Clone, Debug, PartialEq, Eq)]
pub struct PendingRewardsRes {
    pub staked_asset: AssetInfo,
    pub reward_asset: AssetInfo,
    pub rewards: u128,
}

/// One typed answer per query variant.
#[derive(Clone, Debug, PartialEq, Eq)]
pub enum QueryResponse {
    Config(Config),
    Validators(Vec<String>),
    WhitelistedAssets(Vec<(String, Vec<AssetInfo>)>),
    RewardDistribution(Vec<AssetDistribution>),
    StakedBalance(StakedBalanceRes),
    PendingRewards(PendingRewardsRes),
    AllStakedBalances(Vec<StakedBalanceRes>),
    AllPendingRewards(Vec<PendingRewardsRes>),
    TotalStakedBalances(Vec<StakedBalanceRes>),
}

/// An outbound dispatch to the host: a token transfer, a staking-subsystem
/// operation addressed by validator, the self-addressed harvest completion
/// callback, or a token-issuance instruction used once at genesis.
#[derive(Clone, Debug, PartialEq, Eq)]
pub enum HubMsg {
    Transfer { recipient: String, asset: Asset },
    Delegate { validator: String, denom: String, amount: u128 },
    Undelegate { validator: String, denom: String, amount: u128 },
    Redelegate { src_validator: String, dst_validator: String, denom: String, amount: u128 },
    ClaimDelegationRewards { validator: String, denom: String },
    UpdateRewardsCallback,
    CreateDenom { subdenom: String },
    MintTokens { denom: String, amount: u128, mint_to_address: String },
    SetMetadata { denom: String },
}

/// A reported detail of an operation, carried with its value still typed;
/// the host boundary renders each as a string attribute.
#[derive(Clone, Debug, PartialEq, Eq)]
pub enum Attr {
    Action(&'static str),
    User(String),
    AssetRef(AssetInfo),
    Amount(u128),
    Share(u128),
    RewardAmount(u128),
    ChainId(String),
    Skipped(AssetInfo),
    Taken(AssetInfo, u128),
    TokenDenom(String),
    TokenSupply(u128),
}

/// The result of a successful operation: dispatches to perform and details
/// to report. Claim-reward dispatches made during a harvest tolerate failure
/// of the single dispatch; everything else aborts the operation on failure.
#[derive(Clone, Debug, PartialEq, Eq)]
pub struct Response {
    pub messages: Vec<HubMsg>,
    pub tolerant_messages: Vec<HubMsg>,
    pub attributes: Vec<Attr>,
}

impl Response {
    pub fn new() -> (r: Response)
        ensures
            r.messages@ =~= Seq::<HubMsg>::empty(),
            r.tolerant_messages@ =~= Seq::<HubMsg>::empty(),
            r.attributes@ =~= Seq::<Attr>::empty(),
    {
        Response { messages: Vec::new(), tolerant_messages: Vec::new(), attributes: Vec::new() }
    }
}

/// Why an operation was refused. Every error aborts the whole operation:
/// no state change and no dispatch survives.
#[derive(Clone, Debug, PartialEq, Eq)]
pub enum ContractError {
    /// A generic host or storage failure, with a description.
    Std(String),
    /// A value does not fit the fixed-point rate representation.
    DecimalRangeExceeded,
    Unauthorized,
    OnlySingleAssetAllowed,
    AssetNotWhitelisted,
    InsufficientBalance,
    AmountCannotBeZero,
    InvalidReplyId(u64),
    EmptyDelegation,
    InvalidDistribution,
    /// An amount computation left the 128-bit range; the host aborts the
    /// transaction on such arithmetic.
    Overflow,
    /// A version string could not be parsed.
    SemVer(String),
}

} // verus!
