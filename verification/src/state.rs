//! The ledger's complete state and its well-formedness invariant.
//!
//! The invariant carries, per asset: the outstanding shares equal the sum of
//! all user share balances; the outstanding shares cover the fee-adjusted
//! available balance; cumulative harvested fees never exceed cumulative taken
//! fees; cumulative taken fees never exceed the recorded deposits; every
//! user reward checkpoint is at most the asset's accumulator; and the
//! reward distribution weights, once set, sum to exactly 100%.

use vstd::prelude::*;

use crate::table::Table;
use crate::table::dup_free;
use crate::table::entries_map;
use crate::table::TableKey;
use crate::table::lemma_entries_map_val;
use crate::types::AssetConfigRuntime;
use crate::types::AssetDistribution;
use crate::types::AssetInfo;
use crate::types::AssetKey;
use crate::types::Config;
use crate::types::DEC_FRACTIONAL;
use crate::types::Dec;
use crate::types::UserAsset;

verus! {

/// What one share entry contributes to one asset's share total.
pub open spec fn share_contrib(e: (UserAsset, u128), a: AssetKey) -> int {
    if e.0@.1 == a {
        e.1 as int
    } else {
        0
    }
}

/// The sum of all user share balances held in asset `a`.
pub open spec fn sum_shares_for(s: Seq<(UserAsset, u128)>, a: AssetKey) -> int
    decreases s.len(),
{
    if s.len() == 0 {
        0
    } else {
        sum_shares_for(s.drop_last(), a) + share_contrib(s.last(), a)
    }
}

pub proof fn lemma_sum_shares_nonneg(s: Seq<(UserAsset, u128)>, a: AssetKey)
    ensures
        sum_shares_for(s, a) >= 0,
    decreases s.len(),
{
    if s.len() > 0 {
        lemma_sum_shares_nonneg(s.drop_last(), a);
    }
}

pub proof fn lemma_sum_shares_update(s: Seq<(UserAsset, u128)>, i: int, e: (UserAsset, u128), a: AssetKey)
    requires
        0 <= i < s.len(),
    ensures
        sum_shares_for(s.update(i, e), a) == sum_shares_for(s, a) - share_contrib(s[i], a)
            + share_contrib(e, a),
    decreases s.len(),
{
    let su = s.update(i, e);
    if i == s.len() - 1 {
        assert(su.drop_last() =~= s.drop_last());
        assert(su.last() == e);
    } else {
        assert(su.drop_last() =~= s.drop_last().update(i, e));
        assert(su.last() == s.last());
        lemma_sum_shares_update(s.drop_last(), i, e, a);
    }
}

/// One entry never exceeds its asset's share sum.
pub proof fn lemma_sum_shares_entry(s: Seq<(UserAsset, u128)>, i: int, a: AssetKey)
    requires
        0 <= i < s.len(),
        s[i].0@.1 == a,
    ensures
        sum_shares_for(s, a) >= s[i].1,
    decreases s.len(),
{
    if i == s.len() - 1 {
        lemma_sum_shares_nonneg(s.drop_last(), a);
    } else {
        lemma_sum_shares_entry(s.drop_last(), i, a);
        assert(share_contrib(s.last(), a) >= 0);
    }
}

/// Extending a prefix by one entry grows its sum by that entry's
/// contribution.
pub proof fn lemma_sum_shares_prefix_step(s: Seq<(UserAsset, u128)>, k: int, a: AssetKey)
    requires
        0 <= k < s.len(),
    ensures
        sum_shares_for(s.subrange(0, k + 1), a) == sum_shares_for(s.subrange(0, k), a)
            + share_contrib(s[k], a),
{
    assert(s.subrange(0, k + 1).drop_last() =~= s.subrange(0, k));
    assert(s.subrange(0, k + 1).last() == s[k]);
}

/// Every prefix of the share table sums to no more than the whole table.
pub proof fn lemma_sum_shares_prefix_le(s: Seq<(UserAsset, u128)>, k: int, a: AssetKey)
    requires
        0 <= k <= s.len(),
    ensures
        sum_shares_for(s.subrange(0, k), a) <= sum_shares_for(s, a),
    decreases s.len() - k,
{
    if k == s.len() {
        assert(s.subrange(0, k) =~= s);
    } else {
        lemma_sum_shares_prefix_le(s, k + 1, a);
        lemma_sum_shares_prefix_step(s, k, a);
        assert(share_contrib(s[k], a) >= 0);
    }
}

/// An asset no entry holds sums to zero.
pub proof fn lemma_sum_shares_absent(s: Seq<(UserAsset, u128)>, a: AssetKey)
    requires
        forall|i: int| 0 <= i < s.len() ==> (#[trigger] s[i]).0@.1 != a,
    ensures
        sum_shares_for(s, a) == 0,
    decreases s.len(),
{
    if s.len() > 0 {
        assert(forall|i: int|
            0 <= i < s.drop_last().len() ==> (#[trigger] s.drop_last()[i]).0@.1 != a) by {
            assert(forall|i: int|
                0 <= i < s.drop_last().len() ==> #[trigger] s.drop_last()[i] == s[i]);
        }
        lemma_sum_shares_absent(s.drop_last(), a);
        assert(share_contrib(s.last(), a) == 0);
    }
}

/// How an upsert into the share table moves each asset's share sum: only the
/// touched asset's sum changes, by the difference between the new value and
/// the entry it replaced (zero for a fresh entry).
pub proof fn lemma_sum_shares_insert(
    t0: Seq<(UserAsset, u128)>,
    t1: Seq<(UserAsset, u128)>,
    key: UserAsset,
    value: u128,
)
    requires
        dup_free(t0),
        entries_map(t0).contains_key(key@) ==> exists|i: int|
            0 <= i < t0.len() && #[trigger] t0[i].0@ == key@ && t1 == t0.update(i, (key, value)),
        !entries_map(t0).contains_key(key@) ==> t1 == t0.push((key, value)),
    ensures
        forall|a: AssetKey|
            a != key@.1 ==> #[trigger] sum_shares_for(t1, a) == sum_shares_for(t0, a),
        sum_shares_for(t1, key@.1) == sum_shares_for(t0, key@.1) + value - (
        if entries_map(t0).contains_key(key@) {
            entries_map(t0)[key@] as int
        } else {
            0
        }),
{
    if entries_map(t0).contains_key(key@) {
        let i = choose|i: int|
            0 <= i < t0.len() && #[trigger] t0[i].0@ == key@ && t1 == t0.update(i, (key, value));
        lemma_entries_map_val(t0, i);
        assert forall|a: AssetKey| #[trigger] sum_shares_for(t1, a) == sum_shares_for(t0, a)
            - share_contrib(t0[i], a) + share_contrib((key, value), a) by {
            lemma_sum_shares_update(t0, i, (key, value), a);
        }
        assert(t0[i].0@.1 == key@.1);
    } else {
        assert(t1.drop_last() =~= t0);
        assert(t1.last() == (key, value));
        assert forall|a: AssetKey| #[trigger] sum_shares_for(t1, a) == sum_shares_for(t0, a)
            + share_contrib((key, value), a) by {
        }
    }
}

/// The sum of the distribution weights, in atomic rate units.
pub open spec fn dist_sum(s: Seq<AssetDistribution>) -> int
    decreases s.len(),
{
    if s.len() == 0 {
        0
    } else {
        dist_sum(s.drop_last()) + s.last().distribution.atomics as int
    }
}

/// Every prefix of a weight list sums to no more than the whole list.
pub proof fn lemma_dist_sum_prefix(s: Seq<AssetDistribution>, n: int)
    requires
        0 <= n <= s.len(),
    ensures
        dist_sum(s.subrange(0, n)) <= dist_sum(s),
        dist_sum(s.subrange(0, n)) >= 0,
    decreases s.len() - n,
{
    if n == s.len() {
        assert(s.subrange(0, n) =~= s);
        lemma_dist_sum_nonneg(s);
    } else {
        lemma_dist_sum_prefix(s, n + 1);
        assert(s.subrange(0, n + 1).drop_last() =~= s.subrange(0, n));
        assert(s.subrange(0, n + 1).last() == s[n]);
        lemma_dist_sum_nonneg(s.subrange(0, n));
    }
}

pub proof fn lemma_dist_sum_nonneg(s: Seq<AssetDistribution>)
    ensures
        dist_sum(s) >= 0,
    decreases s.len(),
{
    if s.len() > 0 {
        lemma_dist_sum_nonneg(s.drop_last());
    }
}

/// Extending a prefix by one element grows its sum by that element's weight.
pub proof fn lemma_dist_sum_step(s: Seq<AssetDistribution>, n: int)
    requires
        0 <= n < s.len(),
    ensures
        dist_sum(s.subrange(0, n + 1)) == dist_sum(s.subrange(0, n))
            + s[n].distribution.atomics as int,
{
    assert(s.subrange(0, n + 1).drop_last() =~= s.subrange(0, n));
    assert(s.subrange(0, n + 1).last() == s[n]);
}

/// One weight never exceeds the sum of all weights.
pub proof fn lemma_dist_entry_le(s: Seq<AssetDistribution>, i: int)
    requires
        0 <= i < s.len(),
    ensures
        s[i].distribution.atomics as int <= dist_sum(s),
    decreases s.len(),
{
    if i == s.len() - 1 {
        lemma_dist_sum_nonneg(s.drop_last());
    } else {
        lemma_dist_entry_le(s.drop_last(), i);
    }
}

/// No two validators repeat.
pub open spec fn validators_unique(s: Seq<String>) -> bool {
    forall|i: int, j: int| 0 <= i < j < s.len() ==> s[i]@ != s[j]@
}

/// Decides [`validators_unique`] at run time.
pub fn check_validators_unique(validators: &Vec<String>) -> (r: bool)
    ensures
        r == validators_unique(validators@),
{
    let n = validators.len();
    let mut i: usize = 0;
    while i < n
        invariant
            i <= n,
            n == validators@.len(),
            forall|x: int, y: int|
                0 <= x < y < n && x < i ==> (#[trigger] validators@[x])@ != (
                #[trigger] validators@[y])@,
        decreases n - i,
    {
        let mut j: usize = i + 1;
        while j < n
            invariant
                i < j <= n,
                n == validators@.len(),
                forall|y: int|
                    i < y < j ==> (#[trigger] validators@[y])@ != validators@[i as int]@,
            decreases n - j,
        {
            if validators[i] == validators[j] {
                return false;
            }
            j = j + 1;
        }
        i = i + 1;
    }
    true
}

/// The sum of all user share balances held in one asset, summed at run
/// time; more than fits 128 bits reports `None`.
fn compute_share_sum(shares: &Table<UserAsset, u128>, asset: &AssetInfo) -> (r: Option<u128>)
    ensures
        match r {
            Some(v) => v as int == sum_shares_for(shares.entries@, asset@),
            None => sum_shares_for(shares.entries@, asset@) > u128::MAX,
        },
{
    let n = shares.len();
    let mut acc: u128 = 0;
    let mut i: usize = 0;
    proof {
        assert(shares.entries@.subrange(0, 0) =~= Seq::<(UserAsset, u128)>::empty());
    }
    while i < n
        invariant
            i <= n,
            n == shares.entries@.len(),
            acc as int == sum_shares_for(shares.entries@.subrange(0, i as int), asset@),
        decreases n - i,
    {
        let entry = shares.entry_at(i);
        proof {
            lemma_sum_shares_prefix_step(shares.entries@, i as int, asset@);
        }
        if entry.0.asset.key_eq(asset) {
            acc = match acc.checked_add(entry.1) {
                Some(v) => v,
                None => {
                    proof {
                        lemma_sum_shares_prefix_le(shares.entries@, i as int + 1, asset@);
                    }
                    return None;
                },
            };
        }
        i = i + 1;
    }
    proof {
        assert(shares.entries@.subrange(0, n as int) =~= shares.entries@);
    }
    Some(acc)
}

/// The whole ledger state: global configuration, the asset whitelist, the
/// vault ledger (per-asset totals, per-user shares), fee accrual state, the
/// reward accumulator with its per-user checkpoints and carries, the
/// validator set, the reward distribution weights, and the ephemeral
/// harvest snapshot.
#[derive(Debug)]
pub struct HubState {
    pub config: Config,
    pub whitelist: Table<AssetInfo, String>,
    pub shares: Table<UserAsset, u128>,
    pub totals: Table<AssetInfo, (u128, u128)>,
    pub asset_configs: Table<AssetInfo, AssetConfigRuntime>,
    pub asset_reward_rates: Table<AssetInfo, Dec>,
    pub user_reward_rates: Table<UserAsset, Dec>,
    pub unclaimed: Table<UserAsset, u128>,
    pub validators: Vec<String>,
    pub reward_distribution: Option<Vec<AssetDistribution>>,
    pub temp_balance: Option<u128>,
}

impl HubState {
    /// The pool balance recorded for an asset (its total deposited amount).
    pub open spec fn total_balance_of(&self, a: AssetKey) -> int {
        if self.totals@.contains_key(a) {
            self.totals@[a].0 as int
        } else {
            0
        }
    }

    /// The shares outstanding for an asset.
    pub open spec fn total_shares_of(&self, a: AssetKey) -> int {
        if self.totals@.contains_key(a) {
            self.totals@[a].1 as int
        } else {
            0
        }
    }

    /// The cumulative fee taken from an asset's pool.
    pub open spec fn taken_of(&self, a: AssetKey) -> int {
        if self.asset_configs@.contains_key(a) {
            self.asset_configs@[a].taken as int
        } else {
            0
        }
    }

    /// Outstanding shares are exactly the sum of all user share balances.
    pub open spec fn shares_match_totals(&self) -> bool {
        forall|a: AssetKey| #[trigger] sum_shares_for(self.shares.entries@, a)
            == self.total_shares_of(a)
    }

    /// Outstanding shares cover the fee-adjusted available balance: minting
    /// and burning both floor in the vault's favour, so a pool never holds
    /// more available balance than it has shares against it.
    pub open spec fn shares_cover_available(&self) -> bool {
        forall|a: AssetKey| #[trigger] self.total_shares_of(a) >= self.total_balance_of(a)
            - self.taken_of(a)
    }

    /// Fees are harvested only after they are taken.
    pub open spec fn fee_state_wf(&self) -> bool {
        forall|a: AssetKey| #[trigger] self.asset_configs@.contains_key(a)
            ==> self.asset_configs@[a].harvested <= self.asset_configs@[a].taken
    }

    /// The recorded deposits always cover the cumulative taken fees: a
    /// fee accrual that would overdraw the pool aborts, and a withdrawal
    /// never pays out of the fee-owed part of the pool.
    pub open spec fn deposits_cover_taken(&self) -> bool {
        forall|a: AssetKey| #[trigger] self.taken_of(a) <= self.total_balance_of(a)
    }

    /// A user's reward checkpoint never runs ahead of the asset's
    /// accumulator, and always refers to an asset with an accumulator.
    pub open spec fn checkpoints_wf(&self) -> bool {
        forall|k: (Seq<char>, AssetKey)| #[trigger] self.user_reward_rates@.contains_key(k)
            ==> self.asset_reward_rates@.contains_key(k.1)
                && self.user_reward_rates@[k].atomics <= self.asset_reward_rates@[k.1].atomics
    }

    /// Once set, the distribution weights sum to exactly 100%.
    pub open spec fn distribution_wf(&self) -> bool {
        match self.reward_distribution {
            Some(d) => dist_sum(d@) == DEC_FRACTIONAL as int,
            None => true,
        }
    }

    pub open spec fn wf(&self) -> bool {
        &&& self.whitelist.wf()
        &&& self.shares.wf()
        &&& self.totals.wf()
        &&& self.asset_configs.wf()
        &&& self.asset_reward_rates.wf()
        &&& self.user_reward_rates.wf()
        &&& self.unclaimed.wf()
        &&& validators_unique(self.validators@)
        &&& self.shares_match_totals()
        &&& self.shares_cover_available()
        &&& self.fee_state_wf()
        &&& self.deposits_cover_taken()
        &&& self.checkpoints_wf()
        &&& self.distribution_wf()
    }

    /// No fee accrual clock runs ahead of the current block time. Operations
    /// that accrue fees require this; the host's block times are monotone,
    /// and every clock is only ever set to a current block time.
    pub open spec fn clocks_ok(&self, now_s: u64) -> bool {
        forall|a: AssetKey| #[trigger] self.asset_configs@.contains_key(a)
            ==> self.asset_configs@[a].last_taken_s <= now_s
    }

    /// Decides [`Self::clocks_ok`] at run time, so an unverified caller can
    /// test the requirement before an accruing operation.
    pub fn check_clocks(&self, now_s: u64) -> (r: bool)
        requires
            self.asset_configs.wf(),
        ensures
            r == self.clocks_ok(now_s),
    {
        let n = self.asset_configs.len();
        let mut idx: usize = 0;
        while idx < n
            invariant
                n == self.asset_configs.entries@.len(),
                idx <= n,
                self.asset_configs.wf(),
                forall|i: int|
                    0 <= i < idx ==> #[trigger] self.asset_configs.entries@[i].1.last_taken_s
                        <= now_s,
            decreases n - idx,
        {
            if self.asset_configs.entry_at(idx).1.last_taken_s > now_s {
                proof {
                    lemma_entries_map_val(self.asset_configs.entries@, idx as int);
                }
                return false;
            }
            idx = idx + 1;
        }
        proof {
            assert forall|a: AssetKey| #[trigger] self.asset_configs@.contains_key(a)
                implies self.asset_configs@[a].last_taken_s <= now_s by {
                crate::table::lemma_entries_map_contains(self.asset_configs.entries@, a);
                let i = choose|i: int|
                    0 <= i < self.asset_configs.entries@.len()
                        && self.asset_configs.entries@[i].0@ == a;
                lemma_entries_map_val(self.asset_configs.entries@, i);
            }
        }
        true
    }

    /// Decides [`Self::wf`] at run time, so an unverified caller can test
    /// the invariant it asserts — on a state it deserialized from storage,
    /// for instance — before any operation.
    pub fn check_wf(&self) -> (r: bool)
        ensures
            r == self.wf(),
    {
        if !self.whitelist.check_wf() {
            return false;
        }
        if !self.shares.check_wf() {
            return false;
        }
        if !self.totals.check_wf() {
            return false;
        }
        if !self.asset_configs.check_wf() {
            return false;
        }
        if !self.asset_reward_rates.check_wf() {
            return false;
        }
        if !self.user_reward_rates.check_wf() {
            return false;
        }
        if !self.unclaimed.check_wf() {
            return false;
        }
        if !check_validators_unique(&self.validators) {
            return false;
        }

        // the distribution weights, once set, sum to exactly one whole
        match &self.reward_distribution {
            Some(d) => {
                let ghost ds = d@;
                let dn = d.len();
                let mut di: usize = 0;
                let mut total: u128 = 0;
                proof {
                    assert(ds.subrange(0, 0) =~= Seq::<AssetDistribution>::empty());
                }
                while di < dn
                    invariant
                        di <= dn,
                        dn == ds.len(),
                        d@ == ds,
                        self.reward_distribution is Some && self.reward_distribution->0@ == ds,
                        total == dist_sum(ds.subrange(0, di as int)),
                    decreases dn - di,
                {
                    proof {
                        lemma_dist_sum_step(ds, di as int);
                    }
                    total = match total.checked_add(d[di].distribution.atomics) {
                        Some(v) => v,
                        None => {
                            proof {
                                lemma_dist_sum_prefix(ds, di as int + 1);
                                assert(dist_sum(ds) > u128::MAX);
                                assert(!self.distribution_wf());
                            }
                            return false;
                        },
                    };
                    di = di + 1;
                }
                proof {
                    assert(ds.subrange(0, dn as int) =~= ds);
                }
                if !(total == DEC_FRACTIONAL) {
                    return false;
                }
            },
            None => {},
        }

        // per asset: harvested fees within taken, taken within deposits
        let cn = self.asset_configs.len();
        let mut ci: usize = 0;
        while ci < cn
            invariant
                ci <= cn,
                cn == self.asset_configs.entries@.len(),
                self.asset_configs.wf(),
                self.totals.wf(),
                forall|j: int|
                    0 <= j < ci ==> ((#[trigger] self.asset_configs.entries@[j]).1.harvested
                        <= self.asset_configs.entries@[j].1.taken
                        && self.asset_configs.entries@[j].1.taken <= self.total_balance_of(
                        self.asset_configs.entries@[j].0@,
                    )),
            decreases cn - ci,
        {
            let kv = self.asset_configs.entry_at(ci);
            proof {
                lemma_entries_map_val(self.asset_configs.entries@, ci as int);
            }
            if kv.1.harvested > kv.1.taken {
                proof {
                    assert(!self.fee_state_wf());
                }
                return false;
            }
            let bal = match self.totals.get(&kv.0) {
                Some(t) => t.0,
                None => 0,
            };
            if kv.1.taken > bal {
                proof {
                    assert(self.taken_of(kv.0@) > self.total_balance_of(kv.0@));
                    assert(!self.deposits_cover_taken());
                }
                return false;
            }
            ci = ci + 1;
        }

        // per checkpoint: the asset has an accumulator the checkpoint is
        // within
        let un = self.user_reward_rates.len();
        let mut ui: usize = 0;
        while ui < un
            invariant
                ui <= un,
                un == self.user_reward_rates.entries@.len(),
                self.user_reward_rates.wf(),
                self.asset_reward_rates.wf(),
                forall|j: int|
                    0 <= j < ui ==> (self.asset_reward_rates@.contains_key(
                        (#[trigger] self.user_reward_rates.entries@[j]).0@.1,
                    ) && self.user_reward_rates.entries@[j].1.atomics
                        <= self.asset_reward_rates@[self.user_reward_rates.entries@[j].0@.1].atomics),
            decreases un - ui,
        {
            let kv = self.user_reward_rates.entry_at(ui);
            proof {
                lemma_entries_map_val(self.user_reward_rates.entries@, ui as int);
            }
            match self.asset_reward_rates.get(&kv.0.asset) {
                Some(rr) => {
                    if kv.1.atomics > rr.atomics {
                        proof {
                            assert(self.user_reward_rates@.contains_key(kv.0@));
                            assert(!self.checkpoints_wf());
                        }
                        return false;
                    }
                },
                None => {
                    proof {
                        assert(self.user_reward_rates@.contains_key(kv.0@));
                        assert(!self.checkpoints_wf());
                    }
                    return false;
                },
            }
            ui = ui + 1;
        }

        // per pool: outstanding shares cover the available balance and
        // equal the sum of the user share balances
        let tn = self.totals.len();
        let mut ti: usize = 0;
        while ti < tn
            invariant
                ti <= tn,
                tn == self.totals.entries@.len(),
                self.totals.wf(),
                self.asset_configs.wf(),
                self.shares.wf(),
                forall|j: int|
                    0 <= j < ti ==> ((#[trigger] self.totals.entries@[j]).1.1
                        >= self.totals.entries@[j].1.0 - self.taken_of(self.totals.entries@[j].0@)
                        && sum_shares_for(self.shares.entries@, self.totals.entries@[j].0@)
                        == self.totals.entries@[j].1.1),
            decreases tn - ti,
        {
            let kv = self.totals.entry_at(ti);
            proof {
                lemma_entries_map_val(self.totals.entries@, ti as int);
            }
            let taken = match self.asset_configs.get(&kv.0) {
                Some(c) => c.taken,
                None => 0,
            };
            if taken < kv.1.0 && kv.1.0 - taken > kv.1.1 {
                proof {
                    assert(self.total_shares_of(kv.0@) < self.total_balance_of(kv.0@)
                        - self.taken_of(kv.0@));
                    assert(!self.shares_cover_available());
                }
                return false;
            }
            match compute_share_sum(&self.shares, &kv.0) {
                Some(v) => {
                    if !(v == kv.1.1) {
                        proof {
                            assert(sum_shares_for(self.shares.entries@, kv.0@)
                                != self.total_shares_of(kv.0@));
                            assert(!self.shares_match_totals());
                        }
                        return false;
                    }
                },
                None => {
                    proof {
                        assert(sum_shares_for(self.shares.entries@, kv.0@)
                            != self.total_shares_of(kv.0@));
                        assert(!self.shares_match_totals());
                    }
                    return false;
                },
            }
            ti = ti + 1;
        }

        // assets holding share entries without a pool row must sum to zero
        let sn = self.shares.len();
        let mut si: usize = 0;
        while si < sn
            invariant
                si <= sn,
                sn == self.shares.entries@.len(),
                self.totals.wf(),
                self.shares.wf(),
                forall|j: int|
                    0 <= j < si ==> (self.totals@.contains_key(
                        (#[trigger] self.shares.entries@[j]).0@.1,
                    ) || sum_shares_for(self.shares.entries@, self.shares.entries@[j].0@.1) == 0),
            decreases sn - si,
        {
            let kv = self.shares.entry_at(si);
            if !self.totals.contains_key(&kv.0.asset) {
                match compute_share_sum(&self.shares, &kv.0.asset) {
                    Some(v) => {
                        if !(v == 0) {
                            proof {
                                assert(sum_shares_for(self.shares.entries@, kv.0.asset@)
                                    != self.total_shares_of(kv.0.asset@));
                                assert(!self.shares_match_totals());
                            }
                            return false;
                        }
                    },
                    None => {
                        proof {
                            assert(sum_shares_for(self.shares.entries@, kv.0.asset@)
                                != self.total_shares_of(kv.0.asset@));
                            assert(!self.shares_match_totals());
                        }
                        return false;
                    },
                }
            }
            si = si + 1;
        }

        proof {
            assert forall|a: AssetKey| #[trigger] self.asset_configs@.contains_key(a)
                implies self.asset_configs@[a].harvested <= self.asset_configs@[a].taken by {
                crate::table::lemma_entries_map_contains(self.asset_configs.entries@, a);
                let i = choose|i: int|
                    0 <= i < self.asset_configs.entries@.len()
                        && self.asset_configs.entries@[i].0@ == a;
                lemma_entries_map_val(self.asset_configs.entries@, i);
            }
            assert forall|a: AssetKey| #[trigger] self.taken_of(a) <= self.total_balance_of(
                a,
            ) by {
                if self.asset_configs@.contains_key(a) {
                    crate::table::lemma_entries_map_contains(self.asset_configs.entries@, a);
                    let i = choose|i: int|
                        0 <= i < self.asset_configs.entries@.len()
                            && self.asset_configs.entries@[i].0@ == a;
                    lemma_entries_map_val(self.asset_configs.entries@, i);
                }
            }
            assert forall|k: (Seq<char>, AssetKey)| #[trigger] self.user_reward_rates@.contains_key(
                k,
            ) implies self.asset_reward_rates@.contains_key(k.1)
                && self.user_reward_rates@[k].atomics <= self.asset_reward_rates@[k.1].atomics by {
                crate::table::lemma_entries_map_contains(self.user_reward_rates.entries@, k);
                let i = choose|i: int|
                    0 <= i < self.user_reward_rates.entries@.len()
                        && self.user_reward_rates.entries@[i].0@ == k;
                lemma_entries_map_val(self.user_reward_rates.entries@, i);
            }
            assert forall|a: AssetKey| #[trigger] sum_shares_for(self.shares.entries@, a)
                == self.total_shares_of(a) by {
                if self.totals@.contains_key(a) {
                    crate::table::lemma_entries_map_contains(self.totals.entries@, a);
                    let i = choose|i: int|
                        0 <= i < self.totals.entries@.len() && self.totals.entries@[i].0@ == a;
                    lemma_entries_map_val(self.totals.entries@, i);
                } else {
                    if exists|i: int|
                        0 <= i < self.shares.entries@.len() && (
                        #[trigger] self.shares.entries@[i]).0@.1 == a {
                        let i = choose|i: int|
                            0 <= i < self.shares.entries@.len() && (
                            #[trigger] self.shares.entries@[i]).0@.1 == a;
                    } else {
                        lemma_sum_shares_absent(self.shares.entries@, a);
                    }
                }
            }
            assert forall|a: AssetKey| #[trigger] self.total_shares_of(a)
                >= self.total_balance_of(a) - self.taken_of(a) by {
                if self.totals@.contains_key(a) {
                    crate::table::lemma_entries_map_contains(self.totals.entries@, a);
                    let i = choose|i: int|
                        0 <= i < self.totals.entries@.len() && self.totals.entries@[i].0@ == a;
                    lemma_entries_map_val(self.totals.entries@, i);
                }
            }
        }
        true
    }

    /// The checkpoint invariant only reads the checkpoint and accumulator
    /// tables: it survives any change elsewhere.
    pub proof fn lemma_checkpoints_frame(s0: HubState, s1: HubState)
        requires
            s0.checkpoints_wf(),
            s1.user_reward_rates == s0.user_reward_rates,
            s1.asset_reward_rates == s0.asset_reward_rates,
        ensures
            s1.checkpoints_wf(),
    {
        assert forall|k: (Seq<char>, AssetKey)| #[trigger] s1.user_reward_rates@.contains_key(k)
            implies s1.asset_reward_rates@.contains_key(k.1) && s1.user_reward_rates@[k].atomics
            <= s1.asset_reward_rates@[k.1].atomics by {
            assert(s0.user_reward_rates@.contains_key(k));
        }
    }

    /// Well-formedness survives any operation that leaves the vault ledger,
    /// fee state, accumulators, whitelist, validators and weights in place.
    pub proof fn lemma_wf_frame(s0: HubState, s1: HubState)
        requires
            s0.wf(),
            s1.shares == s0.shares,
            s1.totals == s0.totals,
            s1.asset_configs == s0.asset_configs,
            s1.asset_reward_rates == s0.asset_reward_rates,
            s1.whitelist.wf(),
            validators_unique(s1.validators@),
            s1.reward_distribution == s0.reward_distribution,
            s1.user_reward_rates.wf(),
            s1.unclaimed.wf(),
            s1.checkpoints_wf(),
        ensures
            s1.wf(),
    {
        assert forall|a: AssetKey| #[trigger] sum_shares_for(s1.shares.entries@, a)
            == s1.total_shares_of(a) by {
            assert(sum_shares_for(s0.shares.entries@, a) == s0.total_shares_of(a));
        }
        assert forall|a: AssetKey| #[trigger] s1.total_shares_of(a) >= s1.total_balance_of(a)
            - s1.taken_of(a) by {
            assert(s0.total_shares_of(a) >= s0.total_balance_of(a) - s0.taken_of(a));
        }
        assert forall|a: AssetKey| #[trigger] s1.asset_configs@.contains_key(a)
            implies s1.asset_configs@[a].harvested <= s1.asset_configs@[a].taken by {
            assert(s0.asset_configs@.contains_key(a));
        }
        assert forall|a: AssetKey| #[trigger] s1.taken_of(a) <= s1.total_balance_of(a) by {
            assert(s0.taken_of(a) <= s0.total_balance_of(a));
        }
    }

    /// The accumulator map never loses an asset and never decreases:
    /// every operation of the ledger preserves this relation between the
    /// state it starts from and the state it leaves.
    pub open spec fn rates_monotone(m0: Map<AssetKey, Dec>, m1: Map<AssetKey, Dec>) -> bool {
        forall|a: AssetKey| #[trigger] m0.contains_key(a) ==> m1.contains_key(a)
            && m0[a].atomics <= m1[a].atomics
    }

    /// Well-formedness also survives an operation that only advances the
    /// reward accumulators.
    pub proof fn lemma_wf_frame_rates(s0: HubState, s1: HubState)
        requires
            s0.wf(),
            s1.shares == s0.shares,
            s1.totals == s0.totals,
            s1.asset_configs == s0.asset_configs,
            s1.whitelist == s0.whitelist,
            s1.validators == s0.validators,
            s1.reward_distribution == s0.reward_distribution,
            s1.user_reward_rates == s0.user_reward_rates,
            s1.unclaimed == s0.unclaimed,
            s1.asset_reward_rates.wf(),
            HubState::rates_monotone(s0.asset_reward_rates@, s1.asset_reward_rates@),
        ensures
            s1.wf(),
    {
        assert forall|a: AssetKey| #[trigger] sum_shares_for(s1.shares.entries@, a)
            == s1.total_shares_of(a) by {
            assert(sum_shares_for(s0.shares.entries@, a) == s0.total_shares_of(a));
        }
        assert forall|a: AssetKey| #[trigger] s1.total_shares_of(a) >= s1.total_balance_of(a)
            - s1.taken_of(a) by {
            assert(s0.total_shares_of(a) >= s0.total_balance_of(a) - s0.taken_of(a));
        }
        assert forall|a: AssetKey| #[trigger] s1.asset_configs@.contains_key(a)
            implies s1.asset_configs@[a].harvested <= s1.asset_configs@[a].taken by {
            assert(s0.asset_configs@.contains_key(a));
        }
        assert forall|a: AssetKey| #[trigger] s1.taken_of(a) <= s1.total_balance_of(a) by {
            assert(s0.taken_of(a) <= s0.total_balance_of(a));
        }
        assert forall|k: (Seq<char>, AssetKey)| #[trigger] s1.user_reward_rates@.contains_key(k)
            implies s1.asset_reward_rates@.contains_key(k.1) && s1.user_reward_rates@[k].atomics
            <= s1.asset_reward_rates@[k.1].atomics by {
            assert(s0.user_reward_rates@.contains_key(k));
            assert(s0.asset_reward_rates@.contains_key(k.1));
        }
    }
}

} // verus!
