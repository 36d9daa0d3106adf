//! A borrower's obligation: baskets of collateral and debt entries keyed by
//! asset, each debt entry carrying an interest-index snapshot, with
//! mutations that keep the baskets pruned and reconciled.
use vstd::prelude::*;

use crate::errors::StakeLendError;
use crate::health::{AssetEntry, AssetInfo, HealthStatus};
use crate::interest::calculate_accumulated_interest;
use crate::oracle::AssetId;

verus! {

/// Look an asset up in a basket; baskets hold at most one entry per asset.
pub open spec fn spec_basket_lookup(s: Seq<AssetEntry>, asset: AssetId) -> Option<AssetInfo>
    decreases s.len(),
{
    if s.len() == 0 {
        None
    } else if s.last().asset == asset {
        Some(s.last().info)
    } else {
        spec_basket_lookup(s.drop_last(), asset)
    }
}

/// Basket well-formedness: one entry per asset, and no dangling zero-amount
/// entries (they are pruned immediately after every mutation).
pub open spec fn spec_basket_wf(s: Seq<AssetEntry>) -> bool {
    &&& forall|i: int, j: int|
        0 <= i < j < s.len() ==> (#[trigger] s[i]).asset != (#[trigger] s[j]).asset
    &&& forall|i: int| 0 <= i < s.len() ==> (#[trigger] s[i]).info.amount > 0
}

/// Every debt entry carries a positive interest-index snapshot.
pub open spec fn spec_debt_indices_positive(s: Seq<AssetEntry>) -> bool {
    forall|i: int| 0 <= i < s.len() ==> (#[trigger] s[i]).info.interest_index >= 1
}

/// Every debt entry's index snapshot is at most the pool's current index:
/// debt is never retroactively underpriced.
pub open spec fn spec_debt_indices_bounded(s: Seq<AssetEntry>, pool_index: u128) -> bool {
    forall|i: int| 0 <= i < s.len() ==> (#[trigger] s[i]).info.interest_index <= pool_index
}

/// Index of the entry holding an asset, or -1 when absent (baskets hold at
/// most one entry per asset).
pub open spec fn spec_basket_idx_of(s: Seq<AssetEntry>, asset: AssetId) -> int
    decreases s.len(),
{
    if s.len() == 0 {
        -1
    } else if s.last().asset == asset {
        s.len() - 1
    } else {
        spec_basket_idx_of(s.drop_last(), asset)
    }
}

/// The basket after setting an asset's entry data: the existing entry is
/// replaced in place, or a new entry is appended.
pub open spec fn spec_basket_upsert(s: Seq<AssetEntry>, asset: AssetId, info: AssetInfo) -> Seq<
    AssetEntry,
> {
    let i = spec_basket_idx_of(s, asset);
    if i >= 0 {
        s.update(i, AssetEntry { asset, info })
    } else {
        s.push(AssetEntry { asset, info })
    }
}

/// In a basket with unique assets, the entry found at an asset's index is
/// the only one holding it.
pub proof fn lemma_basket_idx_of_unique(s: Seq<AssetEntry>, asset: AssetId, i: int)
    requires
        0 <= i < s.len(),
        s[i].asset == asset,
        forall|x: int, y: int|
            0 <= x < y < s.len() ==> (#[trigger] s[x]).asset != (#[trigger] s[y]).asset,
    ensures
        spec_basket_idx_of(s, asset) == i,
    decreases s.len(),
{
    if s.last().asset == asset {
        assert(s.last() == s[s.len() - 1]);
        if i != s.len() - 1 {
            assert(s[i].asset != s[s.len() - 1].asset);
        }
    } else {
        assert(s.last() == s[s.len() - 1]);
        assert(i != s.len() - 1);
        assert(forall|x: int| 0 <= x < s.len() - 1 ==> #[trigger] s.drop_last()[x] == s[x]);
        lemma_basket_idx_of_unique(s.drop_last(), asset, i);
    }
}

/// An absent asset has no index.
pub proof fn lemma_basket_idx_of_absent(s: Seq<AssetEntry>, asset: AssetId)
    requires
        spec_basket_lookup(s, asset) is None,
    ensures
        spec_basket_idx_of(s, asset) == -1,
    decreases s.len(),
{
    if s.len() > 0 {
        lemma_basket_idx_of_absent(s.drop_last(), asset);
    }
}

/// A successful lookup comes from an entry of the basket.
pub proof fn lemma_basket_lookup_in(s: Seq<AssetEntry>, a: AssetId)
    requires
        (spec_basket_lookup(s, a) is Some),
    ensures
        (exists|i: int|
            0 <= i < s.len() && (#[trigger] s[i]) == (AssetEntry {
                asset: a,
                info: spec_basket_lookup(s, a)->Some_0,
            })),
    decreases s.len(),
{
    if s.last().asset == a {
        assert(s[s.len() - 1] == s.last());
    } else {
        lemma_basket_lookup_in(s.drop_last(), a);
        let i = choose|i: int|
            0 <= i < s.drop_last().len() && (#[trigger] s.drop_last()[i]) == AssetEntry {
                asset: a,
                info: spec_basket_lookup(s.drop_last(), a)->Some_0,
            };
        assert(s.drop_last()[i] == s[i]);
    }
}

/// An asset is absent from a basket exactly when no entry carries it.
pub proof fn lemma_basket_lookup_absent(s: Seq<AssetEntry>, a: AssetId)
    ensures
        (spec_basket_lookup(s, a) is None) <==> (forall|i: int|
            0 <= i < s.len() ==> (#[trigger] s[i]).asset != a),
    decreases s.len(),
{
    if s.len() > 0 {
        lemma_basket_lookup_absent(s.drop_last(), a);
        assert(forall|i: int|
            0 <= i < s.len() - 1 ==> #[trigger] s.drop_last()[i] == s[i]);
        if spec_basket_lookup(s, a) is None {
            assert(forall|i: int| 0 <= i < s.len() ==> (#[trigger] s[i]).asset != a) by {
                assert(s[s.len() - 1] == s.last());
                assert(forall|i: int|
                    0 <= i < s.len() - 1 ==> (#[trigger] s[i]).asset == s.drop_last()[i].asset);
            }
        }
        if forall|i: int| 0 <= i < s.len() ==> (#[trigger] s[i]).asset != a {
            assert(s.last() == s[s.len() - 1]);
            assert(forall|i: int|
                0 <= i < s.drop_last().len() ==> (#[trigger] s.drop_last()[i]).asset != a) by {
                assert(forall|i: int|
                    0 <= i < s.len() - 1 ==> #[trigger] s.drop_last()[i] == s[i]);
            }
        }
    }
}

/// Updating the entry that holds an asset changes only that asset's lookup.
pub proof fn lemma_basket_lookup_update(s: Seq<AssetEntry>, idx: int, e: AssetEntry, a: AssetId)
    requires
        0 <= idx < s.len(),
        s[idx].asset == e.asset,
        forall|i: int, j: int|
            0 <= i < j < s.len() ==> (#[trigger] s[i]).asset != (#[trigger] s[j]).asset,
    ensures
        spec_basket_lookup(s.update(idx, e), a) == (if a == e.asset {
            Some(e.info)
        } else {
            spec_basket_lookup(s, a)
        }),
    decreases s.len(),
{
    let t = s.update(idx, e);
    if idx == s.len() - 1 {
        assert(t.last() == e);
        assert(t.drop_last() =~= s.drop_last());
        assert(s.last() == s[idx]);
    } else {
        assert(t.last() == s.last());
        assert(t.drop_last() =~= s.drop_last().update(idx, e));
        assert(s.drop_last()[idx] == s[idx]);
        if s.last().asset == a {
            assert(s[idx].asset != s[s.len() - 1].asset);
            assert(s.last() == s[s.len() - 1]);
        } else {
            assert(forall|i: int, j: int|
                0 <= i < j < s.drop_last().len() ==> (#[trigger] s.drop_last()[i]).asset != (
                #[trigger] s.drop_last()[j]).asset) by {
                assert(forall|i: int|
                    0 <= i < s.len() - 1 ==> #[trigger] s.drop_last()[i] == s[i]);
            }
            lemma_basket_lookup_update(s.drop_last(), idx, e, a);
        }
    }
}

/// Removing the entry that holds an asset erases only that asset's lookup.
pub proof fn lemma_basket_lookup_remove(s: Seq<AssetEntry>, idx: int, a: AssetId)
    requires
        0 <= idx < s.len(),
        forall|i: int, j: int|
            0 <= i < j < s.len() ==> (#[trigger] s[i]).asset != (#[trigger] s[j]).asset,
    ensures
        spec_basket_lookup(s.remove(idx), a) == (if a == s[idx].asset {
            None
        } else {
            spec_basket_lookup(s, a)
        }),
    decreases s.len(),
{
    let t = s.remove(idx);
    s.remove_ensures(idx);
    if idx == s.len() - 1 {
        assert(t =~= s.drop_last());
        assert(s.last() == s[idx]);
        if a == s[idx].asset {
            assert(forall|i: int|
                0 <= i < s.drop_last().len() ==> (#[trigger] s.drop_last()[i]).asset != a) by {
                assert(forall|i: int|
                    0 <= i < s.len() - 1 ==> #[trigger] s.drop_last()[i] == s[i]);
                assert(forall|i: int|
                    0 <= i < s.len() - 1 ==> (#[trigger] s[i]).asset != s[idx].asset);
            }
            lemma_basket_lookup_absent(s.drop_last(), a);
        }
    } else {
        assert(t.last() == s[s.len() - 2 + 1]);
        assert(t.last() == s.last());
        assert(t.drop_last() =~= s.drop_last().remove(idx));
        assert(forall|i: int, j: int|
            0 <= i < j < s.drop_last().len() ==> (#[trigger] s.drop_last()[i]).asset != (
            #[trigger] s.drop_last()[j]).asset) by {
            assert(forall|i: int| 0 <= i < s.len() - 1 ==> #[trigger] s.drop_last()[i] == s[i]);
        }
        assert(s.drop_last()[idx] == s[idx]);
        if s.last().asset == a {
            assert(s[idx].asset != s[s.len() - 1].asset);
            assert(s.last() == s[s.len() - 1]);
        } else {
            lemma_basket_lookup_remove(s.drop_last(), idx, a);
        }
    }
}

/// Find the index of an asset's entry in a basket.
fn find_asset(basket: &Vec<AssetEntry>, asset: AssetId) -> (r: Option<usize>)
    ensures
        match r {
            Some(idx) => idx < basket@.len() && basket@[idx as int].asset == asset
                && spec_basket_lookup(basket@, asset) == Some(basket@[idx as int].info),
            None => spec_basket_lookup(basket@, asset) is None,
        },
{
    let ghost s = basket@;
    let mut i: usize = basket.len();
    proof {
        assert(s.take(i as int) =~= s);
    }
    while i > 0
        invariant
            i <= s.len(),
            basket@ == s,
            spec_basket_lookup(s, asset) == spec_basket_lookup(s.take(i as int), asset),
        decreases i,
    {
        i = i - 1;
        proof {
            assert(s.take(i as int + 1).last() == s[i as int]);
            assert(s.take(i as int + 1).drop_last() =~= s.take(i as int));
        }
        if basket[i].asset == asset {
            return Some(i);
        }
    }
    proof {
        assert(s.take(0) =~= Seq::<AssetEntry>::empty());
    }
    None
}


/// Runtime check of basket well-formedness: unique assets and positive
/// amounts.
fn basket_is_wf(v: &Vec<AssetEntry>) -> (r: bool)
    ensures
        r == spec_basket_wf(v@),
{
    let ghost s = v@;
    let n = v.len();
    let mut i: usize = 0;
    while i < n
        invariant
            n == s.len(),
            v@ == s,
            i <= n,
            forall|x: int, y: int|
                0 <= x < y < s.len() && x < i ==> (#[trigger] s[x]).asset != (
                #[trigger] s[y]).asset,
            forall|x: int| 0 <= x < i ==> (#[trigger] s[x]).info.amount > 0,
        decreases n - i,
    {
        if v[i].info.amount == 0 {
            return false;
        }
        let mut j: usize = i + 1;
        while j < n
            invariant
                n == s.len(),
                v@ == s,
                i < j <= n,
                forall|y: int| i < y < j ==> (#[trigger] s[y]).asset != s[i as int].asset,
            decreases n - j,
        {
            if v[j].asset == v[i].asset {
                return false;
            }
            j = j + 1;
        }
        i = i + 1;
    }
    true
}

/// Runtime check that every debt entry carries a positive index snapshot.
fn debt_indices_are_positive(v: &Vec<AssetEntry>) -> (r: bool)
    ensures
        r == spec_debt_indices_positive(v@),
{
    let ghost s = v@;
    let mut i: usize = 0;
    while i < v.len()
        invariant
            v@ == s,
            i <= s.len(),
            forall|x: int| 0 <= x < i ==> (#[trigger] s[x]).info.interest_index >= 1,
        decreases s.len() - i,
    {
        if v[i].info.interest_index == 0 {
            return false;
        }
        i = i + 1;
    }
    true
}

/// A borrower's bundled collateral and debt position in one lending pool.
pub struct Obligation {
    /// Collateral basket: one entry per asset, amounts always positive.
    pub collateral_assets: Vec<AssetEntry>,
    /// Debt basket: one entry per asset, each with an index snapshot.
    pub debt_assets: Vec<AssetEntry>,
    /// Cached health factor, on the percentage scale.
    pub health_factor: u64,
    /// Cached classification of the health factor.
    pub health_status: HealthStatus,
    /// Timestamp of the last mutation.
    pub last_updated_timestamp: u64,
}

impl Obligation {
    /// Structural invariant of an obligation's baskets.
    pub open spec fn baskets_wf(&self) -> bool {
        &&& spec_basket_wf(self.collateral_assets@)
        &&& spec_basket_wf(self.debt_assets@)
        &&& spec_debt_indices_positive(self.debt_assets@)
    }

    /// A fresh obligation: empty baskets and maximal health.
    pub fn new(now: u64) -> (r: Obligation)
        ensures
            r.baskets_wf(),
            r.collateral_assets@.len() == 0,
            r.debt_assets@.len() == 0,
            r.health_factor == u64::MAX,
            r.health_status == HealthStatus::Healthy,
            r.last_updated_timestamp == now,
    {
        Obligation {
            collateral_assets: Vec::new(),
            debt_assets: Vec::new(),
            health_factor: u64::MAX,
            health_status: HealthStatus::Healthy,
            last_updated_timestamp: now,
        }
    }


    /// Runtime check of the structural invariant, for callers that load a
    /// position from storage they do not control.
    pub fn is_well_formed(&self) -> (r: bool)
        ensures
            r == self.baskets_wf(),
    {
        basket_is_wf(&self.collateral_assets) && basket_is_wf(&self.debt_assets)
            && debt_indices_are_positive(&self.debt_assets)
    }

    /// Runtime check that no debt entry's index snapshot runs ahead of the
    /// pool's current index, for callers that load a position from storage
    /// they do not control.
    pub fn debt_indices_bounded_by(&self, pool_index: u128) -> (r: bool)
        ensures
            r == spec_debt_indices_bounded(self.debt_assets@, pool_index),
    {
        let ghost s = self.debt_assets@;
        let mut i: usize = 0;
        while i < self.debt_assets.len()
            invariant
                self.debt_assets@ == s,
                i <= s.len(),
                forall|x: int| 0 <= x < i ==> (#[trigger] s[x]).info.interest_index <= pool_index,
            decreases s.len() - i,
        {
            if self.debt_assets[i].info.interest_index > pool_index {
                return false;
            }
            i = i + 1;
        }
        true
    }

    /// Whether any debt remains.
    pub fn has_debt(&self) -> (r: bool)
        ensures
            r == (self.debt_assets@.len() > 0),
    {
        self.debt_assets.len() > 0
    }

    /// Amount of an asset held as collateral (0 when absent).
    pub fn collateral_amount_of(&self, asset: AssetId) -> (r: u64)
        ensures
            r == (match spec_basket_lookup(self.collateral_assets@, asset) {
                Some(info) => info.amount,
                None => 0u64,
            }),
    {
        match find_asset(&self.collateral_assets, asset) {
            Some(idx) => self.collateral_assets[idx].info.amount,
            None => 0,
        }
    }

    /// Principal currently recorded for a debt asset (0 when absent).
    pub fn debt_amount_of(&self, asset: AssetId) -> (r: u64)
        ensures
            r == (match spec_basket_lookup(self.debt_assets@, asset) {
                Some(info) => info.amount,
                None => 0u64,
            }),
    {
        match find_asset(&self.debt_assets, asset) {
            Some(idx) => self.debt_assets[idx].info.amount,
            None => 0,
        }
    }

    /// Add collateral to the basket, creating the entry on first use.
    ///
    /// An existing entry keeps its collateral-factor snapshot and only grows;
    /// a new entry records the given factor and slot. Adding zero changes
    /// nothing. Overflow of the held amount fails with `MathOverflow` and
    /// leaves the obligation untouched.
    pub fn add_collateral(
        &mut self,
        asset: AssetId,
        amount: u64,
        collateral_factor: u16,
        slot: u64,
    ) -> (r: Result<(), StakeLendError>)
        requires
            old(self).baskets_wf(),
        ensures
            final(self).baskets_wf(),
            final(self).debt_assets@ == old(self).debt_assets@,
            final(self).health_factor == old(self).health_factor,
            final(self).health_status == old(self).health_status,
            final(self).last_updated_timestamp == old(self).last_updated_timestamp,
            r is Err ==> final(self).collateral_assets@ == old(self).collateral_assets@,
            r == (match spec_basket_lookup(old(self).collateral_assets@, asset) {
                Some(info) => if info.amount + amount <= u64::MAX {
                    Ok::<(), StakeLendError>(())
                } else {
                    Err::<(), StakeLendError>(StakeLendError::MathOverflow)
                },
                None => Ok::<(), StakeLendError>(()),
            }),
            r is Ok ==> spec_basket_lookup(final(self).collateral_assets@, asset)
                == (match spec_basket_lookup(old(self).collateral_assets@, asset) {
                Some(info) => Some(
                    AssetInfo {
                        amount: (info.amount + amount) as u64,
                        ..info
                    },
                ),
                None => if amount == 0 {
                    None::<AssetInfo>
                } else {
                    Some(
                        AssetInfo {
                            amount,
                            collateral_factor,
                            interest_index: 0,
                            last_updated_slot: slot,
                        },
                    )
                },
            }),
            forall|a: AssetId|
                a != asset ==> spec_basket_lookup(final(self).collateral_assets@, a)
                    == spec_basket_lookup(old(self).collateral_assets@, a),
            r is Ok ==> (match spec_basket_lookup(old(self).collateral_assets@, asset) {
                Some(info) => exists|idx: int|
                    0 <= idx < old(self).collateral_assets@.len() && (
                    #[trigger] old(self).collateral_assets@[idx]).asset == asset && final(self).collateral_assets@ == old(self).collateral_assets@.update(
                        idx,
                        AssetEntry {
                            asset,
                            info: AssetInfo { amount: (info.amount + amount) as u64, ..info },
                        },
                    ),
                None => if amount == 0 {
                    final(self).collateral_assets@ == old(self).collateral_assets@
                } else {
                    final(self).collateral_assets@ == old(self).collateral_assets@.push(
                        AssetEntry {
                            asset,
                            info: AssetInfo {
                                amount,
                                collateral_factor,
                                interest_index: 0,
                                last_updated_slot: slot,
                            },
                        },
                    )
                },
            }),
    {
        let ghost s = self.collateral_assets@;
        match find_asset(&self.collateral_assets, asset) {
            Some(idx) => {
                let entry = self.collateral_assets[idx];
                match entry.info.amount.checked_add(amount) {
                    Some(new_amount) => {
                        let mut updated = entry;
                        updated.info.amount = new_amount;
                        self.collateral_assets[idx] = updated;
                        proof {
                            lemma_basket_lookup_update(s, idx as int, updated, asset);
                            assert forall|a: AssetId| a != asset implies spec_basket_lookup(
                                self.collateral_assets@,
                                a,
                            ) == spec_basket_lookup(s, a) by {
                                lemma_basket_lookup_update(s, idx as int, updated, a);
                            }
                            assert(0 <= idx < s.len() && s[idx as int].asset == asset
                                && self.collateral_assets@ == s.update(idx as int, updated));
                        }
                        Ok(())
                    },
                    None => Err(StakeLendError::MathOverflow),
                }
            },
            None => {
                if amount == 0 {
                    return Ok(());
                }
                let entry = AssetEntry {
                    asset,
                    info: AssetInfo {
                        amount,
                        collateral_factor,
                        interest_index: 0,
                        last_updated_slot: slot,
                    },
                };
                self.collateral_assets.push(entry);
                proof {
                    lemma_basket_lookup_absent(s, asset);
                    assert(self.collateral_assets@.drop_last() =~= s);
                    assert(forall|i: int|
                        0 <= i < s.len() ==> #[trigger] self.collateral_assets@[i] == s[i]);
                }
                Ok(())
            },
        }
    }

    /// Remove collateral from the basket, pruning emptied entries.
    ///
    /// Fails with `NoCollateralFound` when the asset is absent and with
    /// `InsufficientCollateral` when more than held is requested; errors
    /// leave the obligation untouched. Health revalidation when debt exists
    /// is the pool operation's duty, before it commits this mutation.
    pub fn remove_collateral(&mut self, asset: AssetId, amount: u64) -> (r: Result<
        (),
        StakeLendError,
    >)
        requires
            old(self).baskets_wf(),
        ensures
            final(self).baskets_wf(),
            final(self).debt_assets@ == old(self).debt_assets@,
            final(self).health_factor == old(self).health_factor,
            final(self).health_status == old(self).health_status,
            final(self).last_updated_timestamp == old(self).last_updated_timestamp,
            r is Err ==> final(self).collateral_assets@ == old(self).collateral_assets@,
            r == (match spec_basket_lookup(old(self).collateral_assets@, asset) {
                Some(info) => if amount <= info.amount {
                    Ok::<(), StakeLendError>(())
                } else {
                    Err::<(), StakeLendError>(StakeLendError::InsufficientCollateral)
                },
                None => Err::<(), StakeLendError>(StakeLendError::NoCollateralFound),
            }),
            r is Ok ==> spec_basket_lookup(final(self).collateral_assets@, asset)
                == (match spec_basket_lookup(old(self).collateral_assets@, asset) {
                Some(info) => if info.amount == amount {
                    None::<AssetInfo>
                } else {
                    Some(AssetInfo { amount: (info.amount - amount) as u64, ..info })
                },
                None => None::<AssetInfo>,
            }),
            forall|a: AssetId|
                a != asset ==> spec_basket_lookup(final(self).collateral_assets@, a)
                    == spec_basket_lookup(old(self).collateral_assets@, a),
            r is Ok ==> ({
                let info = spec_basket_lookup(old(self).collateral_assets@, asset)->Some_0;
                exists|idx: int|
                    0 <= idx < old(self).collateral_assets@.len() && (
                    #[trigger] old(self).collateral_assets@[idx]).asset == asset && final(self).collateral_assets@ == (if info.amount == amount {
                        old(self).collateral_assets@.remove(idx)
                    } else {
                        old(self).collateral_assets@.update(
                            idx,
                            AssetEntry {
                                asset,
                                info: AssetInfo { amount: (info.amount - amount) as u64, ..info },
                            },
                        )
                    })
            }),
    {
        let ghost s = self.collateral_assets@;
        match find_asset(&self.collateral_assets, asset) {
            Some(idx) => {
                let entry = self.collateral_assets[idx];
                if amount > entry.info.amount {
                    return Err(StakeLendError::InsufficientCollateral);
                }
                if amount == entry.info.amount {
                    self.collateral_assets.remove(idx);
                    proof {
                        lemma_basket_lookup_remove(s, idx as int, asset);
                        assert forall|a: AssetId| a != asset implies spec_basket_lookup(
                            self.collateral_assets@,
                            a,
                        ) == spec_basket_lookup(s, a) by {
                            lemma_basket_lookup_remove(s, idx as int, a);
                        }
                        s.remove_ensures(idx as int);
                        assert(0 <= idx < s.len() && s[idx as int].asset == asset
                            && self.collateral_assets@ == s.remove(idx as int));
                    }
                } else {
                    let mut updated = entry;
                    updated.info.amount = entry.info.amount - amount;
                    self.collateral_assets[idx] = updated;
                    proof {
                        lemma_basket_lookup_update(s, idx as int, updated, asset);
                        assert forall|a: AssetId| a != asset implies spec_basket_lookup(
                            self.collateral_assets@,
                            a,
                        ) == spec_basket_lookup(s, a) by {
                            lemma_basket_lookup_update(s, idx as int, updated, a);
                        }
                        assert(0 <= idx < s.len() && s[idx as int].asset == asset
                            && self.collateral_assets@ == s.update(idx as int, updated));
                    }
                }
                Ok(())
            },
            None => Err(StakeLendError::NoCollateralFound),
        }
    }

    /// Record new debt against an asset, stamping the entry with the pool's
    /// current interest index.
    ///
    /// The caller reconciles accrued interest into the entry first, so
    /// advancing the snapshot here loses nothing. Borrowing zero changes
    /// nothing; overflow of the principal fails with `MathOverflow` and
    /// leaves the obligation untouched.
    pub fn increase_debt(
        &mut self,
        asset: AssetId,
        amount: u64,
        current_index: u128,
        slot: u64,
    ) -> (r: Result<(), StakeLendError>)
        requires
            old(self).baskets_wf(),
            current_index >= 1,
        ensures
            final(self).baskets_wf(),
            final(self).collateral_assets@ == old(self).collateral_assets@,
            final(self).health_factor == old(self).health_factor,
            final(self).health_status == old(self).health_status,
            final(self).last_updated_timestamp == old(self).last_updated_timestamp,
            r is Err ==> final(self).debt_assets@ == old(self).debt_assets@,
            r == (match spec_basket_lookup(old(self).debt_assets@, asset) {
                Some(info) => if info.amount + amount <= u64::MAX {
                    Ok::<(), StakeLendError>(())
                } else {
                    Err::<(), StakeLendError>(StakeLendError::MathOverflow)
                },
                None => Ok::<(), StakeLendError>(()),
            }),
            r is Ok ==> spec_basket_lookup(final(self).debt_assets@, asset)
                == (match spec_basket_lookup(old(self).debt_assets@, asset) {
                Some(info) => Some(
                    AssetInfo {
                        amount: (info.amount + amount) as u64,
                        interest_index: current_index,
                        last_updated_slot: slot,
                        ..info
                    },
                ),
                None => if amount == 0 {
                    None::<AssetInfo>
                } else {
                    Some(
                        AssetInfo {
                            amount,
                            collateral_factor: 0,
                            interest_index: current_index,
                            last_updated_slot: slot,
                        },
                    )
                },
            }),
            forall|a: AssetId|
                a != asset ==> spec_basket_lookup(final(self).debt_assets@, a)
                    == spec_basket_lookup(old(self).debt_assets@, a),
            spec_debt_indices_bounded(old(self).debt_assets@, current_index) && r is Ok
                ==> spec_debt_indices_bounded(final(self).debt_assets@, current_index),
            r is Ok ==> (match spec_basket_lookup(old(self).debt_assets@, asset) {
                Some(info) => exists|idx: int|
                    0 <= idx < old(self).debt_assets@.len() && (
                    #[trigger] old(self).debt_assets@[idx]).asset == asset && final(self).debt_assets@ == old(self).debt_assets@.update(
                        idx,
                        AssetEntry {
                            asset,
                            info: AssetInfo {
                                amount: (info.amount + amount) as u64,
                                interest_index: current_index,
                                last_updated_slot: slot,
                                ..info
                            },
                        },
                    ),
                None => if amount == 0 {
                    final(self).debt_assets@ == old(self).debt_assets@
                } else {
                    final(self).debt_assets@ == old(self).debt_assets@.push(
                        AssetEntry {
                            asset,
                            info: AssetInfo {
                                amount,
                                collateral_factor: 0,
                                interest_index: current_index,
                                last_updated_slot: slot,
                            },
                        },
                    )
                },
            }),
    {
        let ghost s = self.debt_assets@;
        match find_asset(&self.debt_assets, asset) {
            Some(idx) => {
                let entry = self.debt_assets[idx];
                match entry.info.amount.checked_add(amount) {
                    Some(new_amount) => {
                        let mut updated = entry;
                        updated.info.amount = new_amount;
                        updated.info.interest_index = current_index;
                        updated.info.last_updated_slot = slot;
                        self.debt_assets[idx] = updated;
                        proof {
                            lemma_basket_lookup_update(s, idx as int, updated, asset);
                            assert forall|a: AssetId| a != asset implies spec_basket_lookup(
                                self.debt_assets@,
                                a,
                            ) == spec_basket_lookup(s, a) by {
                                lemma_basket_lookup_update(s, idx as int, updated, a);
                            }
                            assert(0 <= idx < s.len() && s[idx as int].asset == asset
                                && self.debt_assets@ == s.update(idx as int, updated));
                        }
                        Ok(())
                    },
                    None => Err(StakeLendError::MathOverflow),
                }
            },
            None => {
                if amount == 0 {
                    return Ok(());
                }
                let entry = AssetEntry {
                    asset,
                    info: AssetInfo {
                        amount,
                        collateral_factor: 0,
                        interest_index: current_index,
                        last_updated_slot: slot,
                    },
                };
                self.debt_assets.push(entry);
                proof {
                    lemma_basket_lookup_absent(s, asset);
                    assert(self.debt_assets@.drop_last() =~= s);
                    assert(forall|i: int|
                        0 <= i < s.len() ==> #[trigger] self.debt_assets@[i] == s[i]);
                }
                Ok(())
            },
        }
    }

    /// Repay debt on an asset, capping at the recorded amount and pruning a
    /// fully repaid entry. Returns the amount actually applied.
    pub fn decrease_debt(&mut self, asset: AssetId, amount: u64) -> (r: Result<
        u64,
        StakeLendError,
    >)
        requires
            old(self).baskets_wf(),
        ensures
            final(self).baskets_wf(),
            final(self).collateral_assets@ == old(self).collateral_assets@,
            final(self).health_factor == old(self).health_factor,
            final(self).health_status == old(self).health_status,
            final(self).last_updated_timestamp == old(self).last_updated_timestamp,
            r is Err ==> final(self).debt_assets@ == old(self).debt_assets@,
            spec_basket_lookup(old(self).debt_assets@, asset) is None <==> r == Err::<
                u64,
                StakeLendError,
            >(StakeLendError::NoDebtFound),
            spec_basket_lookup(old(self).debt_assets@, asset) is Some ==> r is Ok,
            r is Ok ==> ({
                let info = spec_basket_lookup(old(self).debt_assets@, asset)->Some_0;
                &&& r->Ok_0 == (if amount <= info.amount {
                    amount
                } else {
                    info.amount
                })
                &&& spec_basket_lookup(final(self).debt_assets@, asset) == (if amount
                    >= info.amount {
                    None::<AssetInfo>
                } else {
                    Some(AssetInfo { amount: (info.amount - amount) as u64, ..info })
                })
            }),
            forall|a: AssetId|
                a != asset ==> spec_basket_lookup(final(self).debt_assets@, a)
                    == spec_basket_lookup(old(self).debt_assets@, a),
            r is Ok ==> ({
                let info = spec_basket_lookup(old(self).debt_assets@, asset)->Some_0;
                exists|idx: int|
                    0 <= idx < old(self).debt_assets@.len() && (
                    #[trigger] old(self).debt_assets@[idx]).asset == asset && final(self).debt_assets@ == (if amount >= info.amount {
                        old(self).debt_assets@.remove(idx)
                    } else {
                        old(self).debt_assets@.update(
                            idx,
                            AssetEntry {
                                asset,
                                info: AssetInfo { amount: (info.amount - amount) as u64, ..info },
                            },
                        )
                    })
            }),
    {
        let ghost s = self.debt_assets@;
        match find_asset(&self.debt_assets, asset) {
            Some(idx) => {
                let entry = self.debt_assets[idx];
                let actual = if amount <= entry.info.amount {
                    amount
                } else {
                    entry.info.amount
                };
                if actual == entry.info.amount {
                    self.debt_assets.remove(idx);
                    proof {
                        lemma_basket_lookup_remove(s, idx as int, asset);
                        assert forall|a: AssetId| a != asset implies spec_basket_lookup(
                            self.debt_assets@,
                            a,
                        ) == spec_basket_lookup(s, a) by {
                            lemma_basket_lookup_remove(s, idx as int, a);
                        }
                        s.remove_ensures(idx as int);
                        assert(0 <= idx < s.len() && s[idx as int].asset == asset
                            && self.debt_assets@ == s.remove(idx as int));
                    }
                } else {
                    let mut updated = entry;
                    updated.info.amount = entry.info.amount - actual;
                    self.debt_assets[idx] = updated;
                    proof {
                        lemma_basket_lookup_update(s, idx as int, updated, asset);
                        assert forall|a: AssetId| a != asset implies spec_basket_lookup(
                            self.debt_assets@,
                            a,
                        ) == spec_basket_lookup(s, a) by {
                            lemma_basket_lookup_update(s, idx as int, updated, a);
                        }
                        assert(0 <= idx < s.len() && s[idx as int].asset == asset
                            && self.debt_assets@ == s.update(idx as int, updated));
                    }
                }
                Ok(actual)
            },
            None => Err(StakeLendError::NoDebtFound),
        }
    }

    /// Reconcile accrued interest into a debt entry and advance its snapshot
    /// to the pool's current index. Returns the interest folded in, which the
    /// pool adds to its own aggregates.
    ///
    /// The interest is the entry's principal grown by the index ratio since
    /// its snapshot, minus the principal; a snapshot at or above the current
    /// index accrues nothing. Overflow fails with `MathOverflow` and leaves
    /// the obligation untouched.
    pub fn reconcile_debt(&mut self, asset: AssetId, current_index: u128) -> (r: Result<
        u64,
        StakeLendError,
    >)
        requires
            old(self).baskets_wf(),
            current_index >= 1,
        ensures
            final(self).baskets_wf(),
            final(self).collateral_assets@ == old(self).collateral_assets@,
            final(self).health_factor == old(self).health_factor,
            final(self).health_status == old(self).health_status,
            final(self).last_updated_timestamp == old(self).last_updated_timestamp,
            r is Err ==> final(self).debt_assets@ == old(self).debt_assets@,
            spec_basket_lookup(old(self).debt_assets@, asset) is None <==> r == Err::<
                u64,
                StakeLendError,
            >(StakeLendError::NoDebtFound),
            spec_basket_lookup(old(self).debt_assets@, asset) is Some ==> ({
                let info = spec_basket_lookup(old(self).debt_assets@, asset)->Some_0;
                let overflows = current_index > info.interest_index && (info.amount * current_index
                    > u128::MAX || info.amount * current_index / (info.interest_index as int)
                    > u64::MAX);
                if overflows {
                    r == Err::<u64, StakeLendError>(StakeLendError::MathOverflow)
                } else {
                    r is Ok
                }
            }),
            r is Ok ==> ({
                let info = spec_basket_lookup(old(self).debt_assets@, asset)->Some_0;
                let grown = info.amount * current_index / (info.interest_index as int);
                &&& (current_index > info.interest_index ==> r->Ok_0 == grown - info.amount)
                &&& (current_index <= info.interest_index ==> r->Ok_0 == 0)
                &&& spec_basket_lookup(final(self).debt_assets@, asset) == Some(
                    AssetInfo {
                        amount: (info.amount + r->Ok_0) as u64,
                        interest_index: current_index,
                        ..info
                    },
                )
            }),
            forall|a: AssetId|
                a != asset ==> spec_basket_lookup(final(self).debt_assets@, a)
                    == spec_basket_lookup(old(self).debt_assets@, a),
            r is Ok ==> ({
                let info = spec_basket_lookup(old(self).debt_assets@, asset)->Some_0;
                exists|idx: int|
                    0 <= idx < old(self).debt_assets@.len() && (
                    #[trigger] old(self).debt_assets@[idx]).asset == asset && final(self).debt_assets@ == old(self).debt_assets@.update(
                        idx,
                        AssetEntry {
                            asset,
                            info: AssetInfo {
                                amount: (info.amount + r->Ok_0) as u64,
                                interest_index: current_index,
                                ..info
                            },
                        },
                    )
            }),
    {
        let ghost s = self.debt_assets@;
        match find_asset(&self.debt_assets, asset) {
            Some(idx) => {
                let entry = self.debt_assets[idx];
                let interest = match calculate_accumulated_interest(
                    entry.info.amount,
                    entry.info.interest_index,
                    current_index,
                ) {
                    Ok(i) => i,
                    Err(e) => {
                        return Err(e);
                    },
                };
                let new_amount = match entry.info.amount.checked_add(interest) {
                    Some(v) => v,
                    None => {
                        return Err(StakeLendError::MathOverflow);
                    },
                };
                let mut updated = entry;
                updated.info.amount = new_amount;
                updated.info.interest_index = current_index;
                self.debt_assets[idx] = updated;
                proof {
                    lemma_basket_lookup_update(s, idx as int, updated, asset);
                    assert forall|a: AssetId| a != asset implies spec_basket_lookup(
                        self.debt_assets@,
                        a,
                    ) == spec_basket_lookup(s, a) by {
                        lemma_basket_lookup_update(s, idx as int, updated, a);
                    }
                    assert(0 <= idx < s.len() && s[idx as int].asset == asset && self.debt_assets@
                        == s.update(idx as int, updated));
                }
                Ok(interest)
            },
            None => Err(StakeLendError::NoDebtFound),
        }
    }
}

} // verus!
