//! The fungible-asset registry: per-asset total supply, per-holder balances
//! and the in-use flag that gates granting an asset from a dungeon.  Minting
//! increases the supply and the beneficiary's balance atomically, and a batch
//! mint applies a whole grant table or nothing.

use vstd::prelude::*;
use crate::primitives::{AccountId, AssetId, Balance, Error};
use crate::store::{find, keys_unique, find_index, lemma_find_update, lemma_find_push};

verus! {

/// One asset: its flag, supply and holder balances.
pub struct AssetState {
    in_using: bool,
    supply: Balance,
    balances: Vec<(AccountId, Balance)>,
}

/// Every holder entry is unique and bounded by the supply.
spec fn asset_wf(st: AssetState) -> bool {
    &&& keys_unique(st.balances@)
    &&& forall|j: int| 0 <= j < st.balances@.len() ==> st.balances@[j].1 <= st.supply
}

/// Total amount granted for asset `a` by the entries of `grants[i..]`.
pub open spec fn amount_from(grants: Seq<(AssetId, Balance)>, a: AssetId, i: int) -> int
    decreases grants.len() - i,
{
    if i < 0 || i >= grants.len() {
        0
    } else {
        (if grants[i].0 == a {
            grants[i].1 as int
        } else {
            0
        }) + amount_from(grants, a, i + 1)
    }
}

/// Total amount granted for asset `a` by the whole grant table.
pub open spec fn amount_for(grants: Seq<(AssetId, Balance)>, a: AssetId) -> int {
    amount_from(grants, a, 0)
}

/// Total amount granted for asset `a` by the entries of `grants[..i]`.
spec fn amount_upto(grants: Seq<(AssetId, Balance)>, a: AssetId, i: int) -> int
    decreases i,
{
    if i <= 0 {
        0
    } else {
        amount_upto(grants, a, i - 1) + (if grants[i - 1].0 == a {
            grants[i - 1].1 as int
        } else {
            0
        })
    }
}

proof fn lemma_amount_from_nonneg(grants: Seq<(AssetId, Balance)>, a: AssetId, i: int)
    ensures
        amount_from(grants, a, i) >= 0,
    decreases grants.len() - i,
{
    if 0 <= i < grants.len() {
        lemma_amount_from_nonneg(grants, a, i + 1);
    }
}

proof fn lemma_amount_split(grants: Seq<(AssetId, Balance)>, a: AssetId, i: int)
    requires
        0 <= i <= grants.len(),
    ensures
        amount_upto(grants, a, i) + amount_from(grants, a, i) == amount_for(grants, a),
    decreases i,
{
    if i > 0 {
        lemma_amount_split(grants, a, i - 1);
    }
}

/// The asset registry.
pub struct Assets {
    assets: Vec<(AssetId, AssetState)>,
}

/// First reason a batch mint of `grants[i..]` would fail: an unavailable
/// asset, or a per-asset grant total that would push the supply past the
/// limit.
pub open spec fn batch_check(assets: Assets, grants: Seq<(AssetId, Balance)>, i: int) -> Option<
    Error,
>
    decreases grants.len() - i,
{
    if i < 0 || i >= grants.len() {
        None
    } else if !assets.exists_of(grants[i].0) {
        Some(Error::AssetUnavailable)
    } else if assets.supply_of(grants[i].0) + amount_for(grants, grants[i].0) > Balance::MAX {
        Some(Error::Overflow)
    } else {
        batch_check(assets, grants, i + 1)
    }
}

/// What a successful batch mint does: every asset's supply and the
/// beneficiary's balance grow by that asset's total granted amount, and
/// nothing else moves.
pub open spec fn batch_minted(
    pre: Assets,
    post: Assets,
    grants: Seq<(AssetId, Balance)>,
    who: AccountId,
) -> bool {
    &&& forall|a: AssetId|
        (#[trigger] post.supply_of(a)) == pre.supply_of(a) + amount_for(grants, a)
    &&& forall|a: AssetId|
        (#[trigger] post.balance_of(a, who)) == pre.balance_of(a, who) + amount_for(grants, a)
    &&& forall|a: AssetId, w: AccountId|
        w != who ==> (#[trigger] post.balance_of(a, w)) == pre.balance_of(a, w)
    &&& forall|a: AssetId|
        (#[trigger] post.exists_of(a)) == pre.exists_of(a) && post.in_using_of(a)
            == pre.in_using_of(a)
}

proof fn lemma_batch_check_none(assets: Assets, grants: Seq<(AssetId, Balance)>, i: int, k: int)
    requires
        batch_check(assets, grants, i) is None,
        0 <= i <= k < grants.len(),
    ensures
        assets.exists_of(grants[k].0),
        assets.supply_of(grants[k].0) + amount_for(grants, grants[k].0) <= Balance::MAX,
    decreases k - i,
{
    if i < k {
        lemma_batch_check_none(assets, grants, i + 1, k);
    }
}

impl Assets {
    /// One entry per asset id, each entry well formed.
    pub closed spec fn wf(self) -> bool {
        &&& keys_unique(self.assets@)
        &&& forall|i: int| 0 <= i < self.assets@.len() ==> asset_wf(#[trigger] self.assets@[i].1)
    }

    /// Whether the asset id is registered.
    pub closed spec fn exists_of(self, id: AssetId) -> bool {
        find(self.assets@, id) is Some
    }

    /// Whether the asset is eligible for new grants.
    pub closed spec fn in_using_of(self, id: AssetId) -> bool {
        match find(self.assets@, id) {
            Some(st) => st.in_using,
            None => false,
        }
    }

    /// Total supply of the asset; an unknown asset has none.
    pub closed spec fn supply_of(self, id: AssetId) -> int {
        match find(self.assets@, id) {
            Some(st) => st.supply as int,
            None => 0,
        }
    }

    /// Balance of `who` in the asset; an unknown asset or holder has none.
    pub closed spec fn balance_of(self, id: AssetId, who: AccountId) -> int {
        match find(self.assets@, id) {
            Some(st) => match find(st.balances@, who) {
                Some(b) => b as int,
                None => 0,
            },
            None => 0,
        }
    }

    /// An empty registry.
    pub fn new() -> (a: Assets)
        ensures
            a.wf(),
            forall|id: AssetId| !a.exists_of(id),
    {
        Assets { assets: Vec::new() }
    }

    /// Register a new asset id with its in-use flag, no supply and no
    /// holders.  Fails exactly when the id is taken.
    pub fn register(&mut self, id: AssetId, in_using: bool) -> (r: Result<(), Error>)
        requires
            old(self).wf(),
        ensures
            final(self).wf(),
            match r {
                Ok(()) => {
                    &&& !old(self).exists_of(id)
                    &&& final(self).exists_of(id)
                    &&& final(self).in_using_of(id) == in_using
                    &&& final(self).supply_of(id) == 0
                    &&& forall|w: AccountId| final(self).balance_of(id, w) == 0
                    &&& forall|id2: AssetId|
                        id2 != id ==> final(self).exists_of(id2) == old(self).exists_of(id2)
                            && final(self).in_using_of(id2) == old(self).in_using_of(id2)
                            && final(self).supply_of(id2) == old(self).supply_of(id2)
                    &&& forall|id2: AssetId, w: AccountId|
                        id2 != id ==> final(self).balance_of(id2, w) == old(self).balance_of(
                            id2,
                            w,
                        )
                },
                Err(e) => {
                    &&& e == Error::AlreadyExists
                    &&& old(self).exists_of(id)
                    &&& *final(self) == *old(self)
                },
            },
    {
        match find_index(&self.assets, id) {
            Some(_) => Err(Error::AlreadyExists),
            None => {
                let ghost pre = self.assets@;
                let fresh = AssetState { in_using, supply: 0, balances: Vec::new() };
                self.assets.push((id, fresh));
                proof {
                    lemma_find_push(pre, id, fresh);
                }
                Ok(())
            },
        }
    }

    /// Flip the in-use flag.  Fails exactly when the asset is not registered.
    pub fn set_in_using(&mut self, id: AssetId, flag: bool) -> (r: Result<(), Error>)
        requires
            old(self).wf(),
        ensures
            final(self).wf(),
            match r {
                Ok(()) => {
                    &&& old(self).exists_of(id)
                    &&& final(self).in_using_of(id) == flag
                    &&& final(self).exists_of(id)
                    &&& final(self).supply_of(id) == old(self).supply_of(id)
                    &&& forall|w: AccountId|
                        final(self).balance_of(id, w) == old(self).balance_of(id, w)
                    &&& forall|id2: AssetId|
                        id2 != id ==> final(self).exists_of(id2) == old(self).exists_of(id2)
                            && final(self).in_using_of(id2) == old(self).in_using_of(id2)
                            && final(self).supply_of(id2) == old(self).supply_of(id2)
                    &&& forall|id2: AssetId, w: AccountId|
                        id2 != id ==> final(self).balance_of(id2, w) == old(self).balance_of(
                            id2,
                            w,
                        )
                },
                Err(e) => {
                    &&& e == Error::AssetUnavailable
                    &&& !old(self).exists_of(id)
                    &&& *final(self) == *old(self)
                },
            },
    {
        match find_index(&self.assets, id) {
            Some(i) => {
                let ghost pre = self.assets@;
                let (key, mut st) = self.assets.remove(i);
                st.in_using = flag;
                self.assets.insert(i, (key, st));
                proof {
                    assert(self.assets@ =~= pre.update(i as int, (key, st)));
                    lemma_find_update(pre, i as int, st);
                }
                Ok(())
            },
            None => Err(Error::AssetUnavailable),
        }
    }

    /// Whether the asset is eligible for new grants.
    pub fn is_in_using(&self, id: AssetId) -> (r: bool)
        ensures
            r == self.in_using_of(id),
    {
        match find_index(&self.assets, id) {
            Some(i) => self.assets[i].1.in_using,
            None => false,
        }
    }

    /// Total supply of the asset.
    pub fn supply(&self, id: AssetId) -> (r: Balance)
        ensures
            r == self.supply_of(id),
    {
        match find_index(&self.assets, id) {
            Some(i) => self.assets[i].1.supply,
            None => 0,
        }
    }

    /// Balance of `who` in the asset.
    pub fn balance(&self, id: AssetId, who: AccountId) -> (r: Balance)
        ensures
            r == self.balance_of(id, who),
    {
        match find_index(&self.assets, id) {
            Some(i) => match find_index(&self.assets[i].1.balances, who) {
                Some(j) => self.assets[i].1.balances[j].1,
                None => 0,
            },
            None => 0,
        }
    }

    /// Mint `amount` of the asset to `who`: the supply and the holder's
    /// balance both grow by `amount`, atomically.  Fails on an asset that
    /// is not registered, or when the supply would no longer fit in a
    /// `Balance`.
    pub fn mint(&mut self, id: AssetId, who: AccountId, amount: Balance) -> (r: Result<(), Error>)
        requires
            old(self).wf(),
        ensures
            final(self).wf(),
            r is Ok <==> old(self).exists_of(id) && old(self).supply_of(id) + amount
                <= Balance::MAX,
            match r {
                Ok(()) => {
                    &&& final(self).supply_of(id) == old(self).supply_of(id) + amount
                    &&& final(self).balance_of(id, who) == old(self).balance_of(id, who) + amount
                    &&& final(self).exists_of(id)
                    &&& final(self).in_using_of(id) == old(self).in_using_of(id)
                    &&& forall|w: AccountId|
                        w != who ==> final(self).balance_of(id, w) == old(self).balance_of(id, w)
                    &&& forall|id2: AssetId|
                        id2 != id ==> final(self).exists_of(id2) == old(self).exists_of(id2)
                            && final(self).in_using_of(id2) == old(self).in_using_of(id2)
                            && final(self).supply_of(id2) == old(self).supply_of(id2)
                    &&& forall|id2: AssetId, w: AccountId|
                        id2 != id ==> final(self).balance_of(id2, w) == old(self).balance_of(
                            id2,
                            w,
                        )
                },
                Err(e) => {
                    &&& e == if old(self).exists_of(id) {
                        Error::Overflow
                    } else {
                        Error::AssetUnavailable
                    }
                    &&& *final(self) == *old(self)
                },
            },
    {
        match find_index(&self.assets, id) {
            Some(i) => {
                if amount > Balance::MAX - self.assets[i].1.supply {
                    return Err(Error::Overflow);
                }
                let ghost pre = self.assets@;
                let (key, mut st) = self.assets.remove(i);
                let ghost pre_st = st;
                st.supply = st.supply + amount;
                match find_index(&st.balances, who) {
                    Some(j) => {
                        let ghost pre_b = st.balances@;
                        let b = st.balances[j].1;
                        st.balances[j] = (who, b + amount);
                        proof {
                            lemma_find_update(pre_b, j as int, (b + amount) as u64);
                        }
                    },
                    None => {
                        let ghost pre_b = st.balances@;
                        st.balances.push((who, amount));
                        proof {
                            lemma_find_push(pre_b, who, amount);
                        }
                    },
                }
                self.assets.insert(i, (key, st));
                proof {
                    assert(self.assets@ =~= pre.update(i as int, (key, st)));
                    lemma_find_update(pre, i as int, st);
                }
                Ok(())
            },
            None => Err(Error::AssetUnavailable),
        }
    }

    /// Whether minting the whole grant total of `a` on top of `supply`
    /// would pass the `Balance` limit.
    fn grant_total_exceeds(grants: &Vec<(AssetId, Balance)>, a: AssetId, supply: Balance) -> (r:
        bool)
        ensures
            r == (supply + amount_for(grants@, a) > Balance::MAX),
    {
        let n = grants.len();
        let mut acc: u128 = 0;
        let mut j: usize = 0;
        while j < n
            invariant
                n == grants@.len(),
                0 <= j <= n,
                acc + amount_from(grants@, a, j as int) == amount_for(grants@, a),
                acc <= Balance::MAX,
            decreases n - j,
        {
            if grants[j].0 == a {
                acc = acc + grants[j].1 as u128;
                if acc > Balance::MAX as u128 {
                    proof {
                        lemma_amount_from_nonneg(grants@, a, j + 1);
                    }
                    return true;
                }
            }
            j = j + 1;
        }
        (supply as u128) + acc > Balance::MAX as u128
    }

    /// First reason the batch would fail, or nothing if it is feasible.
    pub fn batch_validate(&self, grants: &Vec<(AssetId, Balance)>) -> (r: Option<Error>)
        ensures
            r == batch_check(*self, grants@, 0),
    {
        let n = grants.len();
        let mut i: usize = 0;
        while i < n
            invariant
                n == grants@.len(),
                0 <= i <= n,
                batch_check(*self, grants@, 0) == batch_check(*self, grants@, i as int),
            decreases n - i,
        {
            let a = grants[i].0;
            match find_index(&self.assets, a) {
                None => {
                    return Some(Error::AssetUnavailable);
                },
                Some(idx) => {
                    let supply = self.assets[idx].1.supply;
                    if Self::grant_total_exceeds(grants, a, supply) {
                        return Some(Error::Overflow);
                    }
                },
            }
            i = i + 1;
        }
        None
    }

    /// Mint every entry of a grant table to `who`, or nothing: the batch is
    /// validated first, so a failing entry leaves the registry untouched.
    /// On success each asset's supply and the beneficiary's balance grow by
    /// the asset's total granted amount.
    pub fn mint_batch(&mut self, grants: &Vec<(AssetId, Balance)>, who: AccountId) -> (r: Result<
        (),
        Error,
    >)
        requires
            old(self).wf(),
        ensures
            final(self).wf(),
            r is Ok <==> batch_check(*old(self), grants@, 0) is None,
            match r {
                Ok(()) => batch_minted(*old(self), *final(self), grants@, who),
                Err(e) => {
                    &&& Some(e) == batch_check(*old(self), grants@, 0)
                    &&& *final(self) == *old(self)
                },
            },
    {
        if let Some(e) = self.batch_validate(grants) {
            return Err(e);
        }
        let ghost orig = *self;
        let n = grants.len();
        let mut i: usize = 0;
        while i < n
            invariant
                self.wf(),
                n == grants@.len(),
                0 <= i <= n,
                batch_check(orig, grants@, 0) is None,
                forall|a: AssetId| #[trigger]
                    self.supply_of(a) == orig.supply_of(a) + amount_upto(grants@, a, i as int),
                forall|a: AssetId| #[trigger]
                    self.balance_of(a, who) == orig.balance_of(a, who) + amount_upto(
                        grants@,
                        a,
                        i as int,
                    ),
                forall|a: AssetId, w: AccountId|
                    w != who ==> #[trigger] self.balance_of(a, w) == orig.balance_of(a, w),
                forall|a: AssetId| #[trigger]
                    self.exists_of(a) == orig.exists_of(a) && self.in_using_of(a)
                        == orig.in_using_of(a),
            decreases n - i,
        {
            let a = grants[i].0;
            let amount = grants[i].1;
            proof {
                lemma_batch_check_none(orig, grants@, 0, i as int);
                lemma_amount_split(grants@, a, i as int);
                lemma_amount_split(grants@, a, (i + 1) as int);
                lemma_amount_from_nonneg(grants@, a, i + 1);
                lemma_amount_upto_nonneg(grants@, a, i as int);
            }
            let r = self.mint(a, who, amount);
            proof {
                assert(r is Ok);
                assert forall|a2: AssetId|
                    amount_upto(grants@, a2, (i + 1) as int) == amount_upto(grants@, a2, i as int)
                        + (if grants@[i as int].0 == a2 {
                        grants@[i as int].1 as int
                    } else {
                        0
                    }) by {}
            }
            i = i + 1;
        }
        proof {
            assert forall|a: AssetId|
                (#[trigger] self.supply_of(a)) == orig.supply_of(a) + amount_for(grants@, a) by {
                lemma_amount_split(grants@, a, n as int);
                assert(amount_from(grants@, a, n as int) == 0);
            }
            assert forall|a: AssetId|
                (#[trigger] self.balance_of(a, who)) == orig.balance_of(a, who) + amount_for(
                    grants@,
                    a,
                ) by {
                lemma_amount_split(grants@, a, n as int);
                assert(amount_from(grants@, a, n as int) == 0);
            }
            assert(batch_minted(orig, *self, grants@, who));
        }
        Ok(())
    }
}

proof fn lemma_amount_upto_nonneg(grants: Seq<(AssetId, Balance)>, a: AssetId, i: int)
    ensures
        amount_upto(grants, a, i) >= 0,
    decreases i,
{
    if i > 0 {
        lemma_amount_upto_nonneg(grants, a, i - 1);
    }
}

} // verus!
