//! The dungeon marketplace engine: the dungeon registry, the ticket booking
//! service and the lifecycle state machine, sharing one persistent store
//! with the currency ledger and the asset registry as collaborators.
//!
//! Every operation is serialized and atomic: all validation happens before
//! the first ledger effect, and a failing operation leaves the whole engine
//! exactly as it was.

use vstd::prelude::*;
use crate::assets::{Assets, batch_check, batch_minted};
use crate::dungeon::{DungeonInfo, DungeonInfoV, DungeonInstance, DungeonInstanceV, check_ranks,
    copy_items, lemma_reward_le_pct, lookup_reward, ranks_valid, reward_for, with_status};
use crate::hashing::{bytes_eq, derive_ticket_id, ticket_id_of};
use crate::ledger::Ledger;
use crate::primitives::{AccountId, AssetId, Balance, DungeonId, DungeonInstanceStatus, Error,
    Event, OutcomeKind, Time};
use crate::store;

verus! {

/// First instance bound to ticket id `key` in `s[i..]`, as its abstract
/// value.
pub open spec fn inst_find_from(
    s: Seq<(Vec<u8>, DungeonInstance)>,
    key: Seq<u8>,
    i: int,
) -> Option<DungeonInstanceV>
    decreases s.len() - i,
{
    if i < 0 || i >= s.len() {
        None
    } else if s[i].0@ == key {
        Some(s[i].1@)
    } else {
        inst_find_from(s, key, i + 1)
    }
}

/// No two slots bind the same ticket id.
pub open spec fn inst_keys_unique(s: Seq<(Vec<u8>, DungeonInstance)>) -> bool {
    forall|i: int, j: int| 0 <= i < j < s.len() ==> s[i].0@ != s[j].0@
}

proof fn lemma_inst_find_skip_prefix(s: Seq<(Vec<u8>, DungeonInstance)>, key: Seq<u8>, i: int)
    requires
        0 <= i <= s.len(),
        forall|k: int| 0 <= k < i ==> s[k].0@ != key,
    ensures
        inst_find_from(s, key, 0) == inst_find_from(s, key, i),
    decreases i,
{
    if i > 0 {
        lemma_inst_find_skip_prefix(s, key, i - 1);
    }
}

proof fn lemma_inst_find_none(s: Seq<(Vec<u8>, DungeonInstance)>, key: Seq<u8>, i: int)
    requires
        0 <= i <= s.len(),
    ensures
        inst_find_from(s, key, i) is None <==> (forall|k: int|
            i <= k < s.len() ==> s[k].0@ != key),
    decreases s.len() - i,
{
    if i < s.len() {
        lemma_inst_find_none(s, key, i + 1);
    }
}

proof fn lemma_inst_find_update_rec(
    s: Seq<(Vec<u8>, DungeonInstance)>,
    i: int,
    e: (Vec<u8>, DungeonInstance),
    key: Seq<u8>,
    j: int,
)
    requires
        inst_keys_unique(s),
        0 <= i < s.len(),
        e.0@ == s[i].0@,
        0 <= j <= s.len(),
    ensures
        inst_find_from(s.update(i, e), key, j) == if key == s[i].0@ {
            if j <= i {
                Some(e.1@)
            } else {
                inst_find_from(s, key, j)
            }
        } else {
            inst_find_from(s, key, j)
        },
    decreases s.len() - j,
{
    if j < s.len() {
        lemma_inst_find_update_rec(s, i, e, key, j + 1);
    }
}

/// Replacing slot `i` by an entry with the same ticket id rebinds that id
/// and no other; ids stay unique.
proof fn lemma_inst_find_update(
    s: Seq<(Vec<u8>, DungeonInstance)>,
    i: int,
    e: (Vec<u8>, DungeonInstance),
)
    requires
        inst_keys_unique(s),
        0 <= i < s.len(),
        e.0@ == s[i].0@,
    ensures
        inst_find_from(s.update(i, e), s[i].0@, 0) == Some(e.1@),
        forall|key: Seq<u8>|
            key != s[i].0@ ==> inst_find_from(s.update(i, e), key, 0) == inst_find_from(s, key, 0),
        inst_keys_unique(s.update(i, e)),
{
    lemma_inst_find_update_rec(s, i, e, s[i].0@, 0);
    assert forall|key: Seq<u8>| key != s[i].0@ implies inst_find_from(s.update(i, e), key, 0)
        == inst_find_from(s, key, 0) by {
        lemma_inst_find_update_rec(s, i, e, key, 0);
    }
}

proof fn lemma_inst_find_push_rec(
    s: Seq<(Vec<u8>, DungeonInstance)>,
    e: (Vec<u8>, DungeonInstance),
    key: Seq<u8>,
    j: int,
)
    requires
        0 <= j <= s.len(),
    ensures
        inst_find_from(s.push(e), key, j) == if inst_find_from(s, key, j) is Some {
            inst_find_from(s, key, j)
        } else if key == e.0@ {
            Some(e.1@)
        } else {
            None
        },
    decreases s.len() - j,
{
    if j < s.len() {
        lemma_inst_find_push_rec(s, e, key, j + 1);
    } else {
        assert(inst_find_from(s.push(e), key, j + 1) is None);
    }
}

/// Appending an entry with a fresh ticket id binds that id and no other;
/// ids stay unique.
proof fn lemma_inst_find_push(s: Seq<(Vec<u8>, DungeonInstance)>, e: (Vec<u8>, DungeonInstance))
    requires
        inst_keys_unique(s),
        inst_find_from(s, e.0@, 0) is None,
    ensures
        inst_find_from(s.push(e), e.0@, 0) == Some(e.1@),
        forall|key: Seq<u8>|
            key != e.0@ ==> inst_find_from(s.push(e), key, 0) == inst_find_from(s, key, 0),
        inst_keys_unique(s.push(e)),
{
    lemma_inst_find_push_rec(s, e, e.0@, 0);
    assert forall|key: Seq<u8>| key != e.0@ implies inst_find_from(s.push(e), key, 0)
        == inst_find_from(s, key, 0) by {
        lemma_inst_find_push_rec(s, e, key, 0);
    }
    lemma_inst_find_none(s, e.0@, 0);
    assert forall|i: int, j: int|
        0 <= i < j < s.push(e).len() implies s.push(e)[i].0@ != s.push(e)[j].0@ by {
        if j == s.len() {
            assert(s[i].0@ != e.0@);
        }
    }
}

/// What one stored instance demands of its player's held balance: a booked
/// instance holds its captured price, any other holds nothing.
pub open spec fn booked_hold(e: (Vec<u8>, DungeonInstance), w: AccountId) -> int {
    if e.1.player == w && e.1.status is Booked {
        e.1.ticket_price as int
    } else {
        0
    }
}

/// Total held price demanded of account `w` by the instances in `s[i..]`.
pub open spec fn booked_sum(s: Seq<(Vec<u8>, DungeonInstance)>, w: AccountId, i: int) -> int
    decreases s.len() - i,
{
    if i < 0 || i >= s.len() {
        0
    } else {
        booked_hold(s[i], w) + booked_sum(s, w, i + 1)
    }
}

proof fn lemma_booked_sum_nonneg(s: Seq<(Vec<u8>, DungeonInstance)>, w: AccountId, i: int)
    ensures
        booked_sum(s, w, i) >= 0,
    decreases s.len() - i,
{
    if 0 <= i < s.len() {
        lemma_booked_sum_nonneg(s, w, i + 1);
    }
}

proof fn lemma_booked_sum_elem(s: Seq<(Vec<u8>, DungeonInstance)>, w: AccountId, i: int, j: int)
    requires
        0 <= j <= i < s.len(),
    ensures
        booked_sum(s, w, j) >= booked_hold(s[i], w),
    decreases i - j,
{
    if j < i {
        lemma_booked_sum_elem(s, w, i, j + 1);
        lemma_booked_sum_nonneg(s, w, j + 1);
    } else {
        lemma_booked_sum_nonneg(s, w, j + 1);
    }
}

proof fn lemma_booked_sum_push(
    s: Seq<(Vec<u8>, DungeonInstance)>,
    e: (Vec<u8>, DungeonInstance),
    w: AccountId,
    j: int,
)
    requires
        0 <= j <= s.len(),
    ensures
        booked_sum(s.push(e), w, j) == booked_sum(s, w, j) + booked_hold(e, w),
    decreases s.len() - j,
{
    if j < s.len() {
        lemma_booked_sum_push(s, e, w, j + 1);
    } else {
        assert(booked_sum(s.push(e), w, j + 1) == 0);
    }
}

proof fn lemma_booked_sum_update(
    s: Seq<(Vec<u8>, DungeonInstance)>,
    i: int,
    e: (Vec<u8>, DungeonInstance),
    w: AccountId,
    j: int,
)
    requires
        0 <= i < s.len(),
        0 <= j <= s.len(),
    ensures
        booked_sum(s.update(i, e), w, j) == booked_sum(s, w, j) + if j <= i {
            booked_hold(e, w) - booked_hold(s[i], w)
        } else {
            0
        },
    decreases s.len() - j,
{
    if j < s.len() {
        lemma_booked_sum_update(s, i, e, w, j + 1);
    }
}

/// What the expiry sweep refunds to account `w` at time `now` from the
/// instances in `s[i..]`: the captured price of each of its booked
/// instances whose window has elapsed.
pub open spec fn expired_hold(e: (Vec<u8>, DungeonInstance), w: AccountId, now: Time) -> int {
    match e.1.status {
        DungeonInstanceStatus::Booked { close_due } => if e.1.player == w && now >= close_due {
            e.1.ticket_price as int
        } else {
            0
        },
        _ => 0,
    }
}

/// Total refund owed to account `w` at time `now` by the instances in
/// `s[i..]`.
pub open spec fn expired_sum(s: Seq<(Vec<u8>, DungeonInstance)>, w: AccountId, now: Time, i: int)
    -> int
    decreases s.len() - i,
{
    if i < 0 || i >= s.len() {
        0
    } else {
        expired_hold(s[i], w, now) + expired_sum(s, w, now, i + 1)
    }
}

/// Total refund owed to account `w` at time `now` by the instances in
/// `s[..i]`.
spec fn expired_upto(s: Seq<(Vec<u8>, DungeonInstance)>, w: AccountId, now: Time, i: int) -> int
    decreases i,
{
    if i <= 0 {
        0
    } else {
        expired_upto(s, w, now, i - 1) + expired_hold(s[i - 1], w, now)
    }
}

proof fn lemma_expired_split(s: Seq<(Vec<u8>, DungeonInstance)>, w: AccountId, now: Time, i: int)
    requires
        0 <= i <= s.len(),
    ensures
        expired_upto(s, w, now, i) + expired_sum(s, w, now, i) == expired_sum(s, w, now, 0),
    decreases i,
{
    if i > 0 {
        lemma_expired_split(s, w, now, i - 1);
    }
}

/// Where one sweep pass moves a status at time `now`: expired bookings and
/// expired sessions move forward, reported sessions are finalized, and
/// everything else stays put.
pub open spec fn swept_status(st: DungeonInstanceStatus, now: Time) -> DungeonInstanceStatus {
    match st {
        DungeonInstanceStatus::Booked { close_due } => if now >= close_due {
            DungeonInstanceStatus::Closed
        } else {
            st
        },
        DungeonInstanceStatus::Started { server, close_due } => if now >= close_due {
            DungeonInstanceStatus::Ended { server, report_at: now, outcome: OutcomeKind::Timeout }
        } else {
            st
        },
        DungeonInstanceStatus::Ended { .. } => DungeonInstanceStatus::Closed,
        DungeonInstanceStatus::Closed => DungeonInstanceStatus::Closed,
    }
}

/// The reward share of one granted amount: `pct` percent, rounded down.
pub open spec fn scaled_amount(amount: Balance, pct: u8) -> Balance {
    ((amount * pct) / 100) as Balance
}

/// The grant table scaled to a reward percentage, entry by entry.
pub open spec fn scaled_grants(grants: Seq<(AssetId, Balance)>, pct: u8) -> Seq<
    (AssetId, Balance),
> {
    grants.map_values(|g: (AssetId, Balance)| (g.0, scaled_amount(g.1, pct)))
}

/// Every asset a grant table references is currently in use.
pub open spec fn all_in_using(assets: Assets, grants: Seq<(AssetId, Balance)>) -> bool {
    forall|k: int| 0 <= k < grants.len() ==> assets.in_using_of((#[trigger] grants[k]).0)
}

/// The lifecycle law: no operation ever drops an instance, and each
/// instance's status either stays put or moves strictly later in the
/// `Booked`, `Started`, `Ended`, `Closed` order — never backwards and never
/// to the same stage under a different guise.
pub open spec fn statuses_forward(pre: Engine, post: Engine) -> bool {
    forall|t: Seq<u8>|
        #![trigger post.instance_of(t)]
        match pre.instance_of(t) {
            Some(iv) => match post.instance_of(t) {
                Some(iv2) => iv2.status == iv.status || iv2.status.rank() > iv.status.rank(),
                None => false,
            },
            None => true,
        }
}

/// The engine's configuration never changes after construction.
pub open spec fn config_kept(pre: Engine, post: Engine) -> bool {
    &&& post.managers == pre.managers
    &&& post.closing_gap == pre.closing_gap
    &&& post.playing_gap == pre.playing_gap
    &&& post.seed == pre.seed
}

/// The notification log grew by `n` entries and kept the old ones.
pub open spec fn events_appended(pre: Engine, post: Engine, n: int) -> bool {
    &&& post.events@.len() == pre.events@.len() + n
    &&& forall|k: int| 0 <= k < pre.events@.len() ==> post.events@[k] == pre.events@[k]
}

/// The dungeon marketplace engine.
pub struct Engine {
    /// Dungeon definitions by dungeon id.
    pub dungeons: Vec<(DungeonId, DungeonInfo)>,
    /// Dungeon instances by ticket id.
    pub instances: Vec<(Vec<u8>, DungeonInstance)>,
    /// The currency ledger.
    pub ledger: Ledger,
    /// The fungible-asset registry.
    pub assets: Assets,
    /// Accounts allowed to mutate the dungeon registry.
    pub managers: Vec<AccountId>,
    /// Window between booking and the claim deadline.
    pub closing_gap: Time,
    /// Window between start and the report deadline.
    pub playing_gap: Time,
    /// Current logical time, advanced by the host.
    pub now: Time,
    /// Count of bookings ever made, part of each ticket id's material.
    pub nonce: u64,
    /// Host-provided randomness mixed into every ticket id.
    pub seed: u64,
    /// Change notifications in the order the changes happened.
    pub events: Vec<Event>,
}

impl Engine {
    /// Stores keyed uniquely, every distribution table valid, every ticket
    /// id a digest, and the collaborators well formed.
    pub open spec fn wf(self) -> bool {
        &&& store::keys_unique(self.dungeons@)
        &&& forall|i: int|
            0 <= i < self.dungeons@.len() ==> ranks_valid(
                (#[trigger] self.dungeons@[i]).1.report_ranks@,
            )
        &&& inst_keys_unique(self.instances@)
        &&& forall|i: int|
            0 <= i < self.instances@.len() ==> (#[trigger] self.instances@[i]).0@.len() == 32
                && ranks_valid(self.instances@[i].1.report_ranks@)
        &&& self.ledger.wf()
        &&& self.assets.wf()
        &&& self.holds_covered()
    }

    /// Balance conservation: every account's held balance covers the
    /// captured prices of all of its booked instances, so each of them can
    /// settle or be refunded in full.
    pub open spec fn holds_covered(self) -> bool {
        forall|w: AccountId|
            self.ledger.reserved_of(w) >= #[trigger] booked_sum(self.instances@, w, 0)
    }

    /// The definition stored for a dungeon id.
    pub open spec fn dungeon_of(self, id: DungeonId) -> Option<DungeonInfoV> {
        match store::find(self.dungeons@, id) {
            Some(d) => Some(d@),
            None => None,
        }
    }

    /// The instance stored for a ticket id.
    pub open spec fn instance_of(self, t: Seq<u8>) -> Option<DungeonInstanceV> {
        inst_find_from(self.instances@, t, 0)
    }

    /// Whether `who` may mutate the dungeon registry.
    pub open spec fn spec_is_manager(self, who: AccountId) -> bool {
        self.managers@.contains(who)
    }

    /// A fresh engine: empty stores, an empty ledger with the given
    /// existential minimum, time zero.
    pub fn new(
        managers: Vec<AccountId>,
        closing_gap: Time,
        playing_gap: Time,
        min_balance: Balance,
        seed: u64,
    ) -> (e: Engine)
        ensures
            e.wf(),
            e.managers@ == managers@,
            e.closing_gap == closing_gap,
            e.playing_gap == playing_gap,
            e.now == 0,
            e.nonce == 0,
            e.seed == seed,
            e.events@.len() == 0,
            e.dungeons@.len() == 0,
            e.instances@.len() == 0,
            forall|id: DungeonId| e.dungeon_of(id) is None,
            forall|t: Seq<u8>| e.instance_of(t) is None,
            forall|w: AccountId| e.ledger.free_of(w) == 0 && e.ledger.reserved_of(w) == 0,
            e.ledger.total() == 0,
            e.ledger.spec_min_balance() == min_balance,
            forall|a: AssetId| !e.assets.exists_of(a),
    {
        Engine {
            dungeons: Vec::new(),
            instances: Vec::new(),
            ledger: Ledger::new(min_balance),
            assets: Assets::new(),
            managers,
            closing_gap,
            playing_gap,
            now: 0,
            nonce: 0,
            seed,
            events: Vec::new(),
        }
    }

    /// Whether `who` may mutate the dungeon registry.
    pub fn is_manager(&self, who: AccountId) -> (r: bool)
        ensures
            r == self.spec_is_manager(who),
    {
        let n = self.managers.len();
        let mut i: usize = 0;
        while i < n
            invariant
                n == self.managers@.len(),
                0 <= i <= n,
                forall|k: int| 0 <= k < i ==> self.managers@[k] != who,
            decreases n - i,
        {
            if self.managers[i] == who {
                return true;
            }
            i = i + 1;
        }
        false
    }

    /// Advance the logical clock.  Time never moves backwards.
    pub fn advance_time(&mut self, now: Time)
        requires
            old(self).wf(),
            now >= old(self).now,
        ensures
            final(self).wf(),
            final(self).now == now,
            *final(self) == (Engine { now, ..*old(self) }),
    {
        self.now = now;
    }

    /// Issue currency to an account, as the host's genesis or faucet.
    pub fn endow(&mut self, who: AccountId, amount: Balance) -> (r: Result<(), Error>)
        requires
            old(self).wf(),
        ensures
            final(self).wf(),
            config_kept(*old(self), *final(self)),
            final(self).dungeons == old(self).dungeons,
            final(self).instances == old(self).instances,
            final(self).assets == old(self).assets,
            final(self).events == old(self).events,
            final(self).now == old(self).now,
            final(self).nonce == old(self).nonce,
            final(self).ledger.spec_min_balance() == old(self).ledger.spec_min_balance(),
            match r {
                Ok(()) => {
                    &&& final(self).ledger.free_of(who) == old(self).ledger.free_of(who) + amount
                    &&& final(self).ledger.total() == old(self).ledger.total() + amount
                    &&& forall|w: AccountId|
                        w != who ==> final(self).ledger.free_of(w) == old(self).ledger.free_of(w)
                    &&& forall|w: AccountId|
                        final(self).ledger.reserved_of(w) == old(self).ledger.reserved_of(w)
                },
                Err(e) => {
                    &&& e == Error::Overflow
                    &&& old(self).ledger.total() + amount > Balance::MAX
                    &&& *final(self) == *old(self)
                },
            },
    {
        self.ledger.endow(who, amount)
    }

    /// Register an asset with the collaborating registry.
    pub fn register_asset(&mut self, id: AssetId, in_using: bool) -> (r: Result<(), Error>)
        requires
            old(self).wf(),
        ensures
            final(self).wf(),
            config_kept(*old(self), *final(self)),
            final(self).dungeons == old(self).dungeons,
            final(self).instances == old(self).instances,
            final(self).ledger == old(self).ledger,
            final(self).events == old(self).events,
            final(self).now == old(self).now,
            final(self).nonce == old(self).nonce,
            match r {
                Ok(()) => {
                    &&& !old(self).assets.exists_of(id)
                    &&& final(self).assets.exists_of(id)
                    &&& final(self).assets.in_using_of(id) == in_using
                    &&& final(self).assets.supply_of(id) == 0
                    &&& forall|w: AccountId| final(self).assets.balance_of(id, w) == 0
                    &&& forall|a: AssetId|
                        a != id ==> final(self).assets.exists_of(a) == old(self).assets.exists_of(
                            a,
                        ) && final(self).assets.in_using_of(a) == old(self).assets.in_using_of(a)
                            && final(self).assets.supply_of(a) == old(self).assets.supply_of(a)
                    &&& forall|a: AssetId, w: AccountId|
                        a != id ==> final(self).assets.balance_of(a, w) == old(
                            self,
                        ).assets.balance_of(a, w)
                },
                Err(e) => {
                    &&& e == Error::AlreadyExists
                    &&& old(self).assets.exists_of(id)
                    &&& *final(self) == *old(self)
                },
            },
    {
        self.assets.register(id, in_using)
    }

    /// Flip an asset's in-use flag in the collaborating registry.
    pub fn set_asset_in_using(&mut self, id: AssetId, flag: bool) -> (r: Result<(), Error>)
        requires
            old(self).wf(),
        ensures
            final(self).wf(),
            config_kept(*old(self), *final(self)),
            final(self).dungeons == old(self).dungeons,
            final(self).instances == old(self).instances,
            final(self).ledger == old(self).ledger,
            final(self).events == old(self).events,
            final(self).now == old(self).now,
            final(self).nonce == old(self).nonce,
            match r {
                Ok(()) => {
                    &&& old(self).assets.exists_of(id)
                    &&& final(self).assets.in_using_of(id) == flag
                },
                Err(e) => {
                    &&& e == Error::AssetUnavailable
                    &&& !old(self).assets.exists_of(id)
                    &&& *final(self) == *old(self)
                },
            },
    {
        self.assets.set_in_using(id, flag)
    }

    /// Whether every asset in the table is currently in use.
    fn check_all_in_using(&self, grants: &Vec<(AssetId, Balance)>) -> (r: bool)
        ensures
            r == all_in_using(self.assets, grants@),
    {
        let n = grants.len();
        let mut i: usize = 0;
        while i < n
            invariant
                n == grants@.len(),
                0 <= i <= n,
                forall|k: int| 0 <= k < i ==> self.assets.in_using_of((#[trigger] grants@[k]).0),
            decreases n - i,
        {
            if !self.assets.is_in_using(grants[i].0) {
                return false;
            }
            i = i + 1;
        }
        true
    }

    /// Create a new dungeon definition.  The caller must be a manager, the
    /// id must be fresh and every granted asset must be in use; the new
    /// definition starts with an empty distribution table.
    pub fn create(
        &mut self,
        caller: AccountId,
        id: DungeonId,
        ticket_price: Balance,
        provide_assets: Vec<(AssetId, Balance)>,
    ) -> (r: Result<(), Error>)
        requires
            old(self).wf(),
        ensures
            final(self).wf(),
            config_kept(*old(self), *final(self)),
            match r {
                Ok(()) => {
                    &&& old(self).spec_is_manager(caller)
                    &&& old(self).dungeon_of(id) is None
                    &&& all_in_using(old(self).assets, provide_assets@)
                    &&& final(self).dungeon_of(id) matches Some(d) && d.ticket_price
                        == ticket_price && d.provide_assets == provide_assets@ && d.report_ranks
                        == Seq::<(OutcomeKind, u8)>::empty()
                    &&& forall|id2: DungeonId|
                        id2 != id ==> final(self).dungeon_of(id2) == old(self).dungeon_of(id2)
                    &&& final(self).instances == old(self).instances
                    &&& final(self).ledger == old(self).ledger
                    &&& final(self).assets == old(self).assets
                    &&& final(self).now == old(self).now
                    &&& final(self).nonce == old(self).nonce
                    &&& events_appended(*old(self), *final(self), 1)
                    &&& final(self).events@.last() matches Event::DungeonCreated {
                        dungeon_id,
                        ticket_price: p,
                    } && dungeon_id == id && p == ticket_price
                },
                Err(e) => {
                    &&& *final(self) == *old(self)
                    &&& e == if !old(self).spec_is_manager(caller) {
                        Error::Unauthorized
                    } else if old(self).dungeon_of(id) is Some {
                        Error::AlreadyExists
                    } else {
                        Error::AssetUnavailable
                    }
                    &&& !(old(self).spec_is_manager(caller) && old(self).dungeon_of(id) is None
                        && all_in_using(old(self).assets, provide_assets@))
                },
            },
    {
        if !self.is_manager(caller) {
            return Err(Error::Unauthorized);
        }
        if let Some(_) = store::find_index(&self.dungeons, id) {
            return Err(Error::AlreadyExists);
        }
        if !self.check_all_in_using(&provide_assets) {
            return Err(Error::AssetUnavailable);
        }
        let ghost pre = self.dungeons@;
        let info = DungeonInfo { ticket_price, provide_assets, report_ranks: Vec::new() };
        self.dungeons.push((id, info));
        proof {
            store::lemma_find_push(pre, id, info);
        }
        self.events.push(Event::DungeonCreated { dungeon_id: id, ticket_price });
        Ok(())
    }

    /// Change a dungeon's ticket price.  Manager-only; instances already
    /// booked keep the price captured at booking time.
    pub fn modify_price(&mut self, caller: AccountId, id: DungeonId, ticket_price: Balance) -> (r:
        Result<(), Error>)
        requires
            old(self).wf(),
        ensures
            final(self).wf(),
            config_kept(*old(self), *final(self)),
            match r {
                Ok(()) => {
                    &&& old(self).spec_is_manager(caller)
                    &&& old(self).dungeon_of(id) is Some
                    &&& final(self).dungeon_of(id) matches Some(d) && d.ticket_price
                        == ticket_price && d.provide_assets == old(
                        self,
                    ).dungeon_of(id)->Some_0.provide_assets && d.report_ranks == old(
                        self,
                    ).dungeon_of(id)->Some_0.report_ranks
                    &&& forall|id2: DungeonId|
                        id2 != id ==> final(self).dungeon_of(id2) == old(self).dungeon_of(id2)
                    &&& final(self).instances == old(self).instances
                    &&& final(self).ledger == old(self).ledger
                    &&& final(self).assets == old(self).assets
                    &&& final(self).now == old(self).now
                    &&& final(self).nonce == old(self).nonce
                    &&& events_appended(*old(self), *final(self), 1)
                    &&& final(self).events@.last() matches Event::DungeonTicketModified {
                        dungeon_id,
                        old_price,
                        new_price,
                    } && dungeon_id == id && old_price == old(self).dungeon_of(
                        id,
                    )->Some_0.ticket_price && new_price == ticket_price
                },
                Err(e) => {
                    &&& *final(self) == *old(self)
                    &&& e == if !old(self).spec_is_manager(caller) {
                        Error::Unauthorized
                    } else {
                        Error::NotFound
                    }
                    &&& !(old(self).spec_is_manager(caller) && old(self).dungeon_of(id) is Some)
                },
            },
    {
        if !self.is_manager(caller) {
            return Err(Error::Unauthorized);
        }
        let i = match store::find_index(&self.dungeons, id) {
            Some(i) => i,
            None => {
                return Err(Error::NotFound);
            },
        };
        let ghost pre = self.dungeons@;
        let (key, mut info) = self.dungeons.remove(i);
        let old_price = info.ticket_price;
        info.ticket_price = ticket_price;
        self.dungeons.insert(i, (key, info));
        proof {
            assert(self.dungeons@ =~= pre.update(i as int, (key, info)));
            store::lemma_find_update(pre, i as int, info);
        }
        self.events.push(
            Event::DungeonTicketModified { dungeon_id: id, old_price, new_price: ticket_price },
        );
        Ok(())
    }

    /// Replace a dungeon's grant table.  Manager-only; instances already
    /// booked keep the table captured at booking time.
    pub fn modify_assets_supply(
        &mut self,
        caller: AccountId,
        id: DungeonId,
        provide_assets: Vec<(AssetId, Balance)>,
    ) -> (r: Result<(), Error>)
        requires
            old(self).wf(),
        ensures
            final(self).wf(),
            config_kept(*old(self), *final(self)),
            match r {
                Ok(()) => {
                    &&& old(self).spec_is_manager(caller)
                    &&& old(self).dungeon_of(id) is Some
                    &&& final(self).dungeon_of(id) matches Some(d) && d.ticket_price == old(
                        self,
                    ).dungeon_of(id)->Some_0.ticket_price && d.provide_assets == provide_assets@
                        && d.report_ranks == old(self).dungeon_of(id)->Some_0.report_ranks
                    &&& forall|id2: DungeonId|
                        id2 != id ==> final(self).dungeon_of(id2) == old(self).dungeon_of(id2)
                    &&& final(self).instances == old(self).instances
                    &&& final(self).ledger == old(self).ledger
                    &&& final(self).assets == old(self).assets
                    &&& final(self).now == old(self).now
                    &&& final(self).nonce == old(self).nonce
                    &&& events_appended(*old(self), *final(self), 1)
                    &&& final(self).events@.last() matches Event::DungeonInfoModified {
                        dungeon_id,
                    } && dungeon_id == id
                },
                Err(e) => {
                    &&& *final(self) == *old(self)
                    &&& e == if !old(self).spec_is_manager(caller) {
                        Error::Unauthorized
                    } else {
                        Error::NotFound
                    }
                    &&& !(old(self).spec_is_manager(caller) && old(self).dungeon_of(id) is Some)
                },
            },
    {
        if !self.is_manager(caller) {
            return Err(Error::Unauthorized);
        }
        let i = match store::find_index(&self.dungeons, id) {
            Some(i) => i,
            None => {
                return Err(Error::NotFound);
            },
        };
        let ghost pre = self.dungeons@;
        let (key, mut info) = self.dungeons.remove(i);
        info.provide_assets = provide_assets;
        self.dungeons.insert(i, (key, info));
        proof {
            assert(self.dungeons@ =~= pre.update(i as int, (key, info)));
            store::lemma_find_update(pre, i as int, info);
        }
        self.events.push(Event::DungeonInfoModified { dungeon_id: id });
        Ok(())
    }

    /// Replace a dungeon's outcome distribution table.  Manager-only; the
    /// table must not grant any outcome more than 100 percent in total.
    pub fn modify_distribution_ratio(
        &mut self,
        caller: AccountId,
        id: DungeonId,
        report_ranks: Vec<(OutcomeKind, u8)>,
    ) -> (r: Result<(), Error>)
        requires
            old(self).wf(),
        ensures
            final(self).wf(),
            config_kept(*old(self), *final(self)),
            match r {
                Ok(()) => {
                    &&& old(self).spec_is_manager(caller)
                    &&& old(self).dungeon_of(id) is Some
                    &&& ranks_valid(report_ranks@)
                    &&& final(self).dungeon_of(id) matches Some(d) && d.ticket_price == old(
                        self,
                    ).dungeon_of(id)->Some_0.ticket_price && d.provide_assets == old(
                        self,
                    ).dungeon_of(id)->Some_0.provide_assets && d.report_ranks == report_ranks@
                    &&& forall|id2: DungeonId|
                        id2 != id ==> final(self).dungeon_of(id2) == old(self).dungeon_of(id2)
                    &&& final(self).instances == old(self).instances
                    &&& final(self).ledger == old(self).ledger
                    &&& final(self).assets == old(self).assets
                    &&& final(self).now == old(self).now
                    &&& final(self).nonce == old(self).nonce
                    &&& events_appended(*old(self), *final(self), 1)
                    &&& final(self).events@.last() matches Event::DungeonReportRanksModified {
                        dungeon_id,
                    } && dungeon_id == id
                },
                Err(e) => {
                    &&& *final(self) == *old(self)
                    &&& e == if !old(self).spec_is_manager(caller) {
                        Error::Unauthorized
                    } else if old(self).dungeon_of(id) is None {
                        Error::NotFound
                    } else {
                        Error::InvalidDistribution
                    }
                    &&& !(old(self).spec_is_manager(caller) && old(self).dungeon_of(id) is Some
                        && ranks_valid(report_ranks@))
                },
            },
    {
        if !self.is_manager(caller) {
            return Err(Error::Unauthorized);
        }
        let i = match store::find_index(&self.dungeons, id) {
            Some(i) => i,
            None => {
                return Err(Error::NotFound);
            },
        };
        if !check_ranks(&report_ranks) {
            return Err(Error::InvalidDistribution);
        }
        let ghost pre = self.dungeons@;
        let (key, mut info) = self.dungeons.remove(i);
        info.report_ranks = report_ranks;
        self.dungeons.insert(i, (key, info));
        proof {
            assert(self.dungeons@ =~= pre.update(i as int, (key, info)));
            store::lemma_find_update(pre, i as int, info);
        }
        self.events.push(Event::DungeonReportRanksModified { dungeon_id: id });
        Ok(())
    }

    /// Index of the instance bound to a ticket id, if any.
    fn inst_index(v: &Vec<(Vec<u8>, DungeonInstance)>, key: &Vec<u8>) -> (r: Option<usize>)
        ensures
            match r {
                Some(i) => i < v.len() && v@[i as int].0@ == key@ && inst_find_from(v@, key@, 0)
                    == Some(v@[i as int].1@),
                None => inst_find_from(v@, key@, 0) is None,
            },
    {
        let n = v.len();
        let mut i: usize = 0;
        while i < n
            invariant
                n == v@.len(),
                0 <= i <= n,
                forall|k: int| 0 <= k < i ==> v@[k].0@ != key@,
            decreases n - i,
        {
            if bytes_eq(&v[i].0, key) {
                proof {
                    lemma_inst_find_skip_prefix(v@, key@, i as int);
                }
                return Some(i);
            }
            i = i + 1;
        }
        proof {
            lemma_inst_find_none(v@, key@, 0);
        }
        None
    }

    /// Buy a ticket for a dungeon: reserve its price from the player, derive
    /// the content-addressed ticket id, and store the instance as `Booked`
    /// with the definition's data captured as of now.  Nothing is reserved
    /// when any check fails.
    pub fn buy_ticket(&mut self, player: AccountId, id: DungeonId) -> (r: Result<Vec<u8>, Error>)
        requires
            old(self).wf(),
        ensures
            final(self).wf(),
            config_kept(*old(self), *final(self)),
            statuses_forward(*old(self), *final(self)),
            ({
                let tid = ticket_id_of(
                    old(self).seed,
                    id,
                    player,
                    old(self).now,
                    old(self).nonce,
                );
                match r {
                    Ok(t) => {
                        let d = old(self).dungeon_of(id)->Some_0;
                        &&& old(self).dungeon_of(id) is Some
                        &&& old(self).now + old(self).closing_gap <= Time::MAX
                        &&& old(self).nonce < u64::MAX
                        &&& old(self).instance_of(tid) is None
                        &&& old(self).ledger.free_of(player) >= d.ticket_price
                        &&& t@ == tid
                        &&& final(self).instance_of(tid) matches Some(iv) && iv.dungeon_id == id
                            && iv.player == player && iv.created_at == old(self).now && iv.status
                            == (DungeonInstanceStatus::Booked {
                            close_due: (old(self).now + old(self).closing_gap) as Time,
                        }) && iv.ticket_price == d.ticket_price && iv.provide_assets
                            == d.provide_assets && iv.report_ranks == d.report_ranks
                        &&& forall|t2: Seq<u8>|
                            t2 != tid ==> final(self).instance_of(t2) == old(self).instance_of(t2)
                        &&& final(self).dungeons == old(self).dungeons
                        &&& final(self).assets == old(self).assets
                        &&& final(self).ledger.reserved_of(player) == old(self).ledger.reserved_of(
                            player,
                        ) + d.ticket_price
                        &&& final(self).ledger.free_of(player) == old(self).ledger.free_of(player)
                            - d.ticket_price
                        &&& forall|w: AccountId|
                            w != player ==> final(self).ledger.free_of(w) == old(
                                self,
                            ).ledger.free_of(w) && final(self).ledger.reserved_of(w) == old(
                                self,
                            ).ledger.reserved_of(w)
                        &&& final(self).ledger.total() == old(self).ledger.total()
                        &&& final(self).ledger.spec_min_balance() == old(
                            self,
                        ).ledger.spec_min_balance()
                        &&& final(self).now == old(self).now
                        &&& final(self).nonce == old(self).nonce + 1
                        &&& events_appended(*old(self), *final(self), 1)
                        &&& final(self).events@.last() matches Event::DungeonTicketBought {
                            dungeon_id,
                            player: p,
                            ticket_id,
                        } && dungeon_id == id && p == player && ticket_id@ == tid
                    },
                    Err(e) => {
                        &&& *final(self) == *old(self)
                        &&& e == if old(self).dungeon_of(id) is None {
                            Error::NotFound
                        } else if old(self).now + old(self).closing_gap > Time::MAX || old(
                            self,
                        ).nonce == u64::MAX {
                            Error::Overflow
                        } else if old(self).instance_of(tid) is Some {
                            Error::Collision
                        } else {
                            Error::InsufficientFunds
                        }
                        &&& !(old(self).dungeon_of(id) is Some && old(self).now + old(
                            self,
                        ).closing_gap <= Time::MAX && old(self).nonce < u64::MAX && old(
                            self,
                        ).instance_of(tid) is None && old(self).ledger.free_of(player) >= old(
                            self,
                        ).dungeon_of(id)->Some_0.ticket_price)
                    },
                }
            }),
    {
        let i = match store::find_index(&self.dungeons, id) {
            Some(i) => i,
            None => {
                return Err(Error::NotFound);
            },
        };
        if self.closing_gap > Time::MAX - self.now || self.nonce == u64::MAX {
            return Err(Error::Overflow);
        }
        let close_due = self.now + self.closing_gap;
        let tid = derive_ticket_id(self.seed, id, player, self.now, self.nonce);
        if let Some(_) = Self::inst_index(&self.instances, &tid) {
            return Err(Error::Collision);
        }
        let price = self.dungeons[i].1.ticket_price;
        if let Err(e) = self.ledger.reserve(player, price) {
            return Err(e);
        }
        let instance = DungeonInstance {
            dungeon_id: id,
            player,
            created_at: self.now,
            status: DungeonInstanceStatus::Booked { close_due },
            ticket_price: price,
            provide_assets: copy_items(&self.dungeons[i].1.provide_assets),
            report_ranks: copy_items(&self.dungeons[i].1.report_ranks),
        };
        let ticket_for_event = copy_items(&tid);
        let ticket_out = copy_items(&tid);
        let ghost pre_instances = self.instances@;
        let ghost new_entry = (tid, instance);
        self.instances.push((tid, instance));
        proof {
            lemma_inst_find_push(pre_instances, new_entry);
            assert forall|k: int|
                0 <= k < self.instances@.len() implies (#[trigger] self.instances@[k]).0@.len()
                == 32 && ranks_valid(self.instances@[k].1.report_ranks@) by {
                if k < pre_instances.len() {
                    assert(self.instances@[k] == pre_instances[k]);
                }
            }
            // the fresh reservation covers exactly what the new booking
            // demands, so every account stays covered
            assert forall|w: AccountId|
                self.ledger.reserved_of(w) >= #[trigger] booked_sum(
                    self.instances@,
                    w,
                    0,
                ) by {
                lemma_booked_sum_push(pre_instances, new_entry, w, 0);
                assert(old(self).ledger.reserved_of(w) >= booked_sum(pre_instances, w, 0));
            }
        }
        self.events.push(
            Event::DungeonTicketBought { dungeon_id: id, player, ticket_id: ticket_for_event },
        );
        self.nonce = self.nonce + 1;
        Ok(ticket_out)
    }

    /// Whether a `start` call on the instance would succeed: it is booked,
    /// its window is open, its deadline and settlement fit, the reserved
    /// price is intact, the keep-alive transfer goes through and every
    /// captured grant can be minted.
    pub open spec fn start_allowed(self, t: Seq<u8>) -> bool {
        match self.instance_of(t) {
            Some(iv) => match iv.status {
                DungeonInstanceStatus::Booked { close_due } => {
                    &&& self.now < close_due
                    &&& self.now + self.playing_gap <= Time::MAX
                    &&& self.ledger.free_of(iv.player) >= self.ledger.spec_min_balance()
                    &&& batch_check(self.assets, iv.provide_assets, 0) is None
                },
                _ => false,
            },
            None => false,
        }
    }

    /// The error a failing `start` call reports, in the order the checks
    /// run.
    pub open spec fn start_error(self, t: Seq<u8>) -> Error {
        match self.instance_of(t) {
            None => Error::NotFound,
            Some(iv) => match iv.status {
                DungeonInstanceStatus::Booked { close_due } => if self.now >= close_due {
                    Error::Expired
                } else if self.now + self.playing_gap > Time::MAX {
                    Error::Overflow
                } else if self.ledger.free_of(iv.player) < self.ledger.spec_min_balance() {
                    Error::InsufficientFunds
                } else {
                    batch_check(self.assets, iv.provide_assets, 0)->Some_0
                },
                _ => Error::WrongState,
            },
        }
    }

    /// Claim a booked instance: move the reserved price from the player to
    /// the server, mint the captured grants to the server, and move the
    /// status to `Started`.  Settlement and transition happen together or
    /// not at all: every check runs before the first ledger effect.
    pub fn start(&mut self, caller: AccountId, ticket_id: &Vec<u8>) -> (r: Result<(), Error>)
        requires
            old(self).wf(),
        ensures
            final(self).wf(),
            config_kept(*old(self), *final(self)),
            statuses_forward(*old(self), *final(self)),
            r is Ok <==> old(self).start_allowed(ticket_id@),
            match r {
                Ok(()) => {
                    let iv = old(self).instance_of(ticket_id@)->Some_0;
                    &&& final(self).instance_of(ticket_id@) == Some(
                        with_status(
                            iv,
                            DungeonInstanceStatus::Started {
                                server: caller,
                                close_due: (old(self).now + old(self).playing_gap) as Time,
                            },
                        ),
                    )
                    &&& forall|t2: Seq<u8>|
                        t2 != ticket_id@ ==> final(self).instance_of(t2) == old(self).instance_of(
                            t2,
                        )
                    &&& final(self).ledger.reserved_of(iv.player) == old(self).ledger.reserved_of(
                        iv.player,
                    ) - iv.ticket_price
                    &&& final(self).ledger.free_of(caller) == old(self).ledger.free_of(caller)
                        + iv.ticket_price
                    &&& caller != iv.player ==> final(self).ledger.free_of(iv.player) == old(
                        self,
                    ).ledger.free_of(iv.player)
                    &&& forall|w: AccountId|
                        w != iv.player ==> final(self).ledger.reserved_of(w) == old(
                            self,
                        ).ledger.reserved_of(w)
                    &&& forall|w: AccountId|
                        w != iv.player && w != caller ==> final(self).ledger.free_of(w) == old(
                            self,
                        ).ledger.free_of(w)
                    &&& final(self).ledger.total() == old(self).ledger.total()
                    &&& final(self).ledger.spec_min_balance() == old(
                        self,
                    ).ledger.spec_min_balance()
                    &&& batch_minted(old(self).assets, final(self).assets, iv.provide_assets, caller)
                    &&& final(self).dungeons == old(self).dungeons
                    &&& final(self).now == old(self).now
                    &&& final(self).nonce == old(self).nonce
                    &&& events_appended(*old(self), *final(self), 1)
                    &&& final(self).events@.last() matches Event::DungeonStarted {
                        dungeon_id,
                        player,
                        server,
                        ticket_id: te,
                    } && dungeon_id == iv.dungeon_id && player == iv.player && server == caller
                        && te@ == ticket_id@
                },
                Err(e) => {
                    &&& *final(self) == *old(self)
                    &&& e == old(self).start_error(ticket_id@)
                },
            },
    {
        let idx = match Self::inst_index(&self.instances, ticket_id) {
            Some(i) => i,
            None => {
                return Err(Error::NotFound);
            },
        };
        let player = self.instances[idx].1.player;
        let price = self.instances[idx].1.ticket_price;
        let close_due = match self.instances[idx].1.status {
            DungeonInstanceStatus::Booked { close_due } => close_due,
            _ => {
                return Err(Error::WrongState);
            },
        };
        if self.now >= close_due {
            return Err(Error::Expired);
        }
        if self.playing_gap > Time::MAX - self.now {
            return Err(Error::Overflow);
        }
        if self.ledger.free_balance(player) < self.ledger.min_balance() {
            return Err(Error::InsufficientFunds);
        }
        let grants = copy_items(&self.instances[idx].1.provide_assets);
        if let Some(e) = self.assets.batch_validate(&grants) {
            return Err(e);
        }
        // all checks passed: settle, then transition.  The booked price is
        // still held in full: every account's reserve covers its bookings.
        proof {
            lemma_booked_sum_elem(self.instances@, player, idx as int, 0);
        }
        let moved = self.ledger.unreserve(player, price);
        proof {
            assert(moved == price);
        }
        if let Err(_) = self.ledger.transfer(player, caller, price, true) {
            proof {
                assert(false);
            }
            return Err(Error::InsufficientFunds);
        }
        if let Err(_) = self.assets.mint_batch(&grants, caller) {
            proof {
                assert(false);
            }
            return Err(Error::Overflow);
        }
        let ghost pre_instances = self.instances@;
        let (key, mut inst) = self.instances.remove(idx);
        inst.status = DungeonInstanceStatus::Started {
            server: caller,
            close_due: self.now + self.playing_gap,
        };
        let dungeon_id = inst.dungeon_id;
        let ghost new_entry = (key, inst);
        self.instances.insert(idx, (key, inst));
        proof {
            assert(self.instances@ =~= pre_instances.update(idx as int, new_entry));
            lemma_inst_find_update(pre_instances, idx as int, new_entry);
            assert forall|k: int|
                0 <= k < self.instances@.len() implies (#[trigger] self.instances@[k]).0@.len()
                == 32 && ranks_valid(self.instances@[k].1.report_ranks@) by {
                if k != idx {
                    assert(self.instances@[k] == pre_instances[k]);
                }
            }
            assert(self.instance_of(ticket_id@)->Some_0 =~= with_status(
                old(self).instance_of(ticket_id@)->Some_0,
                DungeonInstanceStatus::Started {
                    server: caller,
                    close_due: (old(self).now + old(self).playing_gap) as Time,
                },
            ));
            // the settled booking releases its hold together with the
            // reservation it was covered by
            assert forall|w: AccountId|
                self.ledger.reserved_of(w) >= #[trigger] booked_sum(
                    self.instances@,
                    w,
                    0,
                ) by {
                lemma_booked_sum_update(pre_instances, idx as int, new_entry, w, 0);
                assert(old(self).ledger.reserved_of(w) >= booked_sum(pre_instances, w, 0));
            }
        }
        self.events.push(
            Event::DungeonStarted {
                dungeon_id,
                player,
                server: caller,
                ticket_id: copy_items(ticket_id),
            },
        );
        Ok(())
    }

    /// Scale a grant table to a reward percentage, rounding each share
    /// down.
    fn build_scaled(grants: &Vec<(AssetId, Balance)>, pct: u8) -> (r: Vec<(AssetId, Balance)>)
        requires
            pct <= 100,
        ensures
            r@ == scaled_grants(grants@, pct),
    {
        let n = grants.len();
        let mut r: Vec<(AssetId, Balance)> = Vec::new();
        let mut i: usize = 0;
        while i < n
            invariant
                n == grants@.len(),
                0 <= i <= n,
                pct <= 100,
                r@.len() == i,
                forall|k: int|
                    0 <= k < i ==> r@[k] == (grants@[k].0, scaled_amount(grants@[k].1, pct)),
            decreases n - i,
        {
            let (a, amount) = grants[i];
            proof {
                assert((amount as int) * (pct as int) <= (Balance::MAX as int) * 100 && 0 <= (
                amount as int) * (pct as int)) by (nonlinear_arith)
                    requires
                        amount <= Balance::MAX,
                        0 <= pct <= 100,
                ;
            }
            let share = ((amount as u128 * pct as u128) / 100) as u64;
            r.push((a, share));
            i = i + 1;
        }
        proof {
            assert(r@ =~= scaled_grants(grants@, pct));
        }
        r
    }

    /// Whether an `end` call would succeed: the instance is started, the
    /// caller is its recorded server, the outcome has a reward entry and
    /// the scaled reward can be minted.
    pub open spec fn end_allowed(self, caller: AccountId, t: Seq<u8>, outcome: OutcomeKind)
        -> bool {
        match self.instance_of(t) {
            Some(iv) => match iv.status {
                DungeonInstanceStatus::Started { server, .. } => {
                    &&& caller == server
                    &&& reward_for(iv.report_ranks, outcome) is Some
                    &&& batch_check(
                        self.assets,
                        scaled_grants(
                            iv.provide_assets,
                            reward_for(iv.report_ranks, outcome)->Some_0,
                        ),
                        0,
                    ) is None
                },
                _ => false,
            },
            None => false,
        }
    }

    /// The error a failing `end` call reports, in the order the checks
    /// run.
    pub open spec fn end_error(self, caller: AccountId, t: Seq<u8>, outcome: OutcomeKind)
        -> Error {
        match self.instance_of(t) {
            None => Error::NotFound,
            Some(iv) => match iv.status {
                DungeonInstanceStatus::Started { server, .. } => if caller != server {
                    Error::Unauthorized
                } else if reward_for(iv.report_ranks, outcome) is None {
                    Error::UnknownOutcome
                } else {
                    batch_check(
                        self.assets,
                        scaled_grants(
                            iv.provide_assets,
                            reward_for(iv.report_ranks, outcome)->Some_0,
                        ),
                        0,
                    )->Some_0
                },
                _ => Error::WrongState,
            },
        }
    }

    /// Report a started session's outcome: look the outcome up in the
    /// captured distribution table, mint that share of each captured grant
    /// to the server, and move the status to `Ended`.  Only the recorded
    /// server may report, and an outcome absent from the table changes
    /// nothing.
    pub fn end(&mut self, caller: AccountId, ticket_id: &Vec<u8>, outcome: OutcomeKind) -> (r:
        Result<(), Error>)
        requires
            old(self).wf(),
        ensures
            final(self).wf(),
            config_kept(*old(self), *final(self)),
            statuses_forward(*old(self), *final(self)),
            r is Ok <==> old(self).end_allowed(caller, ticket_id@, outcome),
            match r {
                Ok(()) => {
                    let iv = old(self).instance_of(ticket_id@)->Some_0;
                    let pct = reward_for(iv.report_ranks, outcome)->Some_0;
                    &&& final(self).instance_of(ticket_id@) == Some(
                        with_status(
                            iv,
                            DungeonInstanceStatus::Ended {
                                server: caller,
                                report_at: old(self).now,
                                outcome,
                            },
                        ),
                    )
                    &&& forall|t2: Seq<u8>|
                        t2 != ticket_id@ ==> final(self).instance_of(t2) == old(self).instance_of(
                            t2,
                        )
                    &&& batch_minted(
                        old(self).assets,
                        final(self).assets,
                        scaled_grants(iv.provide_assets, pct),
                        caller,
                    )
                    &&& final(self).ledger == old(self).ledger
                    &&& final(self).dungeons == old(self).dungeons
                    &&& final(self).now == old(self).now
                    &&& final(self).nonce == old(self).nonce
                    &&& events_appended(*old(self), *final(self), 1)
                    &&& final(self).events@.last() matches Event::DungeonEnded {
                        dungeon_id,
                        player,
                        server,
                        ticket_id: te,
                        outcome: o,
                    } && dungeon_id == iv.dungeon_id && player == iv.player && server == caller
                        && te@ == ticket_id@ && o == outcome
                },
                Err(e) => {
                    &&& *final(self) == *old(self)
                    &&& e == old(self).end_error(caller, ticket_id@, outcome)
                },
            },
    {
        let idx = match Self::inst_index(&self.instances, ticket_id) {
            Some(i) => i,
            None => {
                return Err(Error::NotFound);
            },
        };
        let server = match self.instances[idx].1.status {
            DungeonInstanceStatus::Started { server, .. } => server,
            _ => {
                return Err(Error::WrongState);
            },
        };
        if caller != server {
            return Err(Error::Unauthorized);
        }
        let pct = match lookup_reward(&self.instances[idx].1.report_ranks, outcome) {
            Some(p) => p,
            None => {
                return Err(Error::UnknownOutcome);
            },
        };
        proof {
            // the first matching share is bounded by the outcome's total,
            // which a well-formed table keeps at 100 or below
            lemma_reward_le_pct(self.instances@[idx as int].1.report_ranks@, outcome, 0);
            assert(crate::dungeon::pct_from(self.instances@[idx as int].1.report_ranks@, outcome, 0)
                <= 100);
        }
        let scaled = Self::build_scaled(&self.instances[idx].1.provide_assets, pct);
        if let Some(e) = self.assets.batch_validate(&scaled) {
            return Err(e);
        }
        if let Err(_) = self.assets.mint_batch(&scaled, caller) {
            proof {
                assert(false);
            }
            return Err(Error::Overflow);
        }
        let ghost pre_instances = self.instances@;
        let (key, mut inst) = self.instances.remove(idx);
        inst.status = DungeonInstanceStatus::Ended { server: caller, report_at: self.now, outcome };
        let dungeon_id = inst.dungeon_id;
        let player = inst.player;
        let ghost new_entry = (key, inst);
        self.instances.insert(idx, (key, inst));
        proof {
            assert(self.instances@ =~= pre_instances.update(idx as int, new_entry));
            lemma_inst_find_update(pre_instances, idx as int, new_entry);
            assert forall|k: int|
                0 <= k < self.instances@.len() implies (#[trigger] self.instances@[k]).0@.len()
                == 32 && ranks_valid(self.instances@[k].1.report_ranks@) by {
                if k != idx {
                    assert(self.instances@[k] == pre_instances[k]);
                }
            }
            assert(self.instance_of(ticket_id@)->Some_0 =~= with_status(
                old(self).instance_of(ticket_id@)->Some_0,
                DungeonInstanceStatus::Ended {
                    server: caller,
                    report_at: old(self).now,
                    outcome,
                },
            ));
            // neither a started nor an ended session demands a hold, and
            // the ledger did not move
            assert forall|w: AccountId|
                self.ledger.reserved_of(w) >= #[trigger] booked_sum(
                    self.instances@,
                    w,
                    0,
                ) by {
                lemma_booked_sum_update(pre_instances, idx as int, new_entry, w, 0);
                assert(old(self).ledger.reserved_of(w) >= booked_sum(pre_instances, w, 0));
            }
        }
        self.events.push(
            Event::DungeonEnded {
                dungeon_id,
                player,
                server: caller,
                ticket_id: copy_items(ticket_id),
                outcome,
            },
        );
        Ok(())
    }

    /// The scheduled maintenance pass, run once per logical tick: every
    /// expired booking is refunded and closed, every expired session times
    /// out, and every reported session is finalized.  Skipping or delaying
    /// a pass only delays closure; refunds move held balance back to
    /// spendable and never change any account's sum.
    pub fn sweep(&mut self)
        requires
            old(self).wf(),
        ensures
            final(self).wf(),
            config_kept(*old(self), *final(self)),
            statuses_forward(*old(self), *final(self)),
            final(self).dungeons == old(self).dungeons,
            final(self).assets == old(self).assets,
            final(self).events == old(self).events,
            final(self).now == old(self).now,
            final(self).nonce == old(self).nonce,
            forall|t: Seq<u8>|
                #![trigger old(self).instance_of(t)]
                match old(self).instance_of(t) {
                    Some(iv) => final(self).instance_of(t) == Some(
                        with_status(iv, swept_status(iv.status, old(self).now)),
                    ),
                    None => final(self).instance_of(t) is None,
                },
            forall|w: AccountId|
                final(self).ledger.reserved_of(w) == old(self).ledger.reserved_of(w)
                    - expired_sum(old(self).instances@, w, old(self).now, 0),
            forall|w: AccountId|
                final(self).ledger.free_of(w) == old(self).ledger.free_of(w) + expired_sum(
                    old(self).instances@,
                    w,
                    old(self).now,
                    0,
                ),
            final(self).ledger.total() == old(self).ledger.total(),
            final(self).ledger.spec_min_balance() == old(self).ledger.spec_min_balance(),
    {
        let ghost orig = *self;
        let n = self.instances.len();
        let mut i: usize = 0;
        while i < n
            invariant
                self.wf(),
                n == orig.instances@.len(),
                self.instances@.len() == n,
                0 <= i <= n,
                self.dungeons == orig.dungeons,
                self.assets == orig.assets,
                self.events == orig.events,
                self.now == orig.now,
                self.nonce == orig.nonce,
                self.managers == orig.managers,
                self.closing_gap == orig.closing_gap,
                self.playing_gap == orig.playing_gap,
                self.seed == orig.seed,
                forall|k: int|
                    0 <= k < n ==> (#[trigger] self.instances@[k]).0@ == orig.instances@[k].0@,
                forall|k: int|
                    0 <= k < i ==> (#[trigger] self.instances@[k]).1@ == with_status(
                        orig.instances@[k].1@,
                        swept_status(orig.instances@[k].1@.status, orig.now),
                    ),
                forall|k: int|
                    i <= k < n ==> (#[trigger] self.instances@[k]).1 == orig.instances@[k].1,
                forall|w: AccountId|
                    #![trigger self.ledger.free_of(w)]
                    #![trigger self.ledger.reserved_of(w)]
                    self.ledger.reserved_of(w) == orig.ledger.reserved_of(w) - expired_upto(
                        orig.instances@,
                        w,
                        orig.now,
                        i as int,
                    ) && self.ledger.free_of(w) == orig.ledger.free_of(w) + expired_upto(
                        orig.instances@,
                        w,
                        orig.now,
                        i as int,
                    ),
                self.ledger.total() == orig.ledger.total(),
                self.ledger.spec_min_balance() == orig.ledger.spec_min_balance(),
            decreases n - i,
        {
            let status = self.instances[i].1.status;
            match status {
                DungeonInstanceStatus::Booked { close_due } => {
                    if self.now >= close_due {
                        let player = self.instances[i].1.player;
                        let price = self.instances[i].1.ticket_price;
                        let ghost before_seq = self.instances@;
                        let ghost before_led = self.ledger;
                        proof {
                            // the held balance covers this booking's price,
                            // so the refund moves it back in full
                            lemma_booked_sum_elem(before_seq, player, i as int, 0);
                        }
                        self.set_swept_status(i, DungeonInstanceStatus::Closed);
                        let ghost mid_seq = self.instances@;
                        let moved = self.ledger.unreserve(player, price);
                        proof {
                            assert(moved == price);
                            assert forall|w: AccountId|
                                self.ledger.reserved_of(w) >= #[trigger] booked_sum(
                                    self.instances@,
                                    w,
                                    0,
                                ) by {
                                assert(mid_seq =~= before_seq.update(
                                    i as int,
                                    mid_seq[i as int],
                                ));
                                lemma_booked_sum_update(
                                    before_seq,
                                    i as int,
                                    mid_seq[i as int],
                                    w,
                                    0,
                                );
                                assert(booked_hold(mid_seq[i as int], w) == 0);
                                assert(before_led.reserved_of(w) >= booked_sum(
                                    before_seq,
                                    w,
                                    0,
                                ));
                            }
                        }
                    }
                },
                DungeonInstanceStatus::Started { server, close_due } => {
                    if self.now >= close_due {
                        let timed_out = DungeonInstanceStatus::Ended {
                            server,
                            report_at: self.now,
                            outcome: OutcomeKind::Timeout,
                        };
                        self.set_swept_status(i, timed_out);
                    }
                },
                DungeonInstanceStatus::Ended { .. } => {
                    self.set_swept_status(i, DungeonInstanceStatus::Closed);
                },
                DungeonInstanceStatus::Closed => {},
            }
            proof {
                assert forall|w: AccountId|
                    expired_upto(orig.instances@, w, orig.now, (i + 1) as int) == expired_upto(
                        orig.instances@,
                        w,
                        orig.now,
                        i as int,
                    ) + expired_hold(orig.instances@[i as int], w, orig.now) by {}
            }
            i = i + 1;
        }
        proof {
            lemma_inst_find_swept(orig.instances@, self.instances@, orig.now);
            assert forall|w: AccountId|
                self.ledger.reserved_of(w) == orig.ledger.reserved_of(w) - expired_sum(
                    orig.instances@,
                    w,
                    orig.now,
                    0,
                ) && self.ledger.free_of(w) == orig.ledger.free_of(w) + expired_sum(
                    orig.instances@,
                    w,
                    orig.now,
                    0,
                ) by {
                lemma_expired_split(orig.instances@, w, orig.now, n as int);
                assert(expired_sum(orig.instances@, w, orig.now, n as int) == 0);
            }
        }
    }

    /// Replace the status of the instance in slot `i`.  The new status
    /// never books, so it demands nothing of the held balance.
    fn set_swept_status(&mut self, i: usize, status: DungeonInstanceStatus)
        requires
            old(self).wf(),
            i < old(self).instances@.len(),
            !(status is Booked),
        ensures
            final(self).wf(),
            final(self).instances@.len() == old(self).instances@.len(),
            forall|k: int|
                0 <= k < old(self).instances@.len() && k != i ==> final(self).instances@[k] == old(
                    self,
                ).instances@[k],
            final(self).instances@[i as int].0 == old(self).instances@[i as int].0,
            final(self).instances@[i as int].1@ == with_status(
                old(self).instances@[i as int].1@,
                status,
            ),
            ranks_valid(final(self).instances@[i as int].1.report_ranks@),
            *final(self) == (Engine { instances: final(self).instances, ..*old(self) }),
    {
        let ghost pre_instances = self.instances@;
        let (key, mut inst) = self.instances.remove(i);
        inst.status = status;
        let ghost new_entry = (key, inst);
        self.instances.insert(i, (key, inst));
        proof {
            assert(self.instances@ =~= pre_instances.update(i as int, new_entry));
            assert forall|k: int|
                0 <= k < self.instances@.len() implies (#[trigger] self.instances@[k]).0@.len()
                == 32 && ranks_valid(self.instances@[k].1.report_ranks@) by {
                if k != i {
                    assert(self.instances@[k] == pre_instances[k]);
                }
            }
            assert forall|a: int, b: int|
                0 <= a < b < self.instances@.len() implies self.instances@[a].0@
                != self.instances@[b].0@ by {
                assert(self.instances@[a].0@ == pre_instances[a].0@);
                assert(self.instances@[b].0@ == pre_instances[b].0@);
            }
            assert forall|w: AccountId|
                self.ledger.reserved_of(w) >= #[trigger] booked_sum(
                    self.instances@,
                    w,
                    0,
                ) by {
                lemma_booked_sum_update(pre_instances, i as int, new_entry, w, 0);
            }
        }
    }
}

impl Engine {
    /// Status of the instance bound to a ticket id, if any.
    pub fn instance_status(&self, ticket_id: &Vec<u8>) -> (r: Option<DungeonInstanceStatus>)
        ensures
            r == match self.instance_of(ticket_id@) {
                Some(iv) => Some(iv.status),
                None => None::<DungeonInstanceStatus>,
            },
    {
        match Self::inst_index(&self.instances, ticket_id) {
            Some(i) => Some(self.instances[i].1.status),
            None => None,
        }
    }

    /// Current ticket price of a dungeon, if it exists.
    pub fn dungeon_ticket_price(&self, id: DungeonId) -> (r: Option<Balance>)
        ensures
            r == match self.dungeon_of(id) {
                Some(d) => Some(d.ticket_price),
                None => None::<Balance>,
            },
    {
        match store::find_index(&self.dungeons, id) {
            Some(i) => Some(self.dungeons[i].1.ticket_price),
            None => None,
        }
    }

    /// How many instances were ever created.
    pub fn instance_count(&self) -> (r: usize)
        ensures
            r == self.instances@.len(),
    {
        self.instances.len()
    }
}

/// Ticket ids are unique across all instances ever created: the store never
/// drops an instance, booking refuses an id that is already bound, and a
/// well-formed engine never holds two instances under one ticket id.
pub proof fn lemma_ticket_ids_unique(e: Engine)
    requires
        e.wf(),
    ensures
        forall|i: int, j: int|
            0 <= i < j < e.instances@.len() ==> e.instances@[i].0@ != e.instances@[j].0@,
{
}

proof fn lemma_inst_find_swept_rec(
    s1: Seq<(Vec<u8>, DungeonInstance)>,
    s2: Seq<(Vec<u8>, DungeonInstance)>,
    now: Time,
    t: Seq<u8>,
    j: int,
)
    requires
        s1.len() == s2.len(),
        forall|k: int| 0 <= k < s1.len() ==> (#[trigger] s2[k]).0@ == s1[k].0@,
        forall|k: int|
            0 <= k < s1.len() ==> (#[trigger] s2[k]).1@ == with_status(
                s1[k].1@,
                swept_status(s1[k].1@.status, now),
            ),
        0 <= j <= s1.len(),
    ensures
        match inst_find_from(s1, t, j) {
            Some(iv) => inst_find_from(s2, t, j) == Some(
                with_status(iv, swept_status(iv.status, now)),
            ),
            None => inst_find_from(s2, t, j) is None,
        },
    decreases s1.len() - j,
{
    if j < s1.len() {
        lemma_inst_find_swept_rec(s1, s2, now, t, j + 1);
    }
}

/// Lookups in a swept store see exactly the swept status of what they saw
/// before.
proof fn lemma_inst_find_swept(
    s1: Seq<(Vec<u8>, DungeonInstance)>,
    s2: Seq<(Vec<u8>, DungeonInstance)>,
    now: Time,
)
    requires
        s1.len() == s2.len(),
        forall|k: int| 0 <= k < s1.len() ==> (#[trigger] s2[k]).0@ == s1[k].0@,
        forall|k: int|
            0 <= k < s1.len() ==> (#[trigger] s2[k]).1@ == with_status(
                s1[k].1@,
                swept_status(s1[k].1@.status, now),
            ),
    ensures
        forall|t: Seq<u8>|
            #![trigger inst_find_from(s1, t, 0)]
            match inst_find_from(s1, t, 0) {
                Some(iv) => inst_find_from(s2, t, 0) == Some(
                    with_status(iv, swept_status(iv.status, now)),
                ),
                None => inst_find_from(s2, t, 0) is None,
            },
{
    assert forall|t: Seq<u8>|
        #![trigger inst_find_from(s1, t, 0)]
        match inst_find_from(s1, t, 0) {
            Some(iv) => inst_find_from(s2, t, 0) == Some(
                with_status(iv, swept_status(iv.status, now)),
            ),
            None => inst_find_from(s2, t, 0) is None,
        } by {
        lemma_inst_find_swept_rec(s1, s2, now, t, 0);
    }
}

} // verus!
