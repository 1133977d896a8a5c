//! Dungeon definitions and dungeon instances.  A definition carries the
//! ticket price, the assets granted on start and the outcome distribution
//! table.  An instance is one booked session: it captures the definition's
//! data at booking time, so later modifications never alter a session that
//! is already in flight.

use vstd::prelude::*;
use crate::primitives::{AccountId, AssetId, Balance, DungeonId, DungeonInstanceStatus, OutcomeKind,
    Time};

verus! {

/// A dungeon definition.
pub struct DungeonInfo {
    /// Price reserved at booking and settled at start.
    pub ticket_price: Balance,
    /// Assets minted to the server when a session starts.
    pub provide_assets: Vec<(AssetId, Balance)>,
    /// Reward percentage granted per reported outcome.
    pub report_ranks: Vec<(OutcomeKind, u8)>,
}

/// Abstract value of a definition.
#[verifier::ext_equal]
pub struct DungeonInfoV {
    pub ticket_price: Balance,
    pub provide_assets: Seq<(AssetId, Balance)>,
    pub report_ranks: Seq<(OutcomeKind, u8)>,
}

impl View for DungeonInfo {
    type V = DungeonInfoV;

    open spec fn view(&self) -> DungeonInfoV {
        DungeonInfoV {
            ticket_price: self.ticket_price,
            provide_assets: self.provide_assets@,
            report_ranks: self.report_ranks@,
        }
    }
}

/// One booked session of a dungeon.
pub struct DungeonInstance {
    /// The dungeon this session belongs to.
    pub dungeon_id: DungeonId,
    /// The account that bought the ticket.
    pub player: AccountId,
    /// Logical time of the booking.
    pub created_at: Time,
    /// Where the session stands on its lifecycle.
    pub status: DungeonInstanceStatus,
    /// The definition's price, captured at booking time.
    pub ticket_price: Balance,
    /// The definition's grant table, captured at booking time.
    pub provide_assets: Vec<(AssetId, Balance)>,
    /// The definition's distribution table, captured at booking time.
    pub report_ranks: Vec<(OutcomeKind, u8)>,
}

/// Abstract value of an instance.
#[verifier::ext_equal]
pub struct DungeonInstanceV {
    pub dungeon_id: DungeonId,
    pub player: AccountId,
    pub created_at: Time,
    pub status: DungeonInstanceStatus,
    pub ticket_price: Balance,
    pub provide_assets: Seq<(AssetId, Balance)>,
    pub report_ranks: Seq<(OutcomeKind, u8)>,
}

impl View for DungeonInstance {
    type V = DungeonInstanceV;

    open spec fn view(&self) -> DungeonInstanceV {
        DungeonInstanceV {
            dungeon_id: self.dungeon_id,
            player: self.player,
            created_at: self.created_at,
            status: self.status,
            ticket_price: self.ticket_price,
            provide_assets: self.provide_assets@,
            report_ranks: self.report_ranks@,
        }
    }
}

/// The same instance with another status.
pub open spec fn with_status(iv: DungeonInstanceV, status: DungeonInstanceStatus)
    -> DungeonInstanceV {
    DungeonInstanceV { status, ..iv }
}

/// Sum of the percentages entered for outcome `o` in `ranks[i..]`.
pub open spec fn pct_from(ranks: Seq<(OutcomeKind, u8)>, o: OutcomeKind, i: int) -> int
    decreases ranks.len() - i,
{
    if i < 0 || i >= ranks.len() {
        0
    } else {
        (if ranks[i].0 == o {
            ranks[i].1 as int
        } else {
            0
        }) + pct_from(ranks, o, i + 1)
    }
}

/// A distribution table is valid when no outcome's percentages sum past 100.
pub open spec fn ranks_valid(ranks: Seq<(OutcomeKind, u8)>) -> bool {
    forall|o: OutcomeKind| pct_from(ranks, o, 0) <= 100
}

/// First percentage entered for outcome `o` in `ranks[i..]`.
pub open spec fn reward_from(ranks: Seq<(OutcomeKind, u8)>, o: OutcomeKind, i: int) -> Option<u8>
    decreases ranks.len() - i,
{
    if i < 0 || i >= ranks.len() {
        None
    } else if ranks[i].0 == o {
        Some(ranks[i].1)
    } else {
        reward_from(ranks, o, i + 1)
    }
}

/// The reward percentage a table grants for an outcome, if any.
pub open spec fn reward_for(ranks: Seq<(OutcomeKind, u8)>, o: OutcomeKind) -> Option<u8> {
    reward_from(ranks, o, 0)
}

proof fn lemma_pct_from_nonneg(ranks: Seq<(OutcomeKind, u8)>, o: OutcomeKind, i: int)
    ensures
        pct_from(ranks, o, i) >= 0,
    decreases ranks.len() - i,
{
    if 0 <= i < ranks.len() {
        lemma_pct_from_nonneg(ranks, o, i + 1);
    }
}

/// The first matching percentage is bounded by the outcome's total.
pub proof fn lemma_reward_le_pct(ranks: Seq<(OutcomeKind, u8)>, o: OutcomeKind, i: int)
    requires
        0 <= i <= ranks.len(),
    ensures
        match reward_from(ranks, o, i) {
            Some(p) => p <= pct_from(ranks, o, i),
            None => true,
        },
    decreases ranks.len() - i,
{
    if i < ranks.len() {
        lemma_reward_le_pct(ranks, o, i + 1);
        lemma_pct_from_nonneg(ranks, o, i + 1);
    }
}

/// Sum of the percentages entered for outcome `o` in the whole table.
fn pct_total(ranks: &Vec<(OutcomeKind, u8)>, o: OutcomeKind) -> (r: u128)
    ensures
        r == pct_from(ranks@, o, 0),
{
    let n = ranks.len();
    let mut acc: u128 = 0;
    let mut i: usize = 0;
    while i < n
        invariant
            n == ranks@.len(),
            0 <= i <= n,
            acc + pct_from(ranks@, o, i as int) == pct_from(ranks@, o, 0),
            acc <= 255 * i,
        decreases n - i,
    {
        if ranks[i].0 == o {
            acc = acc + ranks[i].1 as u128;
        }
        i = i + 1;
    }
    acc
}

/// Check that no outcome's percentages sum past 100.
pub fn check_ranks(ranks: &Vec<(OutcomeKind, u8)>) -> (r: bool)
    ensures
        r == ranks_valid(ranks@),
{
    let v = pct_total(ranks, OutcomeKind::Victory);
    let d = pct_total(ranks, OutcomeKind::Defeat);
    let t = pct_total(ranks, OutcomeKind::Timeout);
    let ok = v <= 100 && d <= 100 && t <= 100;
    proof {
        if ok {
            assert forall|o: OutcomeKind| pct_from(ranks@, o, 0) <= 100 by {
                match o {
                    OutcomeKind::Victory => {},
                    OutcomeKind::Defeat => {},
                    OutcomeKind::Timeout => {},
                }
            }
        }
    }
    ok
}

/// First percentage entered for the outcome, scanning the table in order.
pub fn lookup_reward(ranks: &Vec<(OutcomeKind, u8)>, o: OutcomeKind) -> (r: Option<u8>)
    ensures
        r == reward_for(ranks@, o),
{
    let n = ranks.len();
    let mut i: usize = 0;
    while i < n
        invariant
            n == ranks@.len(),
            0 <= i <= n,
            reward_from(ranks@, o, i as int) == reward_for(ranks@, o),
        decreases n - i,
    {
        if ranks[i].0 == o {
            return Some(ranks[i].1);
        }
        i = i + 1;
    }
    None
}

/// Copy a vector of plain values entry by entry: grant tables,
/// distribution tables and ticket ids are captured through this.
pub fn copy_items<T: Copy>(v: &Vec<T>) -> (r: Vec<T>)
    ensures
        r@ == v@,
{
    let n = v.len();
    let mut r: Vec<T> = Vec::new();
    let mut i: usize = 0;
    while i < n
        invariant
            n == v@.len(),
            0 <= i <= n,
            r@ == v@.take(i as int),
        decreases n - i,
    {
        r.push(v[i]);
        proof {
            assert(r@ =~= v@.take(i + 1));
        }
        i = i + 1;
    }
    proof {
        assert(v@.take(n as int) =~= v@);
    }
    r
}

} // verus!
