//! Plain value types shared by every component: identifiers, errors, session
//! outcomes, instance statuses and change notifications.

use vstd::prelude::*;

verus! {

/// Account identifier on the ledger.
pub type AccountId = u64;

/// Dungeon definition identifier.
pub type DungeonId = u64;

/// Fungible asset identifier.
pub type AssetId = u64;

/// Balance of currency or of a fungible asset.
pub type Balance = u64;

/// Logical time, a monotonically increasing tick counter supplied by the host.
pub type Time = u64;

/// Why an operation was refused.  Every failure leaves the engine unchanged.
#[derive(Clone, Copy, Debug, PartialEq, Eq, Structural)]
pub enum Error {
    /// A dungeon with this id already exists.
    AlreadyExists,
    /// The dungeon or instance was not found.
    NotFound,
    /// A granted asset is not registered or not currently in use.
    AssetUnavailable,
    /// The currency ledger refused a reserve or transfer.
    InsufficientFunds,
    /// The transition was attempted from an invalid status.
    WrongState,
    /// The booking window has elapsed.
    Expired,
    /// The caller lacks the rights for this operation.
    Unauthorized,
    /// The reported outcome has no entry in the distribution table.
    UnknownOutcome,
    /// The derived ticket id is already taken.
    Collision,
    /// A distribution table exceeds its percentage bound.
    InvalidDistribution,
    /// A balance or a deadline would exceed the machine limit.
    Overflow,
}

/// The reported result of a played session.
#[derive(Clone, Copy, Debug, PartialEq, Eq, Structural)]
pub enum OutcomeKind {
    /// The party cleared the dungeon.
    Victory,
    /// The party was defeated.
    Defeat,
    /// The playing window elapsed without a report.
    Timeout,
}

/// The status of a dungeon instance.  Transitions are strictly forward:
/// `Booked`, then `Started`, then `Ended`, then `Closed`, with `Closed`
/// reachable from any earlier status through the expiry sweep.
#[derive(Clone, Copy, Debug, PartialEq, Eq, Structural)]
pub enum DungeonInstanceStatus {
    /// Ticket bought; a server must claim it before `close_due`.
    Booked { close_due: Time },
    /// Session running on `server`; a report is due before `close_due`.
    Started { server: AccountId, close_due: Time },
    /// Session reported by `server` at `report_at` with `outcome`.
    Ended { server: AccountId, report_at: Time, outcome: OutcomeKind },
    /// Terminal status; the instance is immutable from here on.
    Closed,
}

impl DungeonInstanceStatus {
    /// Position of a status on the forward-only lifecycle.
    pub open spec fn rank(self) -> int {
        match self {
            DungeonInstanceStatus::Booked { .. } => 0,
            DungeonInstanceStatus::Started { .. } => 1,
            DungeonInstanceStatus::Ended { .. } => 2,
            DungeonInstanceStatus::Closed => 3,
        }
    }
}

/// A change notification, appended by the engine on every successful
/// mutation in the order the mutations happened.
#[derive(Debug)]
pub enum Event {
    /// A dungeon was created with this ticket price.
    DungeonCreated { dungeon_id: DungeonId, ticket_price: Balance },
    /// A dungeon's ticket price changed.
    DungeonTicketModified { dungeon_id: DungeonId, old_price: Balance, new_price: Balance },
    /// A dungeon's granted assets changed.
    DungeonInfoModified { dungeon_id: DungeonId },
    /// A dungeon's distribution table changed.
    DungeonReportRanksModified { dungeon_id: DungeonId },
    /// A ticket was bought for a dungeon.
    DungeonTicketBought { dungeon_id: DungeonId, player: AccountId, ticket_id: Vec<u8> },
    /// A booked instance was claimed by a server.
    DungeonStarted { dungeon_id: DungeonId, player: AccountId, server: AccountId, ticket_id: Vec<u8> },
    /// A started instance was reported with an outcome.
    DungeonEnded {
        dungeon_id: DungeonId,
        player: AccountId,
        server: AccountId,
        ticket_id: Vec<u8>,
        outcome: OutcomeKind,
    },
}

} // verus!
