//! A marketplace for time-boxed, ticketed dungeon sessions.
//!
//! A player books a ticket for a dungeon, which reserves the ticket price on
//! an in-memory currency ledger.  A server claims the ticket within a closing
//! window (`start`), which settles the reserved funds and mints the dungeon's
//! granted assets, and later reports an outcome (`end`), which mints a reward
//! share looked up in the dungeon's distribution table.  An expiry sweep
//! closes instances whose window has elapsed.  Every state transition and
//! every ledger effect is verified: statuses only move forward, settlement
//! happens exactly once, and the currency supply is conserved.

pub mod assets;
pub mod dungeon;
pub mod engine;
pub mod features;
pub mod hashing;
pub mod ledger;
pub mod primitives;
pub mod random;
pub mod store;
pub mod support;
